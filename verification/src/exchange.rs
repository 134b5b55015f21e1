//! Client and server stay in step: whatever request a client issues, the
//! server that reads it and the client that reads the reply end up in the
//! same state, with the same session.

use crate::client::{spec_begin, spec_complete, ClientError, Completion, ControllerView};
use crate::round_trip::{lemma_request_round_trip, lemma_response_round_trip};
use crate::rtsp::{
    spec_format_request, spec_format_response, spec_request_of_bytes, spec_response_of_bytes,
    FormatError, RequestType, RequestView, RtspResponse,
};
use crate::session::{
    spec_next_state, spec_reason_phrase, spec_respond, ClientState, MediaCommand, ServerStep,
    SessionView, STATUS_NOT_FOUND, STATUS_OK,
};
use crate::text::{is_one_line, is_word};
use vstd::prelude::*;
use vstd::utf8::{encode_utf8, encode_utf8_decode_utf8, encode_utf8_valid_utf8};

verus! {

/// Whether a client and a server agree on their session: they are in the
/// same state and name the same session, and media goes to the port on
/// which the client listens.
pub open spec fn in_step(controller: ControllerView, session: SessionView, port: u16) -> bool {
    &&& controller.state == session.state
    &&& controller.session_id == session.session_id
    &&& session.state != ClientState::Idle ==> session.dest_port == Some(port)
}

/// Every reason phrase fits on the status line.
pub proof fn lemma_reason_is_one_line(status_code: u16)
    ensures
        is_one_line(spec_reason_phrase(status_code)),
{
    reveal_strlit("OK");
    reveal_strlit("Bad Request");
    reveal_strlit("File Not Found");
    reveal_strlit("Connection error");
    reveal_strlit("Unknown");
}

/// One exchange keeps client and server in step.
///
/// A client that agrees with its server issues a request for a resource
/// that is a word. The server reads the bytes of the request as the request
/// that was issued, and answers it. The client reads the bytes of the answer
/// as the answer that was given. If the resource exists, or the request is
/// not `NEGOTIATE`, the answer is 200, both sides make the same move and
/// name the same session afterwards, and what the server does with the task
/// that sends media, the client does with the task that receives it. If the
/// resource to negotiate does not exist, the answer is 404 and neither side
/// moves.
pub proof fn lemma_exchange(
    controller: ControllerView,
    session: SessionView,
    method: RequestType,
    resource: Seq<char>,
    port: u16,
    resource_found: bool,
    fresh_id: u32,
)
    requires
        in_step(controller, session, port),
        is_word(resource),
        spec_begin(controller, method, resource, port) is Ok,
    ensures
        ({
            let (issued, request) = spec_begin(controller, method, resource, port)->Ok_0;
            let (after, step) = spec_respond(session, request, resource_found, fresh_id);
            let answer = encode_utf8(
                spec_format_response(step.reply, spec_reason_phrase(step.reply.status_code)),
            );
            let completed = spec_complete(issued, method, answer, port);
            &&& spec_request_of_bytes(encode_utf8(spec_format_request(request))) == Ok::<
                RequestView,
                FormatError,
            >(request)
            &&& spec_response_of_bytes(answer) == Ok::<RtspResponse, FormatError>(step.reply)
            &&& step.reply.cseq == request.cseq
            &&& if resource_found || method != RequestType::Negotiate {
                &&& step.reply.status_code == STATUS_OK
                &&& completed is Ok
                &&& in_step(completed->Ok_0.0, after, port)
                &&& Some(after.state) == spec_next_state(session.state, method)
                &&& completed->Ok_0.1.state == after.state
                &&& completed->Ok_0.1.media == step.media
                &&& completed->Ok_0.1.sequence_matches
            } else {
                &&& step.reply.status_code == STATUS_NOT_FOUND
                &&& completed == Err::<(ControllerView, Completion), ClientError>(
                    ClientError::Rejected { status_code: STATUS_NOT_FOUND },
                )
                &&& after == session
                &&& in_step(issued, after, port)
            }
        }),
{
    let (issued, request) = spec_begin(controller, method, resource, port)->Ok_0;
    let (after, step) = spec_respond(session, request, resource_found, fresh_id);
    lemma_request_round_trip(method, resource, issued.cseq, port, controller.session_id);
    lemma_reason_is_one_line(step.reply.status_code);
    lemma_response_round_trip(step.reply, spec_reason_phrase(step.reply.status_code));
    let request_text = spec_format_request(request);
    let answer_text = spec_format_response(
        step.reply,
        spec_reason_phrase(step.reply.status_code),
    );
    encode_utf8_valid_utf8(request_text);
    encode_utf8_decode_utf8(request_text);
    encode_utf8_valid_utf8(answer_text);
    encode_utf8_decode_utf8(answer_text);
}

} // verus!
