//! The client's side of a control connection.
//!
//! [`ClientController`] follows the session state machine from the side
//! that issues requests: it numbers them, refuses those the state does not
//! allow, and moves on when the server's response says the request was
//! carried out. It never touches a socket; the connection task around it
//! writes the requests and reads the responses.

pub use crate::session::ClientState;
use crate::rtsp::{
    spec_request, spec_response_of_bytes, FormatError, RequestType, RequestView, RtspRequest,
    RtspResponse,
};
use crate::session::{spec_next_state, MediaCommand, STATUS_OK};
use vstd::prelude::*;

verus! {

/// What a client needs to know to reach a server and ask for a resource.
#[derive(Clone)]
pub struct ClientArgs {
    pub server_addr: String,
    pub server_port: u16,
    pub rtp_port: u16,
    pub video_file: String,
}

/// Why a command was not carried out.
#[derive(Debug, PartialEq, Eq, Clone, Copy, Structural)]
pub enum ClientError {
    /// The method is not allowed in the session's state.
    NotPermitted,
    /// Every sequence number has been used.
    SequenceExhausted,
    /// The server's answer is not a response.
    Malformed(FormatError),
    /// The server answered with a status other than 200.
    Rejected { status_code: u16 },
}

/// What follows from a response that says a request was carried out.
#[derive(Debug, PartialEq, Eq, Clone, Copy, Structural)]
pub struct Completion {
    /// The state the session is in now.
    pub state: ClientState,
    /// What to do with the task that receives media.
    pub media: MediaCommand,
    /// Whether the response carried the sequence number of the request. A
    /// mismatch is worth a warning and nothing more.
    pub sequence_matches: bool,
    /// Whether the session is over and the connection of no more use.
    pub finished: bool,
}

/// A client's view of its control connection.
pub struct ClientController {
    state: ClientState,
    cseq: u32,
    session_id: u32,
}

/// The mathematical value of a [`ClientController`]: the state of the
/// session, the sequence number of the last request, and the identifier of
/// the session, or 0 for none.
pub ghost struct ControllerView {
    pub state: ClientState,
    pub cseq: u32,
    pub session_id: u32,
}

/// The controller of a fresh connection.
pub open spec fn spec_fresh() -> ControllerView {
    ControllerView { state: ClientState::Idle, cseq: 0, session_id: 0 }
}

/// What issuing a request for `method` does: the next sequence number is
/// taken and the request written, unless the state forbids the method or
/// the numbers have run out.
pub open spec fn spec_begin(
    controller: ControllerView,
    method: RequestType,
    resource: Seq<char>,
    port: u16,
) -> Result<(ControllerView, RequestView), ClientError> {
    if spec_next_state(controller.state, method) is None {
        Err(ClientError::NotPermitted)
    } else if controller.cseq == u32::MAX {
        Err(ClientError::SequenceExhausted)
    } else {
        let cseq = (controller.cseq + 1) as u32;
        Ok(
            (
                ControllerView { cseq, ..controller },
                spec_request(method, resource, cseq, port, controller.session_id),
            ),
        )
    }
}

/// What a response to a request for `method` does.
///
/// Bytes that are not a response, a status other than 200, and a method
/// that the state forbids each leave the controller as it is. Otherwise the
/// state moves on; the session identifier is taken from the response to
/// `NEGOTIATE` and dropped after `STOP`. Media is to be received on `port`
/// after `START`, and no longer once `Streaming` is left.
pub open spec fn spec_complete(
    controller: ControllerView,
    method: RequestType,
    response: Seq<u8>,
    port: u16,
) -> Result<(ControllerView, Completion), ClientError> {
    let next = spec_next_state(controller.state, method);
    match spec_response_of_bytes(response) {
        Err(e) => Err(ClientError::Malformed(e)),
        Ok(r) => if r.status_code != STATUS_OK {
            Err(ClientError::Rejected { status_code: r.status_code })
        } else if next is None {
            Err(ClientError::NotPermitted)
        } else {
            Ok(
                (
                    ControllerView {
                        state: next->Some_0,
                        cseq: controller.cseq,
                        session_id: match method {
                            RequestType::Negotiate => r.session_id,
                            RequestType::Stop => 0,
                            _ => controller.session_id,
                        },
                    },
                    Completion {
                        state: next->Some_0,
                        media: if method == RequestType::Start {
                            MediaCommand::Start { port }
                        } else if controller.state == ClientState::Streaming {
                            MediaCommand::Cancel
                        } else {
                            MediaCommand::Nothing
                        },
                        sequence_matches: r.cseq == controller.cseq,
                        finished: method == RequestType::Stop,
                    },
                ),
            )
        },
    }
}

impl View for ClientController {
    type V = ControllerView;

    closed spec fn view(&self) -> ControllerView {
        ControllerView { state: self.state, cseq: self.cseq, session_id: self.session_id }
    }
}

impl ClientController {
    /// The controller of a fresh connection: no session, no request sent.
    pub fn new() -> (controller: ClientController)
        ensures
            controller@ == spec_fresh(),
    {
        ClientController { state: ClientState::Idle, cseq: 0, session_id: 0 }
    }

    /// A controller without a session whose requests are numbered from
    /// `cseq + 1` on, as if `cseq` requests had been issued before.
    pub fn with_sequence(cseq: u32) -> (controller: ClientController)
        ensures
            controller@ == (ControllerView { cseq, ..spec_fresh() }),
    {
        ClientController { state: ClientState::Idle, cseq, session_id: 0 }
    }

    /// The state of the session.
    pub fn state(&self) -> (state: ClientState)
        ensures
            state == self@.state,
    {
        self.state
    }

    /// The sequence number of the last request, or 0 if none was issued.
    pub fn cseq(&self) -> (cseq: u32)
        ensures
            cseq == self@.cseq,
    {
        self.cseq
    }

    /// The identifier of the session, or 0 if there is none.
    pub fn session_id(&self) -> (id: u32)
        ensures
            id == self@.session_id,
    {
        self.session_id
    }

    /// Whether `method` is allowed in the session's state.
    pub fn permits(&self, method: RequestType) -> (allowed: bool)
        ensures
            allowed == spec_next_state(self@.state, method) is Some,
    {
        self.state.next(method).is_some()
    }

    /// Issues the request for `method`: takes the next sequence number and
    /// returns the request to send.
    pub fn begin(&mut self, method: RequestType, args: &ClientArgs) -> (r: Result<
        RtspRequest,
        ClientError,
    >)
        ensures
            spec_begin(old(self)@, method, args.video_file@, args.rtp_port) matches Ok(
                (after, request),
            ) ==> r is Ok && r->Ok_0@ == request && final(self)@ == after,
            spec_begin(old(self)@, method, args.video_file@, args.rtp_port) matches Err(e) ==> r
                == Err::<RtspRequest, ClientError>(e) && final(self)@ == old(self)@,
    {
        if self.state.next(method).is_none() {
            return Err(ClientError::NotPermitted);
        }
        if self.cseq == u32::MAX {
            return Err(ClientError::SequenceExhausted);
        }
        self.cseq = self.cseq + 1;
        Ok(
            RtspRequest::new(
                method,
                args.video_file.clone(),
                self.cseq,
                args.rtp_port,
                self.session_id,
            ),
        )
    }

    /// Takes in the server's answer to the request for `method` that was
    /// issued last.
    pub fn complete(&mut self, method: RequestType, response: &[u8], args: &ClientArgs) -> (r:
        Result<Completion, ClientError>)
        ensures
            spec_complete(old(self)@, method, response@, args.rtp_port) matches Ok(
                (after, completion),
            ) ==> r == Ok::<Completion, ClientError>(completion) && final(self)@ == after,
            spec_complete(old(self)@, method, response@, args.rtp_port) matches Err(e) ==> r
                == Err::<Completion, ClientError>(e) && final(self)@ == old(self)@,
    {
        let response = match RtspResponse::from_bytes(response) {
            Ok(response) => response,
            Err(e) => {
                return Err(ClientError::Malformed(e));
            },
        };
        if response.status_code != STATUS_OK {
            return Err(ClientError::Rejected { status_code: response.status_code });
        }
        let next = match self.state.next(method) {
            Some(next) => next,
            None => {
                return Err(ClientError::NotPermitted);
            },
        };
        let media = match method {
            RequestType::Start => MediaCommand::Start { port: args.rtp_port },
            _ => match self.state {
                ClientState::Streaming => MediaCommand::Cancel,
                _ => MediaCommand::Nothing,
            },
        };
        match method {
            RequestType::Negotiate => {
                self.session_id = response.session_id;
            },
            RequestType::Stop => {
                self.session_id = 0;
            },
            _ => {},
        }
        self.state = next;
        Ok(
            Completion {
                state: next,
                media,
                sequence_matches: response.cseq == self.cseq,
                finished: method == RequestType::Stop,
            },
        )
    }
}

/// Sequence numbers only grow: each request that is issued carries a number
/// larger than every request before it.
pub proof fn lemma_sequence_grows(
    controller: ControllerView,
    method: RequestType,
    resource: Seq<char>,
    port: u16,
)
    ensures
        spec_begin(controller, method, resource, port) matches Ok((after, request)) ==> after.cseq
            == controller.cseq + 1 && request.cseq == after.cseq && after.state
            == controller.state && after.session_id == controller.session_id,
{
}

/// A response moves the client's state exactly as the request moved the
/// server's: along [`spec_next_state`].
pub proof fn lemma_complete_follows_table(
    controller: ControllerView,
    method: RequestType,
    response: Seq<u8>,
    port: u16,
)
    ensures
        spec_complete(controller, method, response, port) matches Ok((after, completion)) ==> Some(
            after.state,
        ) == spec_next_state(controller.state, method) && completion.state == after.state,
{
}

} // verus!
