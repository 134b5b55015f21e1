//! The text of control messages: requests sent by the client and responses
//! sent by the server.
//!
//! ```text
//! Request:   METHOD resource VERSION
//!            Sequence: N
//!            Transport: ...; client_port=P      (optional)
//!            Session: S                         (optional)
//!            (empty line)
//!
//! Response:  VERSION code reason
//!            Sequence: N
//!            Session: S
//!            (empty line)
//! ```
//!
//! Lines end with a carriage return and a line feed. [`spec_parse_request`]
//! and [`spec_parse_response`] say which texts are messages and what they
//! mean; [`spec_format_request`] and [`spec_format_response`] say how a
//! message is written.

use crate::text::{
    equals, equals_ignoring_case, find_char, find_from, matches_ignoring_case, parse_u16,
    parse_u32, slices_view, spec_lines, spec_parse_number, spec_split, spec_trim, spec_words,
    split, split_lines, split_words, starts_with, to_chars, to_string, trim,
};
use vstd::prelude::*;
use vstd::slice::slice_subrange;
use vstd::utf8::{decode_utf8, encode_utf8, encode_utf8_decode_utf8, valid_utf8};
use crate::text::{push_decimal, spec_decimal};
use vstd::string::{StrSliceExecFns, StringExecFns};

verus! {

/// The protocol version written into every message.
pub const RTSP_VERSION: &'static str = "RTSP/1.0";

/// The methods a client may ask for.
#[derive(Debug, PartialEq, Eq, Clone, Copy, Structural)]
pub enum RequestType {
    /// `NEGOTIATE`: agree on a resource and a media port.
    Negotiate,
    /// `START`: begin sending media.
    Start,
    /// `PAUSE`: stop sending media, keep the session.
    Pause,
    /// `STOP`: end the session.
    Stop,
}

/// Why a text is not a control message.
#[derive(Debug, PartialEq, Eq, Clone, Copy, Structural)]
pub enum FormatError {
    /// The bytes are not UTF-8 text.
    NotText,
    /// The text has no first line.
    Empty,
    /// The request line has fewer than three words.
    MissingToken,
    /// The first word of the request line is not a method.
    UnknownMethod,
    /// The status line has no status code.
    MissingStatus,
    /// There is no `Sequence` header.
    MissingSequence,
    /// A response has no `Session` header.
    MissingSession,
    /// A status code, sequence number, session identifier or port is not a
    /// number, or does not fit its field.
    InvalidNumber,
}

/// A request as the client wrote it.
#[derive(Debug)]
pub struct RtspRequest {
    pub request_type: RequestType,
    pub filename: String,
    pub cseq: u32,
    pub transport: Option<String>,
    pub client_port: Option<u16>,
    pub session_id: Option<u32>,
}

/// A response as the server wrote it.
#[derive(Debug, PartialEq, Eq, Clone, Copy, Structural)]
pub struct RtspResponse {
    pub status_code: u16,
    pub cseq: u32,
    pub session_id: u32,
}

/// The mathematical value of a request.
pub ghost struct RequestView {
    pub request_type: RequestType,
    pub filename: Seq<char>,
    pub cseq: u32,
    pub transport: Option<Seq<char>>,
    pub client_port: Option<u16>,
    pub session_id: Option<u32>,
}

/// The characters of an optional string.
pub open spec fn option_view(s: Option<String>) -> Option<Seq<char>> {
    match s {
        Some(s) => Some(s@),
        None => None,
    }
}

impl View for RtspRequest {
    type V = RequestView;

    open spec fn view(&self) -> RequestView {
        RequestView {
            request_type: self.request_type,
            filename: self.filename@,
            cseq: self.cseq,
            transport: option_view(self.transport),
            client_port: self.client_port,
            session_id: self.session_id,
        }
    }
}

/// The word that stands for a method on the wire.
pub open spec fn spec_method_name(method: RequestType) -> Seq<char> {
    match method {
        RequestType::Negotiate => "NEGOTIATE"@,
        RequestType::Start => "START"@,
        RequestType::Pause => "PAUSE"@,
        RequestType::Stop => "STOP"@,
    }
}

/// The method that a word stands for. Method names are case-sensitive.
pub open spec fn spec_method(word: Seq<char>) -> Option<RequestType> {
    if word == "NEGOTIATE"@ {
        Some(RequestType::Negotiate)
    } else if word == "START"@ {
        Some(RequestType::Start)
    } else if word == "PAUSE"@ {
        Some(RequestType::Pause)
    } else if word == "STOP"@ {
        Some(RequestType::Stop)
    } else {
        None
    }
}

/// Whether a line is a header: it holds a colon.
pub open spec fn is_header(line: Seq<char>) -> bool {
    find_char(line, ':') < line.len()
}

/// The name of a header: what stands before its first colon, trimmed.
pub open spec fn header_name(line: Seq<char>) -> Seq<char> {
    spec_trim(line.take(find_char(line, ':') as int))
}

/// The value of a header: what stands after its first colon, trimmed.
pub open spec fn header_value(line: Seq<char>) -> Seq<char> {
    spec_trim(line.skip(find_char(line, ':') as int + 1))
}

/// Whether a line is a header called `name`, whatever the case of its
/// letters. `name` is written in small letters.
pub open spec fn is_header_named(line: Seq<char>, name: Seq<char>) -> bool {
    is_header(line) && matches_ignoring_case(header_name(line), name)
}

/// The value of the header called `name`. Where several lines carry the
/// name, the last one counts.
pub open spec fn spec_lookup(lines: Seq<Seq<char>>, name: Seq<char>) -> Option<Seq<char>>
    decreases lines.len(),
{
    if lines.len() == 0 {
        None
    } else if is_header_named(lines.last(), name) {
        Some(header_value(lines.last()))
    } else {
        spec_lookup(lines.drop_last(), name)
    }
}

/// Index of the first empty line, or the number of lines if none is empty.
pub open spec fn first_empty(lines: Seq<Seq<char>>) -> nat
    decreases lines.len(),
{
    if lines.len() == 0 || lines[0].len() == 0 {
        0
    } else {
        1 + first_empty(lines.drop_first())
    }
}

/// The header lines of a request: those after the request line, up to the
/// first empty line.
pub open spec fn spec_request_headers(lines: Seq<Seq<char>>) -> Seq<Seq<char>> {
    lines.skip(1).take(first_empty(lines.skip(1)) as int)
}

/// The text after `client_port=` in the first parameter that begins with
/// it, trimmed. Parameters are trimmed before they are looked at.
pub open spec fn spec_port_text(params: Seq<Seq<char>>) -> Option<Seq<char>>
    decreases params.len(),
{
    if params.len() == 0 {
        None
    } else if "client_port="@.is_prefix_of(spec_trim(params[0])) {
        Some(spec_trim(spec_trim(params[0]).skip("client_port="@.len() as int)))
    } else {
        spec_port_text(params.drop_first())
    }
}

/// The client port that a `Transport` value names among its parameters,
/// which semicolons separate. A value without the parameter names no port;
/// a parameter that is not a 16-bit number is an error.
pub open spec fn spec_client_port(transport: Seq<char>) -> Result<Option<u16>, FormatError> {
    match spec_port_text(spec_split(transport, ';')) {
        None => Ok(None),
        Some(text) => match spec_parse_number(text, u16::MAX as nat) {
            Some(port) => Ok(Some(port as u16)),
            None => Err(FormatError::InvalidNumber),
        },
    }
}

/// The optional session identifier among the headers.
pub open spec fn spec_optional_session(headers: Seq<Seq<char>>) -> Result<
    Option<u32>,
    FormatError,
> {
    match spec_lookup(headers, "session"@) {
        None => Ok(None),
        Some(text) => match spec_parse_number(text, u32::MAX as nat) {
            Some(id) => Ok(Some(id as u32)),
            None => Err(FormatError::InvalidNumber),
        },
    }
}

/// The mandatory sequence number among the headers.
pub open spec fn spec_sequence(headers: Seq<Seq<char>>) -> Result<u32, FormatError> {
    match spec_lookup(headers, "sequence"@) {
        None => Err(FormatError::MissingSequence),
        Some(text) => match spec_parse_number(text, u32::MAX as nat) {
            Some(n) => Ok(n as u32),
            None => Err(FormatError::InvalidNumber),
        },
    }
}

/// The transport value among the headers and the client port it names.
pub open spec fn spec_transport(headers: Seq<Seq<char>>) -> Result<
    (Option<Seq<char>>, Option<u16>),
    FormatError,
> {
    match spec_lookup(headers, "transport"@) {
        None => Ok((None, None)),
        Some(value) => match spec_client_port(value) {
            Ok(port) => Ok((Some(value), port)),
            Err(e) => Err(e),
        },
    }
}

/// The request that a text holds, or the reason why it holds none.
///
/// The first line must have at least three words: a method, a resource and a
/// version, of which the version is not looked at. The `Sequence` header is
/// mandatory; `Session` and `Transport` are optional. Errors are reported in
/// this order: the request line, the method, the sequence number, the session
/// identifier, the client port.
pub open spec fn spec_parse_request(text: Seq<char>) -> Result<RequestView, FormatError> {
    let lines = spec_lines(text);
    let words = spec_words(lines[0]);
    let headers = spec_request_headers(lines);
    if lines.len() == 0 {
        Err(FormatError::Empty)
    } else if words.len() < 3 {
        Err(FormatError::MissingToken)
    } else if spec_method(words[0]) is None {
        Err(FormatError::UnknownMethod)
    } else if spec_sequence(headers) is Err {
        Err(spec_sequence(headers)->Err_0)
    } else if spec_optional_session(headers) is Err {
        Err(spec_optional_session(headers)->Err_0)
    } else if spec_transport(headers) is Err {
        Err(spec_transport(headers)->Err_0)
    } else {
        Ok(
            RequestView {
                request_type: spec_method(words[0])->Some_0,
                filename: words[1],
                cseq: spec_sequence(headers)->Ok_0,
                transport: spec_transport(headers)->Ok_0.0,
                client_port: spec_transport(headers)->Ok_0.1,
                session_id: spec_optional_session(headers)->Ok_0,
            },
        )
    }
}

/// The request that the bytes of a message hold: the request that their
/// text holds, if they are UTF-8 text.
pub open spec fn spec_request_of_bytes(data: Seq<u8>) -> Result<RequestView, FormatError> {
    if valid_utf8(data) {
        spec_parse_request(decode_utf8(data))
    } else {
        Err(FormatError::NotText)
    }
}

/// What [`RtspRequest::parse`] returned, with the request replaced by its
/// value.
pub open spec fn parsed_request_view(r: Result<RtspRequest, FormatError>) -> Result<
    RequestView,
    FormatError,
> {
    match r {
        Ok(request) => Ok(request@),
        Err(e) => Err(e),
    }
}

/// The status code on a status line: its second word.
pub open spec fn spec_status(line: Seq<char>) -> Result<u16, FormatError> {
    let words = spec_words(line);
    if words.len() < 2 {
        Err(FormatError::MissingStatus)
    } else {
        match spec_parse_number(words[1], u16::MAX as nat) {
            Some(code) => Ok(code as u16),
            None => Err(FormatError::InvalidNumber),
        }
    }
}

/// The mandatory session identifier among the headers of a response.
pub open spec fn spec_session(headers: Seq<Seq<char>>) -> Result<u32, FormatError> {
    match spec_lookup(headers, "session"@) {
        None => Err(FormatError::MissingSession),
        Some(text) => match spec_parse_number(text, u32::MAX as nat) {
            Some(id) => Ok(id as u32),
            None => Err(FormatError::InvalidNumber),
        },
    }
}

/// The response that a text holds, or the reason why it holds none.
///
/// The second word of the first line is the status code; the first word and
/// whatever follows the code are not looked at. Every later line may be a
/// header, empty lines between them notwithstanding. `Sequence` and `Session`
/// are both mandatory. Errors are reported in this order: the status line,
/// the sequence number, the session identifier.
pub open spec fn spec_parse_response(text: Seq<char>) -> Result<RtspResponse, FormatError> {
    let lines = spec_lines(text);
    let headers = lines.skip(1);
    if lines.len() == 0 {
        Err(FormatError::Empty)
    } else if spec_status(lines[0]) is Err {
        Err(spec_status(lines[0])->Err_0)
    } else if spec_sequence(headers) is Err {
        Err(spec_sequence(headers)->Err_0)
    } else if spec_session(headers) is Err {
        Err(spec_session(headers)->Err_0)
    } else {
        Ok(
            RtspResponse {
                status_code: spec_status(lines[0])->Ok_0,
                cseq: spec_sequence(headers)->Ok_0,
                session_id: spec_session(headers)->Ok_0,
            },
        )
    }
}

/// The transport value a client writes to name the port it listens on.
pub open spec fn spec_transport_value(port: u16) -> Seq<char> {
    "RTP/UDP; client_port="@ + spec_decimal(port as nat)
}

/// The request a client writes for `method`: `NEGOTIATE` names the client's
/// port and no session, every other method names the session and no port.
pub open spec fn spec_request(
    method: RequestType,
    resource: Seq<char>,
    cseq: u32,
    port: u16,
    session_id: u32,
) -> RequestView {
    if method == RequestType::Negotiate {
        RequestView {
            request_type: method,
            filename: resource,
            cseq,
            transport: Some(spec_transport_value(port)),
            client_port: Some(port),
            session_id: None,
        }
    } else {
        RequestView {
            request_type: method,
            filename: resource,
            cseq,
            transport: None,
            client_port: None,
            session_id: Some(session_id),
        }
    }
}

/// The response that the bytes of a message hold: the response that their
/// text holds, if they are UTF-8 text.
pub open spec fn spec_response_of_bytes(data: Seq<u8>) -> Result<RtspResponse, FormatError> {
    if valid_utf8(data) {
        spec_parse_response(decode_utf8(data))
    } else {
        Err(FormatError::NotText)
    }
}

/// The `Transport` line of a request, if it has one.
pub open spec fn spec_transport_line(transport: Option<Seq<char>>) -> Seq<char> {
    match transport {
        Some(value) => "Transport: "@ + value + "\r\n"@,
        None => Seq::empty(),
    }
}

/// The `Session` line of a request, if it has one.
pub open spec fn spec_session_line(session_id: Option<u32>) -> Seq<char> {
    match session_id {
        Some(id) => "Session: "@ + spec_decimal(id as nat) + "\r\n"@,
        None => Seq::empty(),
    }
}

/// The text of a request: the request line, the `Sequence` header, the
/// `Transport` and `Session` headers where the request has them, and an
/// empty line. The transport value is written as it is; the client port is
/// not written apart from it.
pub open spec fn spec_format_request(r: RequestView) -> Seq<char> {
    spec_method_name(r.request_type) + " "@ + r.filename + " "@ + RTSP_VERSION@ + "\r\n"@
        + "Sequence: "@ + spec_decimal(r.cseq as nat) + "\r\n"@ + spec_transport_line(
        r.transport,
    ) + spec_session_line(r.session_id) + "\r\n"@
}

/// The text of a response: the status line with the given reason, the
/// `Sequence` and `Session` headers, and an empty line.
pub open spec fn spec_format_response(r: RtspResponse, reason: Seq<char>) -> Seq<char> {
    RTSP_VERSION@ + " "@ + spec_decimal(r.status_code as nat) + " "@ + reason + "\r\n"@
        + "Sequence: "@ + spec_decimal(r.cseq as nat) + "\r\n"@ + "Session: "@ + spec_decimal(
        r.session_id as nat,
    ) + "\r\n"@ + "\r\n"@
}

/// `core::str::from_utf8`: the bytes as a string slice, if they are valid
/// UTF-8, and nothing otherwise. The string slice is made of the very
/// bytes that were given.
#[verifier::external_body]
fn text_of(data: &[u8]) -> (text: Option<&str>)
    ensures
        text is Some <==> valid_utf8(data@),
        text matches Some(s) ==> encode_utf8(s@) == data@,
{
    match core::str::from_utf8(data) {
        Ok(text) => Some(text),
        Err(_) => None,
    }
}

impl RequestType {
    /// The word that stands for the method on the wire.
    pub fn as_str(&self) -> (s: &'static str)
        ensures
            s@ == spec_method_name(*self),
    {
        match self {
            RequestType::Negotiate => "NEGOTIATE",
            RequestType::Start => "START",
            RequestType::Pause => "PAUSE",
            RequestType::Stop => "STOP",
        }
    }

    /// The method that a word stands for.
    pub fn from_word(word: &[char]) -> (m: Option<RequestType>)
        ensures
            m == spec_method(word@),
    {
        if equals(word, "NEGOTIATE") {
            Some(RequestType::Negotiate)
        } else if equals(word, "START") {
            Some(RequestType::Start)
        } else if equals(word, "PAUSE") {
            Some(RequestType::Pause)
        } else if equals(word, "STOP") {
            Some(RequestType::Stop)
        } else {
            None
        }
    }
}

/// Looks up the header called `name` among `lines[from..to]`.
fn lookup<'a>(lines: &Vec<&'a [char]>, from: usize, to: usize, name: &str) -> (found: Option<
    &'a [char],
>)
    requires
        from <= to <= lines@.len(),
    ensures
        found matches Some(value) ==> spec_lookup(
            slices_view(lines@).subrange(from as int, to as int),
            name@,
        ) == Some(value@),
        found is None ==> spec_lookup(
            slices_view(lines@).subrange(from as int, to as int),
            name@,
        ) is None,
{
    let ghost all = slices_view(lines@);
    let mut found: Option<&'a [char]> = None;
    let mut i: usize = from;
    while i < to
        invariant
            from <= i <= to <= lines@.len(),
            all == slices_view(lines@),
            found matches Some(value) ==> spec_lookup(all.subrange(from as int, i as int), name@)
                == Some(value@),
            found is None ==> spec_lookup(all.subrange(from as int, i as int), name@) is None,
        decreases to - i,
    {
        let line = lines[i];
        let ghost seen = all.subrange(from as int, i + 1);
        proof {
            assert(seen.drop_last() =~= all.subrange(from as int, i as int));
            assert(seen.last() == line@);
        }
        let colon = find_from(line, 0, ':');
        assert(line@.skip(0) =~= line@);
        if colon < line.len() {
            let key = trim(slice_subrange(line, 0, colon));
            assert(line@.subrange(0, colon as int) =~= line@.take(colon as int));
            if equals_ignoring_case(key, name) {
                let value = trim(slice_subrange(line, colon + 1, line.len()));
                assert(line@.subrange(colon + 1, line@.len() as int) =~= line@.skip(colon + 1));
                found = Some(value);
            }
        }
        i = i + 1;
    }
    found
}

/// Finds the client port among the parameters of a `Transport` value.
fn client_port(transport: &[char]) -> (r: Result<Option<u16>, FormatError>)
    ensures
        r == spec_client_port(transport@),
{
    let params = split(transport, ';');
    let ghost all = slices_view(params@);
    let mut i: usize = 0;
    assert(all.skip(0) =~= all);
    while i < params.len()
        invariant
            i <= params@.len(),
            all == slices_view(params@),
            spec_port_text(all) == spec_port_text(all.skip(i as int)),
            all == spec_split(transport@, ';'),
        decreases params@.len() - i,
    {
        let param = trim(params[i]);
        let ghost rest = all.skip(i as int);
        assert(rest[0] == params@[i as int]@);
        if starts_with(param, "client_port=") {
            let prefix_len = "client_port=".unicode_len();
            let text = trim(slice_subrange(param, prefix_len, param.len()));
            assert(param@.subrange(prefix_len as int, param@.len() as int) =~= param@.skip(
                prefix_len as int,
            ));
            return match parse_u16(text) {
                Some(port) => Ok(Some(port)),
                None => Err(FormatError::InvalidNumber),
            };
        }
        assert(rest.drop_first() =~= all.skip(i + 1));
        i = i + 1;
    }
    assert(all.skip(i as int) =~= Seq::<Seq<char>>::empty());
    Ok(None)
}

impl RtspRequest {
    /// Reads a request from the text of a control message.
    ///
    /// The result is exactly [`spec_parse_request`] of the text: the request
    /// it describes, or the first reason why the text is not a request.
    pub fn parse(data: &str) -> (r: Result<RtspRequest, FormatError>)
        ensures
            parsed_request_view(r) == spec_parse_request(data@),
    {
        let chars = to_chars(data);
        let lines = split_lines(chars.as_slice());
        if lines.len() == 0 {
            return Err(FormatError::Empty);
        }
        let words = split_words(lines[0]);
        assert(slices_view(lines@)[0] == lines@[0]@);
        if words.len() < 3 {
            return Err(FormatError::MissingToken);
        }
        assert(slices_view(words@)[0] == words@[0]@);
        assert(slices_view(words@)[1] == words@[1]@);
        let request_type = match RequestType::from_word(words[0]) {
            Some(method) => method,
            None => {
                return Err(FormatError::UnknownMethod);
            },
        };
        let ghost rest = slices_view(lines@).skip(1);
        let mut end: usize = 1;
        while end < lines.len() && lines[end].len() != 0
            invariant
                1 <= end <= lines@.len(),
                rest == slices_view(lines@).skip(1),
                forall|i: int| 0 <= i < end - 1 ==> rest[i].len() != 0,
            decreases lines@.len() - end,
        {
            assert(rest[end - 1] == lines@[end as int]@);
            end = end + 1;
        }
        proof {
            if end < lines@.len() {
                assert(rest[end - 1] == lines@[end as int]@);
            }
            lemma_first_empty_is(rest, (end - 1) as nat);
            assert(slices_view(lines@).subrange(1, end as int) =~= spec_request_headers(
                slices_view(lines@),
            ));
        }
        let cseq = match lookup(&lines, 1, end, "sequence") {
            None => {
                return Err(FormatError::MissingSequence);
            },
            Some(text) => match parse_u32(text) {
                Some(n) => n,
                None => {
                    return Err(FormatError::InvalidNumber);
                },
            },
        };
        let session_id = match lookup(&lines, 1, end, "session") {
            None => None,
            Some(text) => match parse_u32(text) {
                Some(id) => Some(id),
                None => {
                    return Err(FormatError::InvalidNumber);
                },
            },
        };
        let (transport, port) = match lookup(&lines, 1, end, "transport") {
            None => (None, None),
            Some(value) => match client_port(value) {
                Ok(port) => (Some(to_string(value)), port),
                Err(e) => {
                    return Err(e);
                },
            },
        };
        Ok(
            RtspRequest {
                request_type,
                filename: to_string(words[1]),
                cseq,
                transport,
                client_port: port,
                session_id,
            },
        )
    }

    /// Reads a request from the bytes of a control message.
    pub fn from_bytes(data: &[u8]) -> (r: Result<RtspRequest, FormatError>)
        ensures
            parsed_request_view(r) == spec_request_of_bytes(data@),
    {
        match text_of(data) {
            Some(text) => {
                proof {
                    encode_utf8_decode_utf8(text@);
                }
                RtspRequest::parse(text)
            },
            None => Err(FormatError::NotText),
        }
    }

    /// The request a client writes for `method`.
    ///
    /// `port` is used for `NEGOTIATE` only, `session_id` for the other
    /// methods only.
    pub fn new(method: RequestType, resource: String, cseq: u32, port: u16, session_id: u32) -> (r:
        RtspRequest)
        ensures
            r@ == spec_request(method, resource@, cseq, port, session_id),
    {
        match method {
            RequestType::Negotiate => {
                let mut transport = String::new();
                transport.append("RTP/UDP; client_port=");
                push_decimal(&mut transport, port as u32);
                RtspRequest {
                    request_type: method,
                    filename: resource,
                    cseq,
                    transport: Some(transport),
                    client_port: Some(port),
                    session_id: None,
                }
            },
            _ => RtspRequest {
                request_type: method,
                filename: resource,
                cseq,
                transport: None,
                client_port: None,
                session_id: Some(session_id),
            },
        }
    }

    /// Writes the request as the text of a control message.
    pub fn format(&self) -> (s: String)
        ensures
            s@ == spec_format_request(self@),
    {
        let mut s = String::new();
        s.append(self.request_type.as_str());
        s.append(" ");
        s.append(self.filename.as_str());
        s.append(" ");
        s.append(RTSP_VERSION);
        s.append("\r\n");
        s.append("Sequence: ");
        push_decimal(&mut s, self.cseq);
        s.append("\r\n");
        match &self.transport {
            Some(value) => {
                s.append("Transport: ");
                s.append(value.as_str());
                s.append("\r\n");
            },
            None => {},
        }
        match self.session_id {
            Some(id) => {
                s.append("Session: ");
                push_decimal(&mut s, id);
                s.append("\r\n");
            },
            None => {},
        }
        s.append("\r\n");
        proof {
            let head = spec_method_name(self@.request_type) + " "@ + self@.filename + " "@
                + RTSP_VERSION@ + "\r\n"@ + "Sequence: "@ + spec_decimal(self@.cseq as nat)
                + "\r\n"@;
            let transport = spec_transport_line(self@.transport);
            let session = spec_session_line(self@.session_id);
            assert(head + "Transport: "@ + self@.transport->Some_0 + "\r\n"@ =~= head + (
            "Transport: "@ + self@.transport->Some_0 + "\r\n"@));
            assert(head + Seq::<char>::empty() =~= head);
            assert(head + transport + "Session: "@ + spec_decimal(
                self@.session_id->Some_0 as nat,
            ) + "\r\n"@ =~= head + transport + ("Session: "@ + spec_decimal(
                self@.session_id->Some_0 as nat,
            ) + "\r\n"@));
            assert(head + transport + Seq::<char>::empty() =~= head + transport);
        }
        s
    }
}

impl RtspResponse {
    /// Reads a response from the text of a control message.
    ///
    /// The result is exactly [`spec_parse_response`] of the text: the
    /// response it describes, or the first reason why the text is not a
    /// response.
    pub fn parse(data: &str) -> (r: Result<RtspResponse, FormatError>)
        ensures
            r == spec_parse_response(data@),
    {
        let chars = to_chars(data);
        let lines = split_lines(chars.as_slice());
        if lines.len() == 0 {
            return Err(FormatError::Empty);
        }
        let words = split_words(lines[0]);
        assert(slices_view(lines@)[0] == lines@[0]@);
        if words.len() < 2 {
            return Err(FormatError::MissingStatus);
        }
        assert(slices_view(words@)[1] == words@[1]@);
        let status_code = match parse_u16(words[1]) {
            Some(code) => code,
            None => {
                return Err(FormatError::InvalidNumber);
            },
        };
        assert(slices_view(lines@).subrange(1, lines@.len() as int) =~= slices_view(
            lines@,
        ).skip(1));
        let cseq = match lookup(&lines, 1, lines.len(), "sequence") {
            None => {
                return Err(FormatError::MissingSequence);
            },
            Some(text) => match parse_u32(text) {
                Some(n) => n,
                None => {
                    return Err(FormatError::InvalidNumber);
                },
            },
        };
        let session_id = match lookup(&lines, 1, lines.len(), "session") {
            None => {
                return Err(FormatError::MissingSession);
            },
            Some(text) => match parse_u32(text) {
                Some(id) => id,
                None => {
                    return Err(FormatError::InvalidNumber);
                },
            },
        };
        Ok(RtspResponse { status_code, cseq, session_id })
    }

    /// Reads a response from the bytes of a control message.
    pub fn from_bytes(data: &[u8]) -> (r: Result<RtspResponse, FormatError>)
        ensures
            r == spec_response_of_bytes(data@),
    {
        match text_of(data) {
            Some(text) => {
                proof {
                    encode_utf8_decode_utf8(text@);
                }
                RtspResponse::parse(text)
            },
            None => Err(FormatError::NotText),
        }
    }

    /// Writes the response as the text of a control message, with `reason`
    /// after the status code.
    pub fn format(&self, reason: &str) -> (s: String)
        ensures
            s@ == spec_format_response(*self, reason@),
    {
        let mut s = String::new();
        s.append(RTSP_VERSION);
        s.append(" ");
        push_decimal(&mut s, self.status_code as u32);
        s.append(" ");
        s.append(reason);
        s.append("\r\n");
        s.append("Sequence: ");
        push_decimal(&mut s, self.cseq);
        s.append("\r\n");
        s.append("Session: ");
        push_decimal(&mut s, self.session_id);
        s.append("\r\n");
        s.append("\r\n");
        s
    }
}

/// Any index up to which no line is empty and at which the lines end or an
/// empty line stands is `first_empty(lines)`.
pub proof fn lemma_first_empty_is(lines: Seq<Seq<char>>, n: nat)
    requires
        n <= lines.len(),
        forall|i: int| 0 <= i < n ==> lines[i].len() != 0,
        n < lines.len() ==> lines[n as int].len() == 0,
    ensures
        first_empty(lines) == n,
    decreases lines.len(),
{
    if lines.len() == 0 || lines[0].len() == 0 {
    } else {
        let rest = lines.drop_first();
        assert forall|i: int| 0 <= i < n - 1 implies rest[i].len() != 0 by {
            assert(rest[i] == lines[i + 1]);
        }
        lemma_first_empty_is(rest, (n - 1) as nat);
    }
}

} // verus!
