//! The session state machine, and the decisions a server takes for one
//! control connection.
//!
//! A session is `Idle`, `Negotiated` or `Streaming`. [`spec_next_state`] is
//! the table of moves that both ends of a connection follow.
//! [`ServerSession`] holds a server's view of one connection: it validates
//! each request against the table and the session identifier, and answers
//! with the reply to send and what to do with the media task. It never
//! touches a socket; the connection worker around it does.

use crate::rtsp::{
    spec_format_response, spec_request_of_bytes, RequestType, RequestView, RtspRequest,
    RtspResponse,
};
use rand::Rng;
use vstd::prelude::*;

verus! {

/// Status of a reply to a request that was carried out.
pub const STATUS_OK: u16 = 200;

/// Status of a reply to a message that is not a request.
pub const STATUS_BAD_REQUEST: u16 = 400;

/// Status of a reply to a request for a resource that does not exist.
pub const STATUS_NOT_FOUND: u16 = 404;

/// Status of a reply to a request that the session does not allow.
pub const STATUS_SERVER_ERROR: u16 = 500;

/// Smallest session identifier a server hands out.
pub const SESSION_ID_MIN: u32 = 100000;

/// Largest session identifier a server hands out.
pub const SESSION_ID_MAX: u32 = 999999;

/// The lifecycle of a session, as both ends of a control connection see it.
#[derive(Debug, PartialEq, Eq, Clone, Copy, Structural)]
pub enum ClientState {
    /// No session.
    Idle,
    /// A session exists; no media is flowing.
    Negotiated,
    /// A session exists and media is flowing.
    Streaming,
}

/// Why a well-formed request was not carried out.
#[derive(Debug, PartialEq, Eq, Clone, Copy, Structural)]
pub enum Rejection {
    /// The method is not allowed in the session's state.
    InvalidState,
    /// The request names no session, or another one.
    SessionMismatch,
    /// The session was negotiated without a port to send media to.
    MissingPort,
    /// The resource to negotiate does not exist.
    NotFound,
}

/// What the owner of a session must do with its media task.
#[derive(Debug, PartialEq, Eq, Clone, Copy, Structural)]
pub enum MediaCommand {
    /// Leave things as they are.
    Nothing,
    /// Start a media task for the given port.
    Start { port: u16 },
    /// Signal the running media task to stop.
    Cancel,
}

/// What a server does in answer to a request: the reply to send, and what
/// to do with the media task. A task is started only after the reply is
/// sent, and cancelled before.
#[derive(Debug, PartialEq, Eq, Clone, Copy, Structural)]
pub struct ServerStep {
    pub reply: RtspResponse,
    pub media: MediaCommand,
}

/// What a server makes of a message it has read from the connection.
#[derive(Debug)]
pub enum Received {
    /// The message is dealt with: this is the answer.
    Answer(ServerStep),
    /// The message asks to negotiate a resource. Whether the resource exists
    /// decides the answer: see [`ServerSession::handle_request`].
    Probe(RtspRequest),
}

/// A server's view of one control connection.
pub struct ServerSession {
    state: ClientState,
    session_id: u32,
    dest_port: Option<u16>,
    position: u32,
}

/// The mathematical value of a [`ServerSession`].
///
/// `position` is the number of frames of the resource that have been sent
/// in this session: where the media task goes on when it is started again.
pub ghost struct SessionView {
    pub state: ClientState,
    pub session_id: u32,
    pub dest_port: Option<u16>,
    pub position: u32,
}

impl SessionView {
    /// Without a session there is no identifier, no port and no position;
    /// where media flows, there is a port for it to flow to.
    pub open spec fn well_formed(self) -> bool {
        &&& self.state == ClientState::Idle ==> self.session_id == 0 && self.dest_port is None
            && self.position == 0
        &&& self.state == ClientState::Streaming ==> self.dest_port is Some
    }

    /// Whether a media task runs for the session.
    pub open spec fn media_active(self) -> bool {
        self.state == ClientState::Streaming
    }
}

/// The state after `method` is carried out in `state`, or nothing if the
/// method is not allowed there.
pub open spec fn spec_next_state(state: ClientState, method: RequestType) -> Option<ClientState> {
    match (method, state) {
        (RequestType::Negotiate, ClientState::Idle) => Some(ClientState::Negotiated),
        (RequestType::Start, ClientState::Negotiated) => Some(ClientState::Streaming),
        (RequestType::Pause, ClientState::Streaming) => Some(ClientState::Negotiated),
        (RequestType::Stop, ClientState::Negotiated) => Some(ClientState::Idle),
        (RequestType::Stop, ClientState::Streaming) => Some(ClientState::Idle),
        _ => None,
    }
}

/// The session without a session: what a connection starts with and what
/// `STOP` leaves.
pub open spec fn spec_idle() -> SessionView {
    SessionView { state: ClientState::Idle, session_id: 0, dest_port: None, position: 0 }
}

/// What a request does to a session.
///
/// The state is checked first, then the session identifier, which every
/// method but `NEGOTIATE` must name. `NEGOTIATE` needs the resource to
/// exist, and records `fresh_id` and the client's port; the new session
/// stands at the start of the resource. `START` needs a recorded port.
/// `START` and `PAUSE` leave the position alone, so that a stream that was
/// paused goes on where it stopped. A request that is rejected leaves the
/// session as it is.
pub open spec fn spec_apply(
    session: SessionView,
    request: RequestView,
    resource_found: bool,
    fresh_id: u32,
) -> Result<(SessionView, MediaCommand), Rejection> {
    let next = spec_next_state(session.state, request.request_type);
    if next is None {
        Err(Rejection::InvalidState)
    } else if request.request_type == RequestType::Negotiate {
        if resource_found {
            Ok(
                (
                    SessionView {
                        state: ClientState::Negotiated,
                        session_id: fresh_id,
                        dest_port: request.client_port,
                        position: 0,
                    },
                    MediaCommand::Nothing,
                ),
            )
        } else {
            Err(Rejection::NotFound)
        }
    } else if request.session_id != Some(session.session_id) {
        Err(Rejection::SessionMismatch)
    } else {
        match request.request_type {
            RequestType::Start => match session.dest_port {
                Some(port) => Ok(
                    (
                        SessionView { state: ClientState::Streaming, ..session },
                        MediaCommand::Start { port },
                    ),
                ),
                None => Err(Rejection::MissingPort),
            },
            RequestType::Pause => Ok(
                (SessionView { state: ClientState::Negotiated, ..session }, MediaCommand::Cancel),
            ),
            _ => Ok(
                (
                    spec_idle(),
                    if session.media_active() {
                        MediaCommand::Cancel
                    } else {
                        MediaCommand::Nothing
                    },
                ),
            ),
        }
    }
}

/// The session after its media task has reported how many frames of the
/// resource have been sent. Without a session there is nothing to record.
pub open spec fn spec_record_position(session: SessionView, frames_sent: u32) -> SessionView {
    if session.state == ClientState::Idle {
        session
    } else {
        SessionView { position: frames_sent, ..session }
    }
}

/// The status that tells a client of a rejection.
pub open spec fn spec_status_of(rejection: Rejection) -> u16 {
    match rejection {
        Rejection::NotFound => STATUS_NOT_FOUND,
        _ => STATUS_SERVER_ERROR,
    }
}

/// The session after a request, and the server's answer to it.
///
/// The reply carries the sequence number of the request. It names the
/// session the request was about: the new one after `NEGOTIATE`, the one
/// stopped after `STOP`, and the current one, or 0 for none, otherwise.
pub open spec fn spec_respond(
    session: SessionView,
    request: RequestView,
    resource_found: bool,
    fresh_id: u32,
) -> (SessionView, ServerStep) {
    match spec_apply(session, request, resource_found, fresh_id) {
        Ok((after, media)) => (
            after,
            ServerStep {
                reply: RtspResponse {
                    status_code: STATUS_OK,
                    cseq: request.cseq,
                    session_id: if request.request_type == RequestType::Stop {
                        session.session_id
                    } else {
                        after.session_id
                    },
                },
                media,
            },
        ),
        Err(rejection) => (
            session,
            ServerStep {
                reply: RtspResponse {
                    status_code: spec_status_of(rejection),
                    cseq: request.cseq,
                    session_id: session.session_id,
                },
                media: MediaCommand::Nothing,
            },
        ),
    }
}

/// The answer to a message that is not a request: status 400, sequence
/// number 0, the current session.
pub open spec fn spec_malformed(session: SessionView) -> ServerStep {
    ServerStep {
        reply: RtspResponse {
            status_code: STATUS_BAD_REQUEST,
            cseq: 0,
            session_id: session.session_id,
        },
        media: MediaCommand::Nothing,
    }
}

/// Whether the answer to a request depends on the resource it names: only
/// for `NEGOTIATE` without a session.
pub open spec fn spec_needs_resource(session: SessionView, request: RequestView) -> bool {
    request.request_type == RequestType::Negotiate && session.state == ClientState::Idle
}

/// Whether `received` and `after` are what a server in state `before` makes
/// of the bytes `data`.
pub open spec fn spec_received(
    before: SessionView,
    data: Seq<u8>,
    after: SessionView,
    received: Received,
) -> bool {
    match spec_request_of_bytes(data) {
        Err(_) => {
            &&& received is Answer
            &&& received->Answer_0 == spec_malformed(before)
            &&& after == before
        },
        Ok(request) => if spec_needs_resource(before, request) {
            &&& received is Probe
            &&& received->Probe_0@ == request
            &&& after == before
        } else {
            &&& received is Answer
            &&& (after, received->Answer_0) == spec_respond(before, request, false, 0)
        },
    }
}

/// The words that go with a status code on the status line.
pub open spec fn spec_reason_phrase(status_code: u16) -> Seq<char> {
    if status_code == STATUS_OK {
        "OK"@
    } else if status_code == STATUS_BAD_REQUEST {
        "Bad Request"@
    } else if status_code == STATUS_NOT_FOUND {
        "File Not Found"@
    } else if status_code == STATUS_SERVER_ERROR {
        "Connection error"@
    } else {
        "Unknown"@
    }
}

/// `Rng::gen_range` on the thread's generator, with an inclusive range:
/// the result lies in the range, whatever it is.
#[verifier::external_body]
fn random_in_range(low: u32, high: u32) -> (n: u32)
    requires
        low <= high,
    ensures
        low <= n <= high,
{
    rand::thread_rng().gen_range(low..=high)
}

/// The words that go with a status code on the status line.
pub fn reason_phrase(status_code: u16) -> (reason: &'static str)
    ensures
        reason@ == spec_reason_phrase(status_code),
{
    if status_code == STATUS_OK {
        "OK"
    } else if status_code == STATUS_BAD_REQUEST {
        "Bad Request"
    } else if status_code == STATUS_NOT_FOUND {
        "File Not Found"
    } else if status_code == STATUS_SERVER_ERROR {
        "Connection error"
    } else {
        "Unknown"
    }
}

impl ClientState {
    /// The state after `method` is carried out, or nothing if the method is
    /// not allowed in this state.
    pub fn next(self, method: RequestType) -> (next: Option<ClientState>)
        ensures
            next == spec_next_state(self, method),
    {
        match method {
            RequestType::Negotiate => match self {
                ClientState::Idle => Some(ClientState::Negotiated),
                _ => None,
            },
            RequestType::Start => match self {
                ClientState::Negotiated => Some(ClientState::Streaming),
                _ => None,
            },
            RequestType::Pause => match self {
                ClientState::Streaming => Some(ClientState::Negotiated),
                _ => None,
            },
            RequestType::Stop => match self {
                ClientState::Idle => None,
                _ => Some(ClientState::Idle),
            },
        }
    }
}

impl Rejection {
    /// The status that tells a client of the rejection.
    pub fn status_code(self) -> (code: u16)
        ensures
            code == spec_status_of(self),
    {
        match self {
            Rejection::NotFound => STATUS_NOT_FOUND,
            _ => STATUS_SERVER_ERROR,
        }
    }
}

impl ServerStep {
    /// The reply as the text to send.
    pub fn reply_text(&self) -> (text: String)
        ensures
            text@ == spec_format_response(
                self.reply,
                spec_reason_phrase(self.reply.status_code),
            ),
    {
        self.reply.format(reason_phrase(self.reply.status_code))
    }
}

impl View for ServerSession {
    type V = SessionView;

    closed spec fn view(&self) -> SessionView {
        SessionView {
            state: self.state,
            session_id: self.session_id,
            dest_port: self.dest_port,
            position: self.position,
        }
    }
}

impl ServerSession {
    #[verifier::type_invariant]
    spec fn inv(self) -> bool {
        &&& self.state == ClientState::Idle ==> self.session_id == 0 && self.dest_port is None
            && self.position == 0
        &&& self.state == ClientState::Streaming ==> self.dest_port is Some
    }

    /// The session of a fresh connection: none.
    pub fn new() -> (session: ServerSession)
        ensures
            session@ == spec_idle(),
    {
        ServerSession { state: ClientState::Idle, session_id: 0, dest_port: None, position: 0 }
    }

    /// The state of the session.
    pub fn state(&self) -> (state: ClientState)
        ensures
            state == self@.state,
            self@.well_formed(),
    {
        proof {
            use_type_invariant(self);
        }
        self.state
    }

    /// The identifier of the session, or 0 if there is none.
    pub fn session_id(&self) -> (id: u32)
        ensures
            id == self@.session_id,
    {
        self.session_id
    }

    /// The port that media is sent to, if one was negotiated.
    pub fn dest_port(&self) -> (port: Option<u16>)
        ensures
            port == self@.dest_port,
    {
        self.dest_port
    }

    /// The number of frames of the resource that have been sent in this
    /// session.
    pub fn position(&self) -> (position: u32)
        ensures
            position == self@.position,
    {
        self.position
    }

    /// Records how many frames of the resource have been sent, as the media
    /// task reports when it stops.
    pub fn record_position(&mut self, frames_sent: u32)
        ensures
            final(self)@ == spec_record_position(old(self)@, frames_sent),
    {
        proof {
            use_type_invariant(&*self);
        }
        match self.state {
            ClientState::Idle => {},
            _ => {
                self.position = frames_sent;
            },
        }
    }

    /// Whether the answer to `request` depends on the resource it names.
    pub fn needs_resource(&self, request: &RtspRequest) -> (needed: bool)
        ensures
            needed == spec_needs_resource(self@, request@),
    {
        request.request_type == RequestType::Negotiate && self.state == ClientState::Idle
    }

    /// Validates a request and, if it is allowed, carries it out.
    ///
    /// `resource_found` says whether the resource that the request names
    /// exists; `fresh_id` is the identifier to give a new session. Both
    /// matter only where [`ServerSession::needs_resource`] holds.
    pub fn apply(&mut self, request: &RtspRequest, resource_found: bool, fresh_id: u32) -> (r:
        Result<MediaCommand, Rejection>)
        ensures
            spec_apply(old(self)@, request@, resource_found, fresh_id) matches Ok((after, media))
                ==> r == Ok::<MediaCommand, Rejection>(media) && final(self)@ == after,
            spec_apply(old(self)@, request@, resource_found, fresh_id) matches Err(rejection)
                ==> r == Err::<MediaCommand, Rejection>(rejection) && final(self)@ == old(self)@,
    {
        let next = match self.state.next(request.request_type) {
            Some(next) => next,
            None => {
                return Err(Rejection::InvalidState);
            },
        };
        match request.request_type {
            RequestType::Negotiate => {
                if !resource_found {
                    return Err(Rejection::NotFound);
                }
                *self = ServerSession {
                    state: next,
                    session_id: fresh_id,
                    dest_port: request.client_port,
                    position: 0,
                };
                Ok(MediaCommand::Nothing)
            },
            method => {
                match request.session_id {
                    Some(id) => {
                        if id != self.session_id {
                            return Err(Rejection::SessionMismatch);
                        }
                    },
                    None => {
                        return Err(Rejection::SessionMismatch);
                    },
                }
                match method {
                    RequestType::Start => match self.dest_port {
                        Some(port) => {
                            self.state = next;
                            Ok(MediaCommand::Start { port })
                        },
                        None => Err(Rejection::MissingPort),
                    },
                    RequestType::Pause => {
                        self.state = next;
                        Ok(MediaCommand::Cancel)
                    },
                    _ => Ok(self.release()),
                }
            },
        }
    }

    /// Validates a request, carries it out if it is allowed, and says how to
    /// answer it.
    pub fn respond(&mut self, request: &RtspRequest, resource_found: bool, fresh_id: u32) -> (step:
        ServerStep)
        ensures
            (final(self)@, step) == spec_respond(old(self)@, request@, resource_found, fresh_id),
    {
        let before = self.session_id;
        match self.apply(request, resource_found, fresh_id) {
            Ok(media) => {
                let session_id = match request.request_type {
                    RequestType::Stop => before,
                    _ => self.session_id,
                };
                ServerStep {
                    reply: RtspResponse { status_code: STATUS_OK, cseq: request.cseq, session_id },
                    media,
                }
            },
            Err(rejection) => ServerStep {
                reply: RtspResponse {
                    status_code: rejection.status_code(),
                    cseq: request.cseq,
                    session_id: before,
                },
                media: MediaCommand::Nothing,
            },
        }
    }

    /// Answers a request, drawing the identifier of a new session at random
    /// between [`SESSION_ID_MIN`] and [`SESSION_ID_MAX`].
    ///
    /// The outcome is that of [`ServerSession::respond`] with some
    /// identifier in that range.
    pub fn handle_request(&mut self, request: &RtspRequest, resource_found: bool) -> (step:
        ServerStep)
        ensures
            exists|fresh_id: u32|
                SESSION_ID_MIN <= fresh_id <= SESSION_ID_MAX && (final(self)@, step)
                    == #[trigger] spec_respond(old(self)@, request@, resource_found, fresh_id),
    {
        let fresh_id = random_in_range(SESSION_ID_MIN, SESSION_ID_MAX);
        self.respond(request, resource_found, fresh_id)
    }

    /// The answer to a message that is not a request.
    pub fn malformed(&self) -> (step: ServerStep)
        ensures
            step == spec_malformed(self@),
    {
        ServerStep {
            reply: RtspResponse {
                status_code: STATUS_BAD_REQUEST,
                cseq: 0,
                session_id: self.session_id,
            },
            media: MediaCommand::Nothing,
        }
    }

    /// Deals with a message read from the connection.
    ///
    /// Bytes that are not a request are answered with status 400. A request
    /// whose answer depends on the resource is handed back, the session
    /// untouched, for the caller to look for the resource and call
    /// [`ServerSession::handle_request`]. Every other request is validated,
    /// carried out and answered.
    pub fn receive(&mut self, data: &[u8]) -> (received: Received)
        ensures
            spec_received(old(self)@, data@, final(self)@, received),
    {
        match RtspRequest::from_bytes(data) {
            Err(_) => Received::Answer(self.malformed()),
            Ok(request) => {
                if self.needs_resource(&request) {
                    Received::Probe(request)
                } else {
                    Received::Answer(self.respond(&request, false, 0))
                }
            },
        }
    }

    /// Ends the session because the connection is lost: the media task, if
    /// one runs, is to be cancelled, and no session is left.
    pub fn disconnect(&mut self) -> (media: MediaCommand)
        ensures
            final(self)@ == spec_idle(),
            media == if old(self)@.media_active() {
                MediaCommand::Cancel
            } else {
                MediaCommand::Nothing
            },
    {
        self.release()
    }

    fn release(&mut self) -> (media: MediaCommand)
        ensures
            final(self)@ == spec_idle(),
            media == if old(self)@.media_active() {
                MediaCommand::Cancel
            } else {
                MediaCommand::Nothing
            },
    {
        let media = match self.state {
            ClientState::Streaming => MediaCommand::Cancel,
            _ => MediaCommand::Nothing,
        };
        *self = ServerSession {
            state: ClientState::Idle,
            session_id: 0,
            dest_port: None,
            position: 0,
        };
        media
    }
}

/// `NEGOTIATE` succeeds without a session, if the resource exists, and
/// yields `Negotiated` with the fresh identifier and the client's port. With
/// a session it fails, whatever else holds.
pub proof fn lemma_negotiate(
    session: SessionView,
    request: RequestView,
    resource_found: bool,
    fresh_id: u32,
)
    requires
        request.request_type == RequestType::Negotiate,
    ensures
        session.state == ClientState::Idle && resource_found ==> spec_apply(
            session,
            request,
            resource_found,
            fresh_id,
        ) == Ok::<(SessionView, MediaCommand), Rejection>(
            (
                SessionView {
                    state: ClientState::Negotiated,
                    session_id: fresh_id,
                    dest_port: request.client_port,
                    position: 0,
                },
                MediaCommand::Nothing,
            ),
        ),
        session.state == ClientState::Idle && !resource_found ==> spec_apply(
            session,
            request,
            resource_found,
            fresh_id,
        ) == Err::<(SessionView, MediaCommand), Rejection>(Rejection::NotFound),
        session.state != ClientState::Idle ==> spec_apply(
            session,
            request,
            resource_found,
            fresh_id,
        ) == Err::<(SessionView, MediaCommand), Rejection>(Rejection::InvalidState),
{
}

/// `START` succeeds in `Negotiated` with the session's identifier and a
/// recorded port, and yields `Streaming`. With another identifier, or none,
/// it fails.
pub proof fn lemma_start(
    session: SessionView,
    request: RequestView,
    resource_found: bool,
    fresh_id: u32,
)
    requires
        request.request_type == RequestType::Start,
    ensures
        session.state == ClientState::Negotiated && request.session_id == Some(session.session_id)
            && session.dest_port is Some ==> spec_apply(
            session,
            request,
            resource_found,
            fresh_id,
        ) == Ok::<(SessionView, MediaCommand), Rejection>(
            (
                SessionView { state: ClientState::Streaming, ..session },
                MediaCommand::Start { port: session.dest_port->Some_0 },
            ),
        ),
        session.state == ClientState::Negotiated && request.session_id != Some(session.session_id)
            ==> spec_apply(session, request, resource_found, fresh_id) == Err::<
            (SessionView, MediaCommand),
            Rejection,
        >(Rejection::SessionMismatch),
        session.state != ClientState::Negotiated ==> spec_apply(
            session,
            request,
            resource_found,
            fresh_id,
        ) == Err::<(SessionView, MediaCommand), Rejection>(Rejection::InvalidState),
{
}

/// `PAUSE` succeeds in `Streaming` with the session's identifier: the media
/// task is cancelled and the session is `Negotiated` again. Anywhere else,
/// or with another identifier, it fails.
pub proof fn lemma_pause(
    session: SessionView,
    request: RequestView,
    resource_found: bool,
    fresh_id: u32,
)
    requires
        request.request_type == RequestType::Pause,
    ensures
        session.state == ClientState::Streaming && request.session_id == Some(session.session_id)
            ==> spec_apply(session, request, resource_found, fresh_id) == Ok::<
            (SessionView, MediaCommand),
            Rejection,
        >((SessionView { state: ClientState::Negotiated, ..session }, MediaCommand::Cancel)),
        session.state == ClientState::Streaming && request.session_id != Some(session.session_id)
            ==> spec_apply(session, request, resource_found, fresh_id) == Err::<
            (SessionView, MediaCommand),
            Rejection,
        >(Rejection::SessionMismatch),
        session.state != ClientState::Streaming ==> spec_apply(
            session,
            request,
            resource_found,
            fresh_id,
        ) == Err::<(SessionView, MediaCommand), Rejection>(Rejection::InvalidState),
{
}

/// `STOP` succeeds in `Negotiated` and in `Streaming` with the session's
/// identifier: no session is left, and the media task is cancelled if one
/// ran. Without a session, or with another identifier, it fails.
pub proof fn lemma_stop(
    session: SessionView,
    request: RequestView,
    resource_found: bool,
    fresh_id: u32,
)
    requires
        request.request_type == RequestType::Stop,
    ensures
        session.state != ClientState::Idle && request.session_id == Some(session.session_id)
            ==> spec_apply(session, request, resource_found, fresh_id) == Ok::<
            (SessionView, MediaCommand),
            Rejection,
        >(
            (
                spec_idle(),
                if session.state == ClientState::Streaming {
                    MediaCommand::Cancel
                } else {
                    MediaCommand::Nothing
                },
            ),
        ),
        session.state != ClientState::Idle && request.session_id != Some(session.session_id)
            ==> spec_apply(session, request, resource_found, fresh_id) == Err::<
            (SessionView, MediaCommand),
            Rejection,
        >(Rejection::SessionMismatch),
        session.state == ClientState::Idle ==> spec_apply(
            session,
            request,
            resource_found,
            fresh_id,
        ) == Err::<(SessionView, MediaCommand), Rejection>(Rejection::InvalidState),
{
}

/// A request that is rejected changes nothing, and a request that is carried
/// out moves the state as [`spec_next_state`] says.
pub proof fn lemma_apply_follows_table(
    session: SessionView,
    request: RequestView,
    resource_found: bool,
    fresh_id: u32,
)
    ensures
        spec_respond(session, request, resource_found, fresh_id).1.reply.status_code != STATUS_OK
            ==> spec_respond(session, request, resource_found, fresh_id).0 == session,
        spec_apply(session, request, resource_found, fresh_id) matches Ok((after, _)) ==> Some(
            after.state,
        ) == spec_next_state(session.state, request.request_type),
{
}

/// The identifier, the port and the position of a session stay the same
/// from the moment it is negotiated until it is stopped, however often media
/// is started and paused: a stream that was paused goes on where it stopped.
pub proof fn lemma_session_is_stable(
    session: SessionView,
    request: RequestView,
    resource_found: bool,
    fresh_id: u32,
)
    requires
        request.request_type == RequestType::Start || request.request_type == RequestType::Pause,
    ensures
        spec_respond(session, request, resource_found, fresh_id).0.session_id
            == session.session_id,
        spec_respond(session, request, resource_found, fresh_id).0.dest_port == session.dest_port,
        spec_respond(session, request, resource_found, fresh_id).0.position == session.position,
{
}

/// Recording a position changes nothing else, and keeps sessions well
/// formed.
pub proof fn lemma_record_position(session: SessionView, frames_sent: u32)
    requires
        session.well_formed(),
    ensures
        spec_record_position(session, frames_sent).well_formed(),
        spec_record_position(session, frames_sent).state == session.state,
        spec_record_position(session, frames_sent).session_id == session.session_id,
        spec_record_position(session, frames_sent).dest_port == session.dest_port,
        session.state != ClientState::Idle ==> spec_record_position(session, frames_sent).position
            == frames_sent,
{
}

/// A session never has two media tasks: a task is started exactly when
/// none runs before the request and one runs after it, and cancelled exactly
/// when one runs before and none after.
pub proof fn lemma_one_media_task(
    session: SessionView,
    request: RequestView,
    resource_found: bool,
    fresh_id: u32,
)
    ensures
        ({
            let (after, step) = spec_respond(session, request, resource_found, fresh_id);
            &&& step.media is Start <==> !session.media_active() && after.media_active()
            &&& step.media is Cancel <==> session.media_active() && !after.media_active()
            &&& step.media matches MediaCommand::Start { port } ==> after.dest_port == Some(port)
        }),
{
}

/// Every reply to a request carries the sequence number of the request, and
/// its status is 200 exactly when the request was carried out.
pub proof fn lemma_reply_answers_request(
    session: SessionView,
    request: RequestView,
    resource_found: bool,
    fresh_id: u32,
)
    ensures
        spec_respond(session, request, resource_found, fresh_id).1.reply.cseq == request.cseq,
        spec_respond(session, request, resource_found, fresh_id).1.reply.status_code == STATUS_OK
            <==> spec_apply(session, request, resource_found, fresh_id) is Ok,
{
}

/// Requests keep sessions well formed.
pub proof fn lemma_respond_keeps_well_formed(
    session: SessionView,
    request: RequestView,
    resource_found: bool,
    fresh_id: u32,
)
    requires
        session.well_formed(),
    ensures
        spec_respond(session, request, resource_found, fresh_id).0.well_formed(),
{
}

/// Where the answer does not depend on the resource, it does not depend on
/// the fresh identifier either.
pub proof fn lemma_answer_without_resource(
    session: SessionView,
    request: RequestView,
    resource_found: bool,
    fresh_id: u32,
)
    requires
        !spec_needs_resource(session, request),
    ensures
        spec_respond(session, request, resource_found, fresh_id) == spec_respond(
            session,
            request,
            false,
            0,
        ),
{
}

} // verus!
