use rtsp_video_streamer::rtsp::{RequestType, RtspRequest, RtspResponse};
use rtsp_video_streamer::session::{
    reason_phrase, ClientState, MediaCommand, Received, Rejection, ServerSession, ServerStep,
    SESSION_ID_MAX, SESSION_ID_MIN, STATUS_BAD_REQUEST, STATUS_NOT_FOUND, STATUS_OK,
    STATUS_SERVER_ERROR,
};

fn request(method: RequestType, cseq: u32, session_id: Option<u32>, port: Option<u16>) -> RtspRequest {
    RtspRequest {
        request_type: method,
        filename: "clip.bin".to_string(),
        cseq,
        transport: port.map(|p| format!("RTP/UDP; client_port={}", p)),
        client_port: port,
        session_id,
    }
}

fn negotiated(id: u32, port: Option<u16>) -> ServerSession {
    let mut session = ServerSession::new();
    let r = session.apply(&request(RequestType::Negotiate, 1, None, port), true, id);
    assert_eq!(r, Ok(MediaCommand::Nothing));
    session
}

fn streaming(id: u32, port: u16) -> ServerSession {
    let mut session = negotiated(id, Some(port));
    let r = session.apply(&request(RequestType::Start, 2, Some(id), None), false, 0);
    assert_eq!(r, Ok(MediaCommand::Start { port }));
    session
}

#[test]
fn next_state_table() {
    let idle = ClientState::Idle;
    let negotiated = ClientState::Negotiated;
    let streaming = ClientState::Streaming;
    assert_eq!(idle.next(RequestType::Negotiate), Some(negotiated));
    assert_eq!(negotiated.next(RequestType::Negotiate), None);
    assert_eq!(streaming.next(RequestType::Negotiate), None);
    assert_eq!(idle.next(RequestType::Start), None);
    assert_eq!(negotiated.next(RequestType::Start), Some(streaming));
    assert_eq!(streaming.next(RequestType::Start), None);
    assert_eq!(idle.next(RequestType::Pause), None);
    assert_eq!(negotiated.next(RequestType::Pause), None);
    assert_eq!(streaming.next(RequestType::Pause), Some(negotiated));
    assert_eq!(idle.next(RequestType::Stop), None);
    assert_eq!(negotiated.next(RequestType::Stop), Some(idle));
    assert_eq!(streaming.next(RequestType::Stop), Some(idle));
}

#[test]
fn new_session_is_idle() {
    let session = ServerSession::new();
    assert_eq!(session.state(), ClientState::Idle);
    assert_eq!(session.session_id(), 0);
    assert_eq!(session.dest_port(), None);
}

#[test]
fn negotiate_from_idle_succeeds() {
    let mut session = ServerSession::new();
    let r = session.apply(&request(RequestType::Negotiate, 1, None, Some(6000)), true, 424242);
    assert_eq!(r, Ok(MediaCommand::Nothing));
    assert_eq!(session.state(), ClientState::Negotiated);
    assert_eq!(session.session_id(), 424242);
    assert_eq!(session.dest_port(), Some(6000));
}

#[test]
fn negotiate_with_a_session_fails() {
    let mut session = negotiated(7, Some(6000));
    let r = session.apply(&request(RequestType::Negotiate, 2, None, Some(7000)), true, 8);
    assert_eq!(r, Err(Rejection::InvalidState));
    assert_eq!(session.state(), ClientState::Negotiated);
    assert_eq!(session.session_id(), 7);
    assert_eq!(session.dest_port(), Some(6000));
    let mut session = streaming(7, 6000);
    let r = session.apply(&request(RequestType::Negotiate, 3, None, Some(7000)), true, 8);
    assert_eq!(r, Err(Rejection::InvalidState));
    assert_eq!(session.state(), ClientState::Streaming);
    assert_eq!(session.session_id(), 7);
}

#[test]
fn negotiate_unknown_resource_is_not_found() {
    let mut session = ServerSession::new();
    let step = session.respond(&request(RequestType::Negotiate, 9, None, Some(6000)), false, 5);
    assert_eq!(
        step,
        ServerStep {
            reply: RtspResponse { status_code: STATUS_NOT_FOUND, cseq: 9, session_id: 0 },
            media: MediaCommand::Nothing,
        }
    );
    assert_eq!(session.state(), ClientState::Idle);
    assert_eq!(session.session_id(), 0);
}

#[test]
fn start_with_the_session_succeeds() {
    let mut session = negotiated(100001, Some(6000));
    let step = session.respond(&request(RequestType::Start, 2, Some(100001), None), false, 0);
    assert_eq!(
        step,
        ServerStep {
            reply: RtspResponse { status_code: STATUS_OK, cseq: 2, session_id: 100001 },
            media: MediaCommand::Start { port: 6000 },
        }
    );
    assert_eq!(session.state(), ClientState::Streaming);
}

#[test]
fn start_with_another_session_fails_and_changes_nothing() {
    for wrong in [Some(100002), Some(0), None] {
        let mut session = negotiated(100001, Some(6000));
        let step = session.respond(&request(RequestType::Start, 2, wrong, None), false, 0);
        assert_eq!(step.reply, RtspResponse { status_code: STATUS_SERVER_ERROR, cseq: 2, session_id: 100001 });
        assert_eq!(step.media, MediaCommand::Nothing);
        assert_eq!(session.state(), ClientState::Negotiated);
        assert_eq!(session.session_id(), 100001);
        assert_eq!(session.dest_port(), Some(6000));
    }
}

#[test]
fn start_without_a_port_is_rejected() {
    let mut session = negotiated(5, None);
    let r = session.apply(&request(RequestType::Start, 2, Some(5), None), false, 0);
    assert_eq!(r, Err(Rejection::MissingPort));
    assert_eq!(session.state(), ClientState::Negotiated);
}

#[test]
fn start_outside_negotiated_fails() {
    let mut session = ServerSession::new();
    assert_eq!(session.apply(&request(RequestType::Start, 1, Some(0), None), false, 0), Err(Rejection::InvalidState));
    let mut session = streaming(5, 6000);
    assert_eq!(session.apply(&request(RequestType::Start, 3, Some(5), None), false, 0), Err(Rejection::InvalidState));
    assert_eq!(session.state(), ClientState::Streaming);
}

#[test]
fn pause_cancels_and_keeps_the_session() {
    let mut session = streaming(31, 6000);
    let step = session.respond(&request(RequestType::Pause, 3, Some(31), None), false, 0);
    assert_eq!(
        step,
        ServerStep {
            reply: RtspResponse { status_code: STATUS_OK, cseq: 3, session_id: 31 },
            media: MediaCommand::Cancel,
        }
    );
    assert_eq!(session.state(), ClientState::Negotiated);
    assert_eq!(session.session_id(), 31);
    assert_eq!(session.dest_port(), Some(6000));
    let again = session.apply(&request(RequestType::Start, 4, Some(31), None), false, 0);
    assert_eq!(again, Ok(MediaCommand::Start { port: 6000 }));
    assert_eq!(session.session_id(), 31);
}

#[test]
fn pause_fails_elsewhere() {
    let mut session = negotiated(31, Some(6000));
    assert_eq!(session.apply(&request(RequestType::Pause, 3, Some(31), None), false, 0), Err(Rejection::InvalidState));
    let mut session = ServerSession::new();
    assert_eq!(session.apply(&request(RequestType::Pause, 3, Some(0), None), false, 0), Err(Rejection::InvalidState));
    let mut session = streaming(31, 6000);
    assert_eq!(session.apply(&request(RequestType::Pause, 3, Some(32), None), false, 0), Err(Rejection::SessionMismatch));
    assert_eq!(session.state(), ClientState::Streaming);
}

#[test]
fn stop_releases_the_session() {
    let mut session = negotiated(77, Some(6000));
    let step = session.respond(&request(RequestType::Stop, 5, Some(77), None), false, 0);
    assert_eq!(
        step,
        ServerStep {
            reply: RtspResponse { status_code: STATUS_OK, cseq: 5, session_id: 77 },
            media: MediaCommand::Nothing,
        }
    );
    assert_eq!(session.state(), ClientState::Idle);
    assert_eq!(session.session_id(), 0);
    assert_eq!(session.dest_port(), None);

    let mut session = streaming(78, 6000);
    let step = session.respond(&request(RequestType::Stop, 6, Some(78), None), false, 0);
    assert_eq!(step.reply, RtspResponse { status_code: STATUS_OK, cseq: 6, session_id: 78 });
    assert_eq!(step.media, MediaCommand::Cancel);
    assert_eq!(session.state(), ClientState::Idle);
}

#[test]
fn stop_fails_without_session_or_with_another() {
    let mut session = ServerSession::new();
    assert_eq!(session.apply(&request(RequestType::Stop, 1, Some(0), None), false, 0), Err(Rejection::InvalidState));
    let mut session = streaming(78, 6000);
    assert_eq!(session.apply(&request(RequestType::Stop, 1, Some(79), None), false, 0), Err(Rejection::SessionMismatch));
    assert_eq!(session.apply(&request(RequestType::Stop, 1, None, None), false, 0), Err(Rejection::SessionMismatch));
    assert_eq!(session.state(), ClientState::Streaming);
    assert_eq!(session.session_id(), 78);
}

#[test]
fn rejections_have_status_codes() {
    assert_eq!(Rejection::InvalidState.status_code(), 500);
    assert_eq!(Rejection::SessionMismatch.status_code(), 500);
    assert_eq!(Rejection::MissingPort.status_code(), 500);
    assert_eq!(Rejection::NotFound.status_code(), 404);
    assert_eq!((STATUS_OK, STATUS_BAD_REQUEST, STATUS_NOT_FOUND, STATUS_SERVER_ERROR), (200, 400, 404, 500));
}

#[test]
fn reason_phrases() {
    assert_eq!(reason_phrase(200), "OK");
    assert_eq!(reason_phrase(400), "Bad Request");
    assert_eq!(reason_phrase(404), "File Not Found");
    assert_eq!(reason_phrase(500), "Connection error");
    assert_eq!(reason_phrase(302), "Unknown");
}

#[test]
fn reply_text_is_a_response() {
    let step = ServerStep {
        reply: RtspResponse { status_code: 404, cseq: 3, session_id: 0 },
        media: MediaCommand::Nothing,
    };
    assert_eq!(step.reply_text(), "RTSP/1.0 404 File Not Found\r\nSequence: 3\r\nSession: 0\r\n\r\n");
}

#[test]
fn handle_request_draws_an_identifier_in_range() {
    for _ in 0..200 {
        let mut session = ServerSession::new();
        let step = session.handle_request(&request(RequestType::Negotiate, 1, None, Some(6000)), true);
        let id = session.session_id();
        assert!(SESSION_ID_MIN <= id && id <= SESSION_ID_MAX, "identifier {} out of range", id);
        assert_eq!(step.reply, RtspResponse { status_code: 200, cseq: 1, session_id: id });
        assert_eq!(session.state(), ClientState::Negotiated);
    }
    assert_eq!((SESSION_ID_MIN, SESSION_ID_MAX), (100000, 999999));
}

#[test]
fn handle_request_draws_different_identifiers() {
    let mut seen = std::collections::HashSet::new();
    for _ in 0..50 {
        let mut session = ServerSession::new();
        session.handle_request(&request(RequestType::Negotiate, 1, None, Some(6000)), true);
        seen.insert(session.session_id());
    }
    assert!(seen.len() > 1);
}

#[test]
fn receive_answers_malformed_text_with_400() {
    let mut session = negotiated(55, Some(6000));
    match session.receive(b"nonsense") {
        Received::Answer(step) => {
            assert_eq!(step.reply, RtspResponse { status_code: 400, cseq: 0, session_id: 55 });
            assert_eq!(step.media, MediaCommand::Nothing);
        }
        Received::Probe(_) => panic!("malformed text is not a request"),
    }
    assert_eq!(session.state(), ClientState::Negotiated);
}

#[test]
fn receive_hands_back_negotiate_without_session() {
    let mut session = ServerSession::new();
    let text = "NEGOTIATE clip.bin RTSP/1.0\r\nSequence: 4\r\nTransport: RTP/UDP; client_port=6000\r\n\r\n";
    match session.receive(text.as_bytes()) {
        Received::Probe(r) => {
            assert_eq!(r.request_type, RequestType::Negotiate);
            assert_eq!(r.filename, "clip.bin");
            assert_eq!(r.cseq, 4);
            assert_eq!(r.client_port, Some(6000));
            assert!(session.needs_resource(&r));
        }
        Received::Answer(_) => panic!("the answer depends on the resource"),
    }
    assert_eq!(session.state(), ClientState::Idle);
}

#[test]
fn receive_answers_negotiate_with_session_at_once() {
    let mut session = negotiated(55, Some(6000));
    let text = "NEGOTIATE clip.bin RTSP/1.0\r\nSequence: 4\r\nTransport: RTP/UDP; client_port=6000\r\n\r\n";
    match session.receive(text.as_bytes()) {
        Received::Answer(step) => {
            assert_eq!(step.reply, RtspResponse { status_code: 500, cseq: 4, session_id: 55 });
        }
        Received::Probe(_) => panic!("the answer does not depend on the resource"),
    }
}

#[test]
fn disconnect_cancels_running_media() {
    let mut session = streaming(3, 6000);
    assert_eq!(session.disconnect(), MediaCommand::Cancel);
    assert_eq!(session.state(), ClientState::Idle);
    assert_eq!(session.session_id(), 0);
    let mut session = negotiated(3, Some(6000));
    assert_eq!(session.disconnect(), MediaCommand::Nothing);
    assert_eq!(session.state(), ClientState::Idle);
    let mut session = ServerSession::new();
    assert_eq!(session.disconnect(), MediaCommand::Nothing);
}

#[test]
fn position_is_kept_across_pause_and_start() {
    let mut session = streaming(31, 6000);
    assert_eq!(session.position(), 0);
    session.apply(&request(RequestType::Pause, 3, Some(31), None), false, 0).unwrap();
    session.record_position(17);
    assert_eq!(session.position(), 17);
    session.apply(&request(RequestType::Start, 4, Some(31), None), false, 0).unwrap();
    assert_eq!(session.position(), 17);
    session.apply(&request(RequestType::Stop, 5, Some(31), None), false, 0).unwrap();
    assert_eq!(session.position(), 0);
    session.record_position(99);
    assert_eq!(session.position(), 0);
    let again = negotiated(32, Some(6000));
    assert_eq!(again.position(), 0);
}

#[test]
fn receive_answers_bytes_that_are_no_text_with_400() {
    let mut session = ServerSession::new();
    match session.receive(&[0x53, 0x54, 0xff, 0xfe, 0x0d, 0x0a]) {
        Received::Answer(step) => {
            assert_eq!(step.reply, RtspResponse { status_code: 400, cseq: 0, session_id: 0 });
        }
        Received::Probe(_) => panic!("bytes that are no text are not a request"),
    }
    assert_eq!(session.state(), ClientState::Idle);
}
