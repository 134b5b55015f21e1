use rtsp_video_streamer::client::{ClientArgs, ClientController, ClientState};
use rtsp_video_streamer::media::{on_datagram, MediaSender};
use rtsp_video_streamer::rtsp::{RequestType, RtspResponse};
use rtsp_video_streamer::session::{MediaCommand, Received, ServerSession, ServerStep, SESSION_ID_MAX, SESSION_ID_MIN};

fn args() -> ClientArgs {
    ClientArgs {
        server_addr: "127.0.0.1".to_string(),
        server_port: 5555,
        rtp_port: 6000,
        video_file: "clip.bin".to_string(),
    }
}

/// What a connection worker does with a text, for a server whose only
/// resource is "clip.bin".
fn serve(server: &mut ServerSession, text: &str) -> ServerStep {
    match server.receive(text.as_bytes()) {
        Received::Answer(step) => step,
        Received::Probe(request) => {
            let found = request.filename == "clip.bin";
            server.handle_request(&request, found)
        }
    }
}

fn exchange(client: &mut ClientController, server: &mut ServerSession, method: RequestType) -> ServerStep {
    let a = args();
    let request = client.begin(method, &a).unwrap();
    let step = serve(server, &request.format());
    let completion = client.complete(method, step.reply_text().as_bytes(), &a).unwrap();
    assert!(completion.sequence_matches);
    assert_eq!(completion.state, server.state());
    step
}

#[test]
fn scenario_negotiate_then_start() {
    let mut client = ClientController::new();
    let mut server = ServerSession::new();
    let a = args();

    let request = client.begin(RequestType::Negotiate, &a).unwrap();
    let text = request.format();
    assert_eq!(text, "NEGOTIATE clip.bin RTSP/1.0\r\nSequence: 1\r\nTransport: RTP/UDP; client_port=6000\r\n\r\n");
    let step = serve(&mut server, &text);
    assert_eq!(step.reply.status_code, 200);
    assert_eq!(step.reply.cseq, 1);
    let session = step.reply.session_id;
    assert!(SESSION_ID_MIN <= session && session <= SESSION_ID_MAX);
    assert_eq!(step.media, MediaCommand::Nothing);
    client.complete(RequestType::Negotiate, step.reply_text().as_bytes(), &a).unwrap();
    assert_eq!(client.session_id(), session);

    let request = client.begin(RequestType::Start, &a).unwrap();
    assert_eq!(request.cseq, 2);
    assert_eq!(request.session_id, Some(session));
    let step = serve(&mut server, &request.format());
    assert_eq!(step.reply, RtspResponse { status_code: 200, cseq: 2, session_id: session });
    assert_eq!(step.media, MediaCommand::Start { port: 6000 });
    let completion = client.complete(RequestType::Start, step.reply_text().as_bytes(), &a).unwrap();
    assert_eq!(completion.media, MediaCommand::Start { port: 6000 });
    assert_eq!(client.state(), ClientState::Streaming);
    assert_eq!(server.state(), ClientState::Streaming);

    let mut sender = MediaSender::new();
    let datagram = sender.on_tick(Some(vec![1, 2, 3]), 1).unwrap();
    assert_eq!(&on_datagram(&datagram).unwrap()[..], &[1u8, 2, 3][..]);
}

#[test]
fn scenario_wrong_session_then_pause() {
    let mut client = ClientController::new();
    let mut server = ServerSession::new();
    let step = exchange(&mut client, &mut server, RequestType::Negotiate);
    let session = step.reply.session_id;

    let wrong = format!("START clip.bin RTSP/1.0\r\nSequence: 2\r\nSession: {}\r\n\r\n", session + 1);
    let step = serve(&mut server, &wrong);
    assert_eq!(step.reply, RtspResponse { status_code: 500, cseq: 2, session_id: session });
    assert_eq!(step.media, MediaCommand::Nothing);
    assert_eq!(server.state(), ClientState::Negotiated);

    // No media flows yet, so there is nothing to pause.
    let early = format!("PAUSE clip.bin RTSP/1.0\r\nSequence: 3\r\nSession: {}\r\n\r\n", session);
    let step = serve(&mut server, &early);
    assert_eq!(step.reply, RtspResponse { status_code: 500, cseq: 3, session_id: session });
    assert_eq!(server.state(), ClientState::Negotiated);

    // The connection is still of use: the session can be started and paused.
    let right = format!("START clip.bin RTSP/1.0\r\nSequence: 3\r\nSession: {}\r\n\r\n", session);
    let step = serve(&mut server, &right);
    assert_eq!(step.reply.status_code, 200);
    let pause = format!("PAUSE clip.bin RTSP/1.0\r\nSequence: 4\r\nSession: {}\r\n\r\n", session);
    let step = serve(&mut server, &pause);
    assert_eq!(step.reply, RtspResponse { status_code: 200, cseq: 4, session_id: session });
    assert_eq!(step.media, MediaCommand::Cancel);
    assert_eq!(server.state(), ClientState::Negotiated);
}

#[test]
fn scenario_wrong_session_while_streaming_then_pause() {
    let mut client = ClientController::new();
    let mut server = ServerSession::new();
    let session = exchange(&mut client, &mut server, RequestType::Negotiate).reply.session_id;
    exchange(&mut client, &mut server, RequestType::Start);

    let wrong = format!("START clip.bin RTSP/1.0\r\nSequence: 9\r\nSession: {}\r\n\r\n", session - 1);
    let step = serve(&mut server, &wrong);
    assert_eq!(step.reply.status_code, 500);
    assert_eq!(server.state(), ClientState::Streaming);

    let step = exchange(&mut client, &mut server, RequestType::Pause);
    assert_eq!(step.reply.status_code, 200);
    assert_eq!(step.media, MediaCommand::Cancel);
}

#[test]
fn scenario_missing_sequence_header() {
    let mut client = ClientController::new();
    let mut server = ServerSession::new();
    let step = serve(&mut server, "NEGOTIATE clip.bin RTSP/1.0\r\nTransport: RTP/UDP; client_port=6000\r\n\r\n");
    assert_eq!(step.reply, RtspResponse { status_code: 400, cseq: 0, session_id: 0 });
    assert_eq!(step.reply_text(), "RTSP/1.0 400 Bad Request\r\nSequence: 0\r\nSession: 0\r\n\r\n");
    assert_eq!(step.media, MediaCommand::Nothing);
    assert_eq!(server.state(), ClientState::Idle);
    // The connection is not closed: the next request is served.
    let step = exchange(&mut client, &mut server, RequestType::Negotiate);
    assert_eq!(step.reply.status_code, 200);
}

#[test]
fn scenario_pause_while_streaming() {
    let mut client = ClientController::new();
    let mut server = ServerSession::new();
    let session = exchange(&mut client, &mut server, RequestType::Negotiate).reply.session_id;
    exchange(&mut client, &mut server, RequestType::Start);
    assert_eq!(server.state(), ClientState::Streaming);
    let step = exchange(&mut client, &mut server, RequestType::Pause);
    assert_eq!(step.media, MediaCommand::Cancel);
    assert_eq!(server.state(), ClientState::Negotiated);
    assert_eq!(client.state(), ClientState::Negotiated);
    assert_eq!(server.session_id(), session);
    // The stream can go on from where it was.
    let step = exchange(&mut client, &mut server, RequestType::Start);
    assert_eq!(step.media, MediaCommand::Start { port: 6000 });
    let step = exchange(&mut client, &mut server, RequestType::Stop);
    assert_eq!(step.media, MediaCommand::Cancel);
    assert_eq!(server.state(), ClientState::Idle);
}

#[test]
fn scenario_unknown_resource() {
    let mut server = ServerSession::new();
    let step = serve(&mut server, "NEGOTIATE other.bin RTSP/1.0\r\nSequence: 1\r\nTransport: RTP/UDP; client_port=6000\r\n\r\n");
    assert_eq!(step.reply, RtspResponse { status_code: 404, cseq: 1, session_id: 0 });
    assert_eq!(server.state(), ClientState::Idle);
}
