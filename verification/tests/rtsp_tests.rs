use rtsp_video_streamer::rtsp::{FormatError, RequestType, RtspRequest, RtspResponse, RTSP_VERSION};

#[test]
fn method_names() {
    assert_eq!(RequestType::Negotiate.as_str(), "NEGOTIATE");
    assert_eq!(RequestType::Start.as_str(), "START");
    assert_eq!(RequestType::Pause.as_str(), "PAUSE");
    assert_eq!(RequestType::Stop.as_str(), "STOP");
    assert_eq!(RTSP_VERSION, "RTSP/1.0");
}

#[test]
fn parse_negotiate_request() {
    let text = "NEGOTIATE clip.bin RTSP/1.0\r\nSequence: 1\r\nTransport: RTP/UDP; client_port=6000\r\n\r\n";
    let req = RtspRequest::parse(text).unwrap();
    assert_eq!(req.request_type, RequestType::Negotiate);
    assert_eq!(req.filename, "clip.bin");
    assert_eq!(req.cseq, 1);
    assert_eq!(req.transport.as_deref(), Some("RTP/UDP; client_port=6000"));
    assert_eq!(req.client_port, Some(6000));
    assert_eq!(req.session_id, None);
}

#[test]
fn parse_start_request_with_session() {
    let text = "START clip.bin RTSP/1.0\r\nSequence: 2\r\nSession: 123456\r\n\r\n";
    let req = RtspRequest::parse(text).unwrap();
    assert_eq!(req.request_type, RequestType::Start);
    assert_eq!(req.filename, "clip.bin");
    assert_eq!(req.cseq, 2);
    assert_eq!(req.transport, None);
    assert_eq!(req.client_port, None);
    assert_eq!(req.session_id, Some(123456));
}

#[test]
fn parse_accepts_bare_line_feeds_and_odd_spacing() {
    let text = "  PAUSE \t movie.Mjpeg   RTSP/1.0 extra\n  sEqUeNcE :  +007 \nSESSION:42\n";
    let req = RtspRequest::parse(text).unwrap();
    assert_eq!(req.request_type, RequestType::Pause);
    assert_eq!(req.filename, "movie.Mjpeg");
    assert_eq!(req.cseq, 7);
    assert_eq!(req.session_id, Some(42));
}

#[test]
fn parse_last_header_wins_and_headers_stop_at_empty_line() {
    let text = "STOP a v\r\nSequence: 1\r\nSequence: 2\r\n\r\nSequence: 3\r\nSession: 9\r\n";
    let req = RtspRequest::parse(text).unwrap();
    assert_eq!(req.cseq, 2);
    assert_eq!(req.session_id, None);
}

#[test]
fn parse_request_errors() {
    assert_eq!(RtspRequest::parse("").unwrap_err(), FormatError::Empty);
    assert_eq!(RtspRequest::parse("\r\nSequence: 1\r\n\r\n").unwrap_err(), FormatError::MissingToken);
    assert_eq!(RtspRequest::parse("START clip.bin\r\nSequence: 1\r\n\r\n").unwrap_err(), FormatError::MissingToken);
    assert_eq!(RtspRequest::parse("PLAY clip.bin RTSP/1.0\r\nSequence: 1\r\n\r\n").unwrap_err(), FormatError::UnknownMethod);
    assert_eq!(RtspRequest::parse("start clip.bin RTSP/1.0\r\nSequence: 1\r\n\r\n").unwrap_err(), FormatError::UnknownMethod);
    assert_eq!(RtspRequest::parse("START clip.bin RTSP/1.0\r\nSession: 5\r\n\r\n").unwrap_err(), FormatError::MissingSequence);
    assert_eq!(RtspRequest::parse("START clip.bin RTSP/1.0\r\n\r\nSequence: 1\r\n").unwrap_err(), FormatError::MissingSequence);
    assert_eq!(RtspRequest::parse("START clip.bin RTSP/1.0\r\nSequence: x\r\n\r\n").unwrap_err(), FormatError::InvalidNumber);
    assert_eq!(RtspRequest::parse("START clip.bin RTSP/1.0\r\nSequence: -1\r\n\r\n").unwrap_err(), FormatError::InvalidNumber);
    assert_eq!(RtspRequest::parse("START clip.bin RTSP/1.0\r\nSequence:\r\n\r\n").unwrap_err(), FormatError::InvalidNumber);
    assert_eq!(RtspRequest::parse("START clip.bin RTSP/1.0\r\nSequence: 4294967296\r\n\r\n").unwrap_err(), FormatError::InvalidNumber);
    assert_eq!(RtspRequest::parse("START clip.bin RTSP/1.0\r\nSequence: 1\r\nSession: abc\r\n\r\n").unwrap_err(), FormatError::InvalidNumber);
    assert_eq!(
        RtspRequest::parse("NEGOTIATE clip.bin RTSP/1.0\r\nSequence: 1\r\nTransport: RTP/UDP; client_port=70000\r\n\r\n").unwrap_err(),
        FormatError::InvalidNumber
    );
}

#[test]
fn parse_number_limits() {
    let req = RtspRequest::parse("START a v\r\nSequence: 4294967295\r\nSession: 00000000000000000000000012\r\n\r\n").unwrap();
    assert_eq!(req.cseq, u32::MAX);
    assert_eq!(req.session_id, Some(12));
}

#[test]
fn transport_without_port_is_no_error() {
    let req = RtspRequest::parse("NEGOTIATE a v\r\nSequence: 1\r\nTransport: RTP/UDP; unicast\r\n\r\n").unwrap();
    assert_eq!(req.transport.as_deref(), Some("RTP/UDP; unicast"));
    assert_eq!(req.client_port, None);
}

#[test]
fn transport_first_port_parameter_counts() {
    let req = RtspRequest::parse("NEGOTIATE a v\r\nSequence: 1\r\nTransport: x;  client_port= 25000 ;client_port=1\r\n\r\n").unwrap();
    assert_eq!(req.client_port, Some(25000));
}

#[test]
fn format_request_text() {
    let req = RtspRequest {
        request_type: RequestType::Negotiate,
        filename: "clip.bin".to_string(),
        cseq: 1,
        transport: Some("RTP/UDP; client_port=6000".to_string()),
        client_port: Some(6000),
        session_id: None,
    };
    assert_eq!(
        req.format(),
        "NEGOTIATE clip.bin RTSP/1.0\r\nSequence: 1\r\nTransport: RTP/UDP; client_port=6000\r\n\r\n"
    );
    let req = RtspRequest {
        request_type: RequestType::Stop,
        filename: "clip.bin".to_string(),
        cseq: 4000000000,
        transport: None,
        client_port: None,
        session_id: Some(0),
    };
    assert_eq!(req.format(), "STOP clip.bin RTSP/1.0\r\nSequence: 4000000000\r\nSession: 0\r\n\r\n");
}

#[test]
fn request_round_trip() {
    for (method, session, port) in [
        (RequestType::Negotiate, None, Some(6000u16)),
        (RequestType::Start, Some(654321u32), None),
        (RequestType::Pause, Some(u32::MAX), None),
        (RequestType::Stop, Some(0), Some(u16::MAX)),
    ] {
        let req = RtspRequest {
            request_type: method,
            filename: "dir/clip-1.bin".to_string(),
            cseq: 77,
            transport: port.map(|p| format!("RTP/UDP; client_port={}", p)),
            client_port: port,
            session_id: session,
        };
        let back = RtspRequest::parse(&req.format()).unwrap();
        assert_eq!(back.request_type, method);
        assert_eq!(back.filename, "dir/clip-1.bin");
        assert_eq!(back.cseq, 77);
        assert_eq!(back.transport, req.transport);
        assert_eq!(back.client_port, port);
        assert_eq!(back.session_id, session);
    }
}

#[test]
fn parse_response_text() {
    let resp = RtspResponse::parse("RTSP/1.0 200 OK\r\nSequence: 1\r\nSession: 123456\r\n\r\n").unwrap();
    assert_eq!(resp.status_code, 200);
    assert_eq!(resp.cseq, 1);
    assert_eq!(resp.session_id, 123456);
    let resp = RtspResponse::parse("RTSP/1.0 404\n\nSession: 3\nnot a header\nSequence: 8").unwrap();
    assert_eq!(resp.status_code, 404);
    assert_eq!(resp.cseq, 8);
    assert_eq!(resp.session_id, 3);
}

#[test]
fn parse_response_errors() {
    assert_eq!(RtspResponse::parse("").unwrap_err(), FormatError::Empty);
    assert_eq!(RtspResponse::parse("RTSP/1.0\r\nSequence: 1\r\nSession: 2\r\n\r\n").unwrap_err(), FormatError::MissingStatus);
    assert_eq!(RtspResponse::parse("RTSP/1.0 OK\r\nSequence: 1\r\nSession: 2\r\n\r\n").unwrap_err(), FormatError::InvalidNumber);
    assert_eq!(RtspResponse::parse("RTSP/1.0 65536 OK\r\nSequence: 1\r\nSession: 2\r\n\r\n").unwrap_err(), FormatError::InvalidNumber);
    assert_eq!(RtspResponse::parse("RTSP/1.0 200 OK\r\nSession: 2\r\n\r\n").unwrap_err(), FormatError::MissingSequence);
    assert_eq!(RtspResponse::parse("RTSP/1.0 200 OK\r\nSequence: 1\r\n\r\n").unwrap_err(), FormatError::MissingSession);
    assert_eq!(RtspResponse::parse("RTSP/1.0 200 OK\r\nSequence: 1\r\nSession: s\r\n\r\n").unwrap_err(), FormatError::InvalidNumber);
}

#[test]
fn response_round_trip() {
    let resp = RtspResponse { status_code: 500, cseq: 31, session_id: 999999 };
    let text = resp.format("Connection error");
    assert_eq!(text, "RTSP/1.0 500 Connection error\r\nSequence: 31\r\nSession: 999999\r\n\r\n");
    let back = RtspResponse::parse(&text).unwrap();
    assert_eq!(back.status_code, 500);
    assert_eq!(back.cseq, 31);
    assert_eq!(back.session_id, 999999);
}

#[test]
fn unicode_white_space_separates_words() {
    let req = RtspRequest::parse("START\u{a0}clip.bin\u{3000}v\nSequence:\u{2003}5\u{85}\n").unwrap();
    assert_eq!(req.filename, "clip.bin");
    assert_eq!(req.cseq, 5);
}

#[test]
fn messages_are_read_from_bytes() {
    let req = RtspRequest::from_bytes(b"STOP caf\xc3\xa9.bin RTSP/1.0\r\nSequence: 3\r\nSession: 4\r\n\r\n").unwrap();
    assert_eq!(req.request_type, RequestType::Stop);
    assert_eq!(req.filename, "caf\u{e9}.bin");
    assert_eq!(req.cseq, 3);
    assert_eq!(req.session_id, Some(4));
    let resp = RtspResponse::from_bytes(b"RTSP/1.0 200 OK\r\nSequence: 3\r\nSession: 4\r\n\r\n").unwrap();
    assert_eq!(resp, RtspResponse { status_code: 200, cseq: 3, session_id: 4 });
    assert_eq!(RtspRequest::from_bytes(b"STOP a v\r\nSequence: 3\xff\r\n\r\n").unwrap_err(), FormatError::NotText);
    assert_eq!(RtspResponse::from_bytes(&[0x80]).unwrap_err(), FormatError::NotText);
    assert_eq!(RtspRequest::from_bytes(b"").unwrap_err(), FormatError::Empty);
}
