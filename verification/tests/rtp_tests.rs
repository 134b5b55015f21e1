use bytes::Bytes;
use rtsp_video_streamer::rtp::{PacketError, RtpPacket, HEADER_SIZE, RTP_VERSION};

#[test]
fn encode_writes_header_then_payload() {
    let packet = RtpPacket::new(26, 0x0102, 0x0a0b0c0d, 0x11223344, Bytes::from(vec![9u8, 8, 7]));
    let bytes = packet.encode();
    assert_eq!(
        bytes,
        vec![0x80, 26, 0x01, 0x02, 0x0a, 0x0b, 0x0c, 0x0d, 0x11, 0x22, 0x33, 0x44, 9, 8, 7]
    );
    assert_eq!(bytes.len(), HEADER_SIZE + 3);
}

#[test]
fn decode_reads_every_field() {
    let data = vec![0xb5u8, 0x9a, 0xff, 0xfe, 0, 0, 1, 0, 0xde, 0xad, 0xbe, 0xef, 1, 2];
    let packet = RtpPacket::decode(&data).unwrap();
    assert_eq!(packet.version, RTP_VERSION);
    assert!(packet.padding);
    assert!(packet.extension);
    assert_eq!(packet.cc, 5);
    assert!(packet.marker);
    assert_eq!(packet.payload_type, 26);
    assert_eq!(packet.sequence_number, 0xfffe);
    assert_eq!(packet.timestamp, 256);
    assert_eq!(packet.ssrc, 0xdeadbeef);
    assert_eq!(&packet.payload[..], &[1u8, 2][..]);
}

#[test]
fn decode_rejects_short_input() {
    for len in 0..HEADER_SIZE {
        let data = vec![0x80u8; len];
        assert_eq!(RtpPacket::decode(&data).unwrap_err(), PacketError::Size { len });
    }
}

#[test]
fn decode_rejects_other_versions() {
    for version in [0u8, 1, 3] {
        let mut data = vec![0xffu8; 12];
        data[0] = (version << 6) | 0x3f;
        assert_eq!(RtpPacket::decode(&data).unwrap_err(), PacketError::Version { found: version });
    }
}

#[test]
fn decode_inverts_encode() {
    for (padding, extension, cc, marker, payload_type) in
        [(false, false, 0u8, false, 0u8), (true, false, 15, true, 127), (false, true, 9, false, 26), (true, true, 1, true, 96)]
    {
        let packet = RtpPacket {
            version: RTP_VERSION,
            padding,
            extension,
            cc,
            marker,
            payload_type,
            sequence_number: 0xabcd,
            timestamp: 0xffff_ffff,
            ssrc: 0x0102_0304,
            payload: Bytes::from(vec![0u8, 255, 7]),
        };
        let back = RtpPacket::decode(&packet.encode()).unwrap();
        assert_eq!(back.version, RTP_VERSION);
        assert_eq!(back.padding, padding);
        assert_eq!(back.extension, extension);
        assert_eq!(back.cc, cc);
        assert_eq!(back.marker, marker);
        assert_eq!(back.payload_type, payload_type);
        assert_eq!(back.sequence_number, 0xabcd);
        assert_eq!(back.timestamp, 0xffff_ffff);
        assert_eq!(back.ssrc, 0x0102_0304);
        assert_eq!(back.payload, packet.payload);
    }
}

#[test]
fn encode_inverts_decode() {
    let mut data: Vec<u8> = (0..40u8).map(|i| i.wrapping_mul(37)).collect();
    data[0] = 0x80 | 0x2b;
    let packet = RtpPacket::decode(&data).unwrap();
    assert_eq!(packet.encode(), data);
}

#[test]
fn empty_payload_is_valid() {
    let packet = RtpPacket::decode(&[0x80, 0, 0, 0, 0, 0, 0, 0, 0, 0, 0, 0]).unwrap();
    assert!(packet.payload.is_empty());
    assert_eq!(packet.encode().len(), HEADER_SIZE);
}

#[test]
fn clone_keeps_the_payload() {
    let packet = RtpPacket::new(26, 5, 6, 7, Bytes::from(vec![1u8, 2, 3, 4]));
    let copy = packet.clone();
    assert_eq!(copy.encode(), packet.encode());
    assert_eq!(copy.payload, Bytes::from(vec![1u8, 2, 3, 4]));
}

#[test]
fn encode_overlaps_fields_that_are_too_wide() {
    let packet = RtpPacket {
        version: 7,
        padding: false,
        extension: false,
        cc: 0xf0,
        marker: false,
        payload_type: 0xff,
        sequence_number: 0,
        timestamp: 0,
        ssrc: 0,
        payload: Bytes::new(),
    };
    let bytes = packet.encode();
    assert_eq!(bytes[0], 0xf0);
    assert_eq!(bytes[1], 0xff);
}
