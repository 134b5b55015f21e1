use bytes::Bytes;
use rtsp_video_streamer::media::{
    media_packet, on_datagram, MediaSender, MJPEG_PAYLOAD_TYPE, PACING_INTERVAL_MILLIS, RECEIVE_BUFFER_SIZE,
};
use rtsp_video_streamer::rtp::{PacketError, RtpPacket};

#[test]
fn constants() {
    assert_eq!(MJPEG_PAYLOAD_TYPE, 26);
    assert_eq!(PACING_INTERVAL_MILLIS, 50);
    assert_eq!(RECEIVE_BUFFER_SIZE, 20480);
}

#[test]
fn media_packet_cuts_numbers_to_their_fields() {
    let p = media_packet(65537, 0x1_2345_6789_u128, Bytes::from(vec![1u8, 2, 3]));
    assert_eq!(p.version, 2);
    assert!(!p.padding && !p.extension && !p.marker);
    assert_eq!(p.cc, 0);
    assert_eq!(p.payload_type, 26);
    assert_eq!(p.sequence_number, 1);
    assert_eq!(p.timestamp, 0x2345_6789);
    assert_eq!(p.ssrc, 0);
    assert_eq!(&p.payload[..], &[1u8, 2, 3][..]);
}

#[test]
fn sender_numbers_frames_from_one() {
    let mut sender = MediaSender::new();
    assert_eq!(sender.frame_number(), 0);
    let d1 = sender.on_tick(Some(vec![0xaa, 0xbb]), 1000).unwrap();
    assert_eq!(d1, vec![0x80, 26, 0, 1, 0, 0, 0x03, 0xe8, 0, 0, 0, 0, 0xaa, 0xbb]);
    let d2 = sender.on_tick(Some(vec![]), 1050).unwrap();
    assert_eq!(d2, vec![0x80, 26, 0, 2, 0, 0, 0x04, 0x1a, 0, 0, 0, 0]);
    assert_eq!(sender.frame_number(), 2);
}

#[test]
fn sender_stops_at_end_of_stream() {
    let mut sender = MediaSender::resume(41);
    assert_eq!(sender.on_tick(None, 5), None);
    assert_eq!(sender.frame_number(), 41);
}

#[test]
fn sender_resumes_and_wraps() {
    let mut sender = MediaSender::resume(65535);
    let d = sender.on_tick(Some(vec![7]), 0).unwrap();
    assert_eq!(RtpPacket::decode(&d).unwrap().sequence_number, 0);
    assert_eq!(sender.frame_number(), 65536);
    let mut sender = MediaSender::resume(u32::MAX);
    let d = sender.on_tick(Some(vec![7]), 0).unwrap();
    assert_eq!(sender.frame_number(), 0);
    assert_eq!(RtpPacket::decode(&d).unwrap().sequence_number, 0);
}

#[test]
fn receiver_unwraps_what_the_sender_wrapped() {
    let mut sender = MediaSender::new();
    let frame = vec![0xffu8, 0xd8, 0xff, 0xe0, 1, 2, 3];
    let datagram = sender.on_tick(Some(frame.clone()), 77).unwrap();
    let got = on_datagram(&datagram).unwrap();
    assert_eq!(&got[..], &frame[..]);
}

#[test]
fn receiver_reports_bad_datagrams() {
    assert_eq!(on_datagram(&[1, 2, 3]).unwrap_err(), PacketError::Size { len: 3 });
    assert_eq!(on_datagram(&[0x40; 12]).unwrap_err(), PacketError::Version { found: 1 });
}
