//! The decisions of the two media tasks: the sender that wraps frames in
//! packets, and the receiver that unwraps them.
//!
//! The tasks themselves wait on timers, sockets and a cancellation signal.
//! What they do between two waits is here.

use crate::payload::payload_bytes;
use crate::rtp::{
    decoded_view, spec_decode, spec_encode, PacketError, PacketView, RtpPacket, RTP_VERSION,
};
use crate::text::{parse_u32, spec_parse_number};
use bytes::Bytes;
use vstd::prelude::*;

verus! {

/// Payload type of the one profile this streamer sends: Motion JPEG.
pub const MJPEG_PAYLOAD_TYPE: u8 = 26;

/// Milliseconds between two frames: the pace of the sender.
pub const PACING_INTERVAL_MILLIS: u64 = 50;

/// Number of bytes in the header that stands before each frame of a
/// recorded stream.
pub const FRAME_HEADER_SIZE: usize = 5;

/// Largest datagram the receiver takes in, in bytes.
pub const RECEIVE_BUFFER_SIZE: usize = 20480;

/// The packet that carries a frame: the frame's number as the sequence
/// number and the time in milliseconds as the timestamp, each cut to the
/// width of its field.
pub open spec fn spec_media_packet(frame_number: u32, millis: u128, frame: Seq<u8>) -> PacketView {
    PacketView {
        version: RTP_VERSION,
        padding: false,
        extension: false,
        cc: 0,
        marker: false,
        payload_type: MJPEG_PAYLOAD_TYPE,
        sequence_number: (frame_number % 0x1_0000) as u16,
        timestamp: (millis % 0x1_0000_0000) as u32,
        ssrc: 0,
        payload: frame,
    }
}

/// The bytes of a frame header as characters, one for each byte.
pub open spec fn spec_header_text(header: Seq<u8>) -> Seq<char> {
    Seq::new(header.len(), |i: int| header[i] as char)
}

/// The length of the frame that a frame header announces: the header read
/// as a decimal number. A header that is not a number announces nothing.
pub open spec fn spec_frame_length(header: Seq<u8>) -> Option<nat> {
    spec_parse_number(spec_header_text(header), u32::MAX as nat)
}

/// The number of the frame after frame `n`. Numbers start again at 0 after
/// the largest.
pub open spec fn spec_next_frame_number(n: u32) -> u32 {
    if n == u32::MAX {
        0
    } else {
        (n + 1) as u32
    }
}

/// The sending side of a media stream: how far into the stream it is.
pub struct MediaSender {
    frames_sent: u32,
}

impl View for MediaSender {
    type V = u32;

    closed spec fn view(&self) -> u32 {
        self.frames_sent
    }
}

impl MediaSender {
    /// A sender at the start of a stream.
    pub fn new() -> (sender: MediaSender)
        ensures
            sender@ == 0,
    {
        MediaSender { frames_sent: 0 }
    }

    /// A sender that goes on after `frames_sent` frames, as after a pause.
    pub fn resume(frames_sent: u32) -> (sender: MediaSender)
        ensures
            sender@ == frames_sent,
    {
        MediaSender { frames_sent }
    }

    /// The number of the last frame that was wrapped, or 0 if none was.
    pub fn frame_number(&self) -> (n: u32)
        ensures
            n == self@,
    {
        self.frames_sent
    }

    /// Decides what to do at a tick of the pacing timer, given what the
    /// frame source gave.
    ///
    /// Without a frame the stream has ended: the task has nothing to send
    /// and stops. With a frame, the datagram to send is returned: the frame
    /// wrapped in a packet with the next frame number.
    pub fn on_tick(&mut self, frame: Option<Vec<u8>>, millis: u128) -> (datagram: Option<Vec<u8>>)
        ensures
            frame is None ==> datagram is None && final(self)@ == old(self)@,
            frame matches Some(f) ==> final(self)@ == spec_next_frame_number(old(self)@)
                && datagram is Some && datagram->Some_0@ == spec_encode(
                spec_media_packet(final(self)@, millis, f@),
            ),
    {
        match frame {
            None => None,
            Some(frame) => {
                self.frames_sent = if self.frames_sent == u32::MAX {
                    0
                } else {
                    self.frames_sent + 1
                };
                let packet = media_packet(self.frames_sent, millis, Bytes::from(frame));
                Some(packet.encode())
            },
        }
    }
}

/// Reads the length of the next frame of a recorded stream from the header
/// that stands before it.
pub fn frame_length(header: &[u8; 5]) -> (length: Option<usize>)
    ensures
        length matches Some(n) ==> spec_frame_length(header@) == Some(n as nat),
        length is None ==> spec_frame_length(header@) is None,
{
    let mut text: Vec<char> = Vec::new();
    let mut i: usize = 0;
    while i < FRAME_HEADER_SIZE
        invariant
            i <= 5,
            text@.len() == i,
            forall|j: int| 0 <= j < i ==> text@[j] == header@[j] as char,
        decreases 5 - i,
    {
        text.push(header[i] as char);
        i = i + 1;
    }
    assert(text@ =~= spec_header_text(header@));
    match parse_u32(text.as_slice()) {
        Some(n) => Some(n as usize),
        None => None,
    }
}

/// Wraps a frame in a packet.
pub fn media_packet(frame_number: u32, millis: u128, frame: Bytes) -> (packet: RtpPacket)
    ensures
        packet@ == spec_media_packet(frame_number, millis, payload_bytes(frame)),
        packet@.well_formed(),
{
    RtpPacket::new(
        MJPEG_PAYLOAD_TYPE,
        (frame_number % 0x1_0000) as u16,
        (millis % 0x1_0000_0000) as u32,
        0,
        frame,
    )
}

/// Unwraps the frame that a datagram carries.
///
/// A datagram that is no packet is reported and otherwise ignored: one bad
/// datagram does not end the receiving task.
pub fn on_datagram(datagram: &[u8]) -> (frame: Result<Bytes, PacketError>)
    ensures
        spec_decode(datagram@) matches Ok(packet) ==> frame is Ok && payload_bytes(frame->Ok_0)
            == packet.payload,
        spec_decode(datagram@) matches Err(e) ==> frame is Err && frame->Err_0 == e,
{
    match RtpPacket::decode(datagram) {
        Ok(packet) => Ok(packet.payload),
        Err(e) => Err(e),
    }
}

/// What the sender wraps, the receiver unwraps: the frame, byte for byte.
pub proof fn lemma_frame_survives(frame_number: u32, millis: u128, frame: Seq<u8>)
    ensures
        spec_decode(spec_encode(spec_media_packet(frame_number, millis, frame))) == Ok::<
            PacketView,
            PacketError,
        >(spec_media_packet(frame_number, millis, frame)),
{
    crate::rtp::lemma_decode_inverts_encode(spec_media_packet(frame_number, millis, frame));
}

} // verus!
