//! The binary format of media datagrams: a fixed twelve-byte header followed
//! by an opaque payload.
//!
//! ```text
//!  byte 0      byte 1      bytes 2..4   bytes 4..8   bytes 8..12   bytes 12..
//!  VVPXCCCC    MTTTTTTT    sequence     timestamp    source id     payload
//! ```
//!
//! Multi-byte fields are big-endian. [`spec_encode`] and [`spec_decode`] are the
//! mathematical description of the format; [`RtpPacket::encode`] and
//! [`RtpPacket::decode`] are proved to compute them.

use crate::payload::payload_bytes;
use bytes::Bytes;
use vstd::prelude::*;

verus! {

/// Number of bytes in the fixed header.
pub const HEADER_SIZE: usize = 12;

/// The only protocol version that [`RtpPacket::decode`] accepts.
pub const RTP_VERSION: u8 = 2;

/// A media packet.
#[derive(Debug, Clone)]
pub struct RtpPacket {
    pub version: u8,
    pub padding: bool,
    pub extension: bool,
    pub cc: u8,
    pub marker: bool,
    pub payload_type: u8,
    pub sequence_number: u16,
    pub timestamp: u32,
    pub ssrc: u32,
    pub payload: Bytes,
}

/// Why a datagram was rejected by [`RtpPacket::decode`].
#[derive(Debug, Clone, Copy, PartialEq, Eq, Structural)]
pub enum PacketError {
    /// The datagram has `len` bytes, fewer than a header needs.
    Size { len: usize },
    /// The two version bits hold `found`, not [`RTP_VERSION`].
    Version { found: u8 },
}

/// The mathematical value of a packet: its header fields and payload bytes.
pub ghost struct PacketView {
    pub version: u8,
    pub padding: bool,
    pub extension: bool,
    pub cc: u8,
    pub marker: bool,
    pub payload_type: u8,
    pub sequence_number: u16,
    pub timestamp: u32,
    pub ssrc: u32,
    pub payload: Seq<u8>,
}

impl View for RtpPacket {
    type V = PacketView;

    open spec fn view(&self) -> PacketView {
        PacketView {
            version: self.version,
            padding: self.padding,
            extension: self.extension,
            cc: self.cc,
            marker: self.marker,
            payload_type: self.payload_type,
            sequence_number: self.sequence_number,
            timestamp: self.timestamp,
            ssrc: self.ssrc,
            payload: payload_bytes(self.payload),
        }
    }
}

impl PacketView {
    /// Every field fits the bits that the header gives it, and the version is
    /// the one this format defines.
    pub open spec fn well_formed(self) -> bool {
        &&& self.version == RTP_VERSION
        &&& self.cc < 16
        &&& self.payload_type < 128
    }
}

/// A flag as a single bit.
pub open spec fn bit(flag: bool) -> u8 {
    if flag {
        1
    } else {
        0
    }
}

/// First header byte: version in the top two bits, then padding, extension and
/// the four-bit contributing-source count.
pub open spec fn spec_first_byte(version: u8, padding: bool, extension: bool, cc: u8) -> u8 {
    (version << 6) | (bit(padding) << 5) | (bit(extension) << 4) | cc
}

/// Second header byte: marker in the top bit, then the seven-bit payload type.
pub open spec fn spec_second_byte(marker: bool, payload_type: u8) -> u8 {
    (bit(marker) << 7) | payload_type
}

/// The two big-endian bytes of `x`.
pub open spec fn spec_be16(x: u16) -> Seq<u8> {
    seq![(x / 256) as u8, (x % 256) as u8]
}

/// The four big-endian bytes of `x`.
pub open spec fn spec_be32(x: u32) -> Seq<u8> {
    seq![
        (x / 16777216) as u8,
        ((x / 65536) % 256) as u8,
        ((x / 256) % 256) as u8,
        (x % 256) as u8,
    ]
}

/// The number whose big-endian bytes are `hi`, `lo`.
pub open spec fn spec_from_be16(hi: u8, lo: u8) -> u16 {
    (hi * 256 + lo) as u16
}

/// The number whose big-endian bytes are `b0`, `b1`, `b2`, `b3`.
pub open spec fn spec_from_be32(b0: u8, b1: u8, b2: u8, b3: u8) -> u32 {
    (b0 * 16777216 + b1 * 65536 + b2 * 256 + b3) as u32
}

/// The twelve header bytes of a packet.
pub open spec fn spec_header(p: PacketView) -> Seq<u8> {
    seq![
        spec_first_byte(p.version, p.padding, p.extension, p.cc),
        spec_second_byte(p.marker, p.payload_type),
    ] + spec_be16(p.sequence_number) + spec_be32(p.timestamp) + spec_be32(p.ssrc)
}

/// The wire form of a packet: its header, then the payload unchanged.
pub open spec fn spec_encode(p: PacketView) -> Seq<u8> {
    spec_header(p) + p.payload
}

/// The packet that a datagram holds, or the reason why it holds none.
pub open spec fn spec_decode(data: Seq<u8>) -> Result<PacketView, PacketError> {
    if data.len() < HEADER_SIZE {
        Err(PacketError::Size { len: data.len() as usize })
    } else if data[0] >> 6 != RTP_VERSION {
        Err(PacketError::Version { found: data[0] >> 6 })
    } else {
        Ok(
            PacketView {
                version: data[0] >> 6,
                padding: (data[0] >> 5) & 1 == 1,
                extension: (data[0] >> 4) & 1 == 1,
                cc: data[0] & 0x0f,
                marker: (data[1] >> 7) & 1 == 1,
                payload_type: data[1] & 0x7f,
                sequence_number: spec_from_be16(data[2], data[3]),
                timestamp: spec_from_be32(data[4], data[5], data[6], data[7]),
                ssrc: spec_from_be32(data[8], data[9], data[10], data[11]),
                payload: data.skip(HEADER_SIZE as int),
            },
        )
    }
}

/// What [`RtpPacket::decode`] returned, with the packet replaced by its value.
pub open spec fn decoded_view(r: Result<RtpPacket, PacketError>) -> Result<
    PacketView,
    PacketError,
> {
    match r {
        Ok(p) => Ok(p@),
        Err(e) => Err(e),
    }
}

fn flag_bit(flag: bool) -> (b: u8)
    ensures
        b == bit(flag),
{
    if flag {
        1
    } else {
        0
    }
}

fn from_be16(hi: u8, lo: u8) -> (x: u16)
    ensures
        x == spec_from_be16(hi, lo),
{
    (hi as u16) * 256 + (lo as u16)
}

fn from_be32(b0: u8, b1: u8, b2: u8, b3: u8) -> (x: u32)
    ensures
        x == spec_from_be32(b0, b1, b2, b3),
{
    (b0 as u32) * 16777216 + (b1 as u32) * 65536 + (b2 as u32) * 256 + (b3 as u32)
}

fn push_be16(out: &mut Vec<u8>, x: u16)
    ensures
        final(out)@ == old(out)@ + spec_be16(x),
{
    out.push((x / 256) as u8);
    out.push((x % 256) as u8);
}

fn push_be32(out: &mut Vec<u8>, x: u32)
    ensures
        final(out)@ == old(out)@ + spec_be32(x),
{
    out.push((x / 16777216) as u8);
    out.push(((x / 65536) % 256) as u8);
    out.push(((x / 256) % 256) as u8);
    out.push((x % 256) as u8);
}

impl RtpPacket {
    /// A packet of the current version with no padding, extension,
    /// contributing sources or marker.
    pub fn new(
        payload_type: u8,
        sequence_number: u16,
        timestamp: u32,
        ssrc: u32,
        payload: Bytes,
    ) -> (p: RtpPacket)
        ensures
            p@ == (PacketView {
                version: RTP_VERSION,
                padding: false,
                extension: false,
                cc: 0,
                marker: false,
                payload_type,
                sequence_number,
                timestamp,
                ssrc,
                payload: payload_bytes(payload),
            }),
    {
        RtpPacket {
            version: RTP_VERSION,
            padding: false,
            extension: false,
            cc: 0,
            marker: false,
            payload_type,
            sequence_number,
            timestamp,
            ssrc,
            payload,
        }
    }

    /// Writes the packet in wire form.
    ///
    /// The result is [`spec_encode`] of the packet for every combination of
    /// field values; fields wider than their header bits overlap their
    /// neighbours, and only [`PacketView::well_formed`] packets decode again.
    pub fn encode(&self) -> (out: Vec<u8>)
        ensures
            out@ == spec_encode(self@),
            out@.len() == HEADER_SIZE + self@.payload.len(),
    {
        let payload = self.payload.as_ref();
        let mut out: Vec<u8> = match HEADER_SIZE.checked_add(payload.len()) {
            Some(capacity) => Vec::with_capacity(capacity),
            None => Vec::new(),
        };
        let first: u8 = (self.version << 6) | (flag_bit(self.padding) << 5) | (flag_bit(
            self.extension,
        ) << 4) | self.cc;
        let second: u8 = (flag_bit(self.marker) << 7) | self.payload_type;
        out.push(first);
        out.push(second);
        push_be16(&mut out, self.sequence_number);
        push_be32(&mut out, self.timestamp);
        push_be32(&mut out, self.ssrc);
        assert(out@ == spec_header(self@));
        out.extend_from_slice(payload);
        assert(out@ == spec_header(self@) + payload@);
        out
    }

    /// Reads a packet from a datagram.
    ///
    /// Fails with [`PacketError::Size`] on fewer than twelve bytes and with
    /// [`PacketError::Version`] when the top two bits of the first byte are
    /// not [`RTP_VERSION`]. No other header field is checked; every byte after
    /// the header is payload.
    pub fn decode(data: &[u8]) -> (r: Result<RtpPacket, PacketError>)
        ensures
            decoded_view(r) == spec_decode(data@),
            data@.len() < HEADER_SIZE ==> r == Err::<RtpPacket, PacketError>(
                PacketError::Size { len: data.len() },
            ),
            data@.len() >= HEADER_SIZE && data@[0] >> 6 != RTP_VERSION ==> r == Err::<
                RtpPacket,
                PacketError,
            >(PacketError::Version { found: data@[0] >> 6 }),
            data@.len() >= HEADER_SIZE && data@[0] >> 6 == RTP_VERSION ==> r is Ok,
    {
        if data.len() < HEADER_SIZE {
            return Err(PacketError::Size { len: data.len() });
        }
        let version: u8 = data[0] >> 6;
        if version != RTP_VERSION {
            return Err(PacketError::Version { found: version });
        }
        let rest = vstd::slice::slice_subrange(data, HEADER_SIZE, data.len());
        let payload = Bytes::copy_from_slice(rest);
        let packet = RtpPacket {
            version,
            padding: (data[0] >> 5) & 1 == 1,
            extension: (data[0] >> 4) & 1 == 1,
            cc: data[0] & 0x0f,
            marker: (data[1] >> 7) & 1 == 1,
            payload_type: data[1] & 0x7f,
            sequence_number: from_be16(data[2], data[3]),
            timestamp: from_be32(data[4], data[5], data[6], data[7]),
            ssrc: from_be32(data[8], data[9], data[10], data[11]),
            payload,
        };
        assert(packet@.payload == data@.skip(HEADER_SIZE as int));
        Ok(packet)
    }
}

/// The flag and count bits of the first header byte can be read back.
proof fn lemma_first_byte(version: u8, padding: bool, extension: bool, cc: u8)
    requires
        version < 4,
        cc < 16,
    ensures
        spec_first_byte(version, padding, extension, cc) >> 6 == version,
        ((spec_first_byte(version, padding, extension, cc) >> 5) & 1 == 1) == padding,
        ((spec_first_byte(version, padding, extension, cc) >> 4) & 1 == 1) == extension,
        spec_first_byte(version, padding, extension, cc) & 0x0f == cc,
{
    let p = bit(padding);
    let x = bit(extension);
    let b: u8 = (version << 6) | (p << 5) | (x << 4) | cc;
    assert(b >> 6 == version && (b >> 5) & 1 == p && (b >> 4) & 1 == x && b & 0x0f == cc)
        by (bit_vector)
        requires
            b == (version << 6) | (p << 5) | (x << 4) | cc,
            version < 4,
            cc < 16,
            p < 2,
            x < 2,
    ;
}

/// The marker and payload type of the second header byte can be read back.
proof fn lemma_second_byte(marker: bool, payload_type: u8)
    requires
        payload_type < 128,
    ensures
        ((spec_second_byte(marker, payload_type) >> 7) & 1 == 1) == marker,
        spec_second_byte(marker, payload_type) & 0x7f == payload_type,
{
    let m = bit(marker);
    let b: u8 = (m << 7) | payload_type;
    assert((b >> 7) & 1 == m && b & 0x7f == payload_type) by (bit_vector)
        requires
            b == (m << 7) | payload_type,
            payload_type < 128,
            m < 2,
    ;
}

/// A byte is rebuilt from the fields that decoding reads out of it.
proof fn lemma_bytes_rebuilt(first: u8, second: u8)
    ensures
        spec_first_byte(first >> 6, (first >> 5) & 1 == 1, (first >> 4) & 1 == 1, first & 0x0f)
            == first,
        spec_second_byte((second >> 7) & 1 == 1, second & 0x7f) == second,
{
    let p = bit((first >> 5) & 1 == 1);
    let x = bit((first >> 4) & 1 == 1);
    let m = bit((second >> 7) & 1 == 1);
    assert(p == (first >> 5) & 1 && x == (first >> 4) & 1) by {
        assert((first >> 5) & 1 == 0 || (first >> 5) & 1 == 1) by (bit_vector);
        assert((first >> 4) & 1 == 0 || (first >> 4) & 1 == 1) by (bit_vector);
    }
    assert(m == (second >> 7) & 1) by {
        assert((second >> 7) & 1 == 0 || (second >> 7) & 1 == 1) by (bit_vector);
    }
    assert(((first >> 6) << 6) | (p << 5) | (x << 4) | (first & 0x0f) == first) by (bit_vector)
        requires
            p == (first >> 5) & 1,
            x == (first >> 4) & 1,
    ;
    assert((m << 7) | (second & 0x7f) == second) by (bit_vector)
        requires
            m == (second >> 7) & 1,
    ;
}

/// Decoding inverts encoding: the wire form of a well-formed packet decodes
/// to that packet, every header field and every payload byte.
pub proof fn lemma_decode_inverts_encode(p: PacketView)
    requires
        p.well_formed(),
    ensures
        spec_decode(spec_encode(p)) == Ok::<PacketView, PacketError>(p),
{
    let data = spec_encode(p);
    lemma_first_byte(p.version, p.padding, p.extension, p.cc);
    lemma_second_byte(p.marker, p.payload_type);
    assert(data.len() == HEADER_SIZE + p.payload.len());
    assert(data[0] == spec_first_byte(p.version, p.padding, p.extension, p.cc));
    assert(data[1] == spec_second_byte(p.marker, p.payload_type));
    assert(spec_from_be16(data[2], data[3]) == p.sequence_number);
    assert(spec_from_be32(data[4], data[5], data[6], data[7]) == p.timestamp);
    assert(spec_from_be32(data[8], data[9], data[10], data[11]) == p.ssrc);
    assert(data.skip(HEADER_SIZE as int) =~= p.payload);
}

/// Two bytes are the big-endian form of the number they spell.
proof fn lemma_be16_rebuilt(hi: u8, lo: u8)
    ensures
        spec_be16(spec_from_be16(hi, lo)) == seq![hi, lo],
{
    let x = spec_from_be16(hi, lo);
    assert(x == hi * 256 + lo);
    assert(x / 256 == hi && x % 256 == lo);
    assert(spec_be16(x) =~= seq![hi, lo]);
}

/// Four bytes are the big-endian form of the number they spell.
proof fn lemma_be32_rebuilt(b0: u8, b1: u8, b2: u8, b3: u8)
    ensures
        spec_be32(spec_from_be32(b0, b1, b2, b3)) == seq![b0, b1, b2, b3],
{
    let x = spec_from_be32(b0, b1, b2, b3);
    assert(x == b0 * 16777216 + b1 * 65536 + b2 * 256 + b3);
    assert(x / 16777216 == b0);
    assert(x / 65536 == b0 * 256 + b1);
    assert(x / 256 == b0 * 65536 + b1 * 256 + b2);
    assert(x % 256 == b3);
    assert(spec_be32(x) =~= seq![b0, b1, b2, b3]);
}

/// Encoding inverts decoding: a datagram that decodes is the wire form of the
/// packet it decodes to, byte for byte.
pub proof fn lemma_encode_inverts_decode(data: Seq<u8>)
    requires
        spec_decode(data) is Ok,
    ensures
        spec_decode(data)->Ok_0.well_formed(),
        spec_encode(spec_decode(data)->Ok_0) == data,
{
    let p = spec_decode(data)->Ok_0;
    let first = data[0];
    let second = data[1];
    lemma_bytes_rebuilt(first, second);
    assert(first & 0x0f < 16 && second & 0x7f < 128) by (bit_vector);
    lemma_be16_rebuilt(data[2], data[3]);
    lemma_be32_rebuilt(data[4], data[5], data[6], data[7]);
    lemma_be32_rebuilt(data[8], data[9], data[10], data[11]);
    let header = spec_header(p);
    assert(header =~= seq![first, second] + seq![data[2], data[3]] + seq![
        data[4],
        data[5],
        data[6],
        data[7],
    ] + seq![data[8], data[9], data[10], data[11]]);
    assert(header =~= data.take(HEADER_SIZE as int));
    assert(data.take(HEADER_SIZE as int) + data.skip(HEADER_SIZE as int) =~= data);
}

/// A datagram shorter than the header never decodes, whatever it holds.
pub proof fn lemma_short_datagram_rejected(data: Seq<u8>)
    requires
        data.len() < HEADER_SIZE,
    ensures
        spec_decode(data) == Err::<PacketView, PacketError>(
            PacketError::Size { len: data.len() as usize },
        ),
{
}

/// A datagram whose top two bits are not the version never decodes, whatever
/// its other bits hold.
pub proof fn lemma_wrong_version_rejected(data: Seq<u8>)
    requires
        data.len() >= HEADER_SIZE,
        data[0] >> 6 != RTP_VERSION,
    ensures
        spec_decode(data) == Err::<PacketView, PacketError>(
            PacketError::Version { found: data[0] >> 6 },
        ),
{
}

} // verus!
