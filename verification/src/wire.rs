//! Packets as they arrive from the network: bytes in the RTP wire format.
//! The header is read by the `rtp` crate that the transport uses. A header
//! extension, which the receive path has no use for, is cut out first.

use vstd::prelude::*;
use webrtc::util::Unmarshal;
use crate::error::Error;
use crate::packetizer::RtpPacket;

verus! {

/// The length of the fixed part of the header.
pub const FIXED_HEADER: usize = 12;

/// What a packet holds, with its payload as a sequence of bytes.
pub struct WirePacket {
    pub sequence_number: u16,
    pub timestamp: u32,
    pub source_id: u32,
    pub payload_type: u8,
    pub marker: bool,
    pub payload: Seq<u8>,
}

impl RtpPacket {
    /// The packet with its payload as a sequence of bytes.
    pub open spec fn wire(self) -> WirePacket {
        WirePacket {
            sequence_number: self.sequence_number,
            timestamp: self.timestamp,
            source_id: self.source_id,
            payload_type: self.payload_type,
            marker: self.marker,
            payload: self.payload@,
        }
    }
}

/// Whether the header announces an extension: the bit of value 16 in the
/// first byte.
pub open spec fn has_extension(bytes: Seq<u8>) -> bool {
    bytes.len() > 0 && (bytes[0] / 16) % 2 == 1
}

/// The length of the header up to the extension: the fixed part and the
/// contributing sources, whose count stands in the low four bits of the
/// first byte.
pub open spec fn plain_header_len(bytes: Seq<u8>) -> int {
    FIXED_HEADER + 4 * (bytes[0] % 16)
}

/// Where the extension ends: behind its four bytes of profile and length and
/// as many words of four bytes as the length says.
pub open spec fn extension_end(bytes: Seq<u8>) -> int {
    let at = plain_header_len(bytes);
    at + 4 + 4 * (bytes[at + 2] * 256 + bytes[at + 3])
}

/// The datagram without its header extension, if it has one, and with the
/// extension bit cleared. Nothing where the datagram is too short to hold
/// the extension that its header announces.
pub open spec fn without_extension(bytes: Seq<u8>) -> Option<Seq<u8>> {
    if !has_extension(bytes) {
        Some(bytes)
    } else if bytes.len() < plain_header_len(bytes) + 4 || bytes.len() < extension_end(bytes) {
        None
    } else {
        Some(
            seq![(bytes[0] - 16) as u8] + bytes.subrange(1, plain_header_len(bytes)) + bytes.skip(
                extension_end(bytes),
            ),
        )
    }
}

/// The number that two bytes from `at` on spell, the first byte counting
/// most.
pub open spec fn be16(bytes: Seq<u8>, at: int) -> u16 {
    (bytes[at] * 0x100 + bytes[at + 1]) as u16
}

/// The number that four bytes from `at` on spell, the first byte counting
/// most.
pub open spec fn be32(bytes: Seq<u8>, at: int) -> u32 {
    (bytes[at] * 0x100_0000 + bytes[at + 1] * 0x1_0000 + bytes[at + 2] * 0x100 + bytes[at
        + 3]) as u32
}

/// The payload of a datagram without header extension: what follows the
/// header. Where the bit of value 32 in the first byte announces padding,
/// the last byte counts the bytes of padding, itself included, and they are
/// cut off; a datagram that cannot hold them has no payload.
pub open spec fn plain_payload(bytes: Seq<u8>) -> Option<Seq<u8>> {
    let rest = bytes.skip(plain_header_len(bytes));
    if (bytes[0] / 32) % 2 == 0 {
        Some(rest)
    } else if rest.len() == 0 || rest.last() > rest.len() {
        None
    } else {
        Some(rest.take(rest.len() - rest.last()))
    }
}

/// The packet in a datagram without header extension, or nothing where the
/// datagram is too short for its header or for its padding. The second byte
/// holds the marker in its highest bit and the payload type in the others;
/// the sequence number, the timestamp and the source identifier follow.
pub open spec fn plain_packet(bytes: Seq<u8>) -> Option<WirePacket> {
    if bytes.len() < 4 || bytes.len() < plain_header_len(bytes) {
        None
    } else {
        match plain_payload(bytes) {
            Some(payload) => Some(
                WirePacket {
                    sequence_number: be16(bytes, 2),
                    timestamp: be32(bytes, 4),
                    source_id: be32(bytes, 8),
                    payload_type: (bytes[1] % 128) as u8,
                    marker: bytes[1] >= 128,
                    payload,
                },
            ),
            None => None,
        }
    }
}

/// What the receive path reads from a datagram: the packet that is left
/// once the header extension is cut out.
pub open spec fn spec_parse(bytes: Seq<u8>) -> Option<WirePacket> {
    match without_extension(bytes) {
        Some(plain) => plain_packet(plain),
        None => None,
    }
}

/// Calls `rtp::packet::Packet::unmarshal` on the bytes and copies the fields
/// of the packet that the library uses. The contract claims, for every
/// datagram without a header extension, that the call returns and what it
/// returns: the crate refuses a datagram that is shorter than its header,
/// reads the fixed fields from their places, takes the rest as payload, and
/// cuts the padding off where the header announces it.
#[verifier::external_body]
fn unmarshal(bytes: &[u8]) -> (packet: Option<RtpPacket>)
    requires
        !has_extension(bytes@),
    ensures
        match packet {
            Some(p) => plain_packet(bytes@) == Some(p.wire()),
            None => plain_packet(bytes@) is None,
        },
{
    let mut buf = bytes;
    match webrtc::rtp::packet::Packet::unmarshal(&mut buf) {
        Ok(p) => Some(
            RtpPacket {
                sequence_number: p.header.sequence_number,
                timestamp: p.header.timestamp,
                source_id: p.header.ssrc,
                payload_type: p.header.payload_type,
                marker: p.header.marker,
                payload: p.payload.to_vec(),
            },
        ),
        Err(_) => None,
    }
}

/// Copies the bytes from `from` up to `to` to the end of `out`.
fn copy_range(out: &mut Vec<u8>, bytes: &[u8], from: usize, to: usize)
    requires
        from <= to <= bytes@.len(),
    ensures
        final(out)@ == old(out)@ + bytes@.subrange(from as int, to as int),
{
    let mut i: usize = from;
    assert(out@ =~= old(out)@ + bytes@.subrange(from as int, from as int));
    while i < to
        invariant
            from <= i <= to <= bytes@.len(),
            out@ == old(out)@ + bytes@.subrange(from as int, i as int),
        decreases to - i,
    {
        out.push(bytes[i]);
        assert(out@ =~= old(out)@ + bytes@.subrange(from as int, i + 1));
        i += 1;
    }
}

/// Cuts the header extension out of a datagram that has one.
fn strip_extension(bytes: &[u8]) -> (stripped: Option<Vec<u8>>)
    requires
        has_extension(bytes@),
    ensures
        match stripped {
            Some(plain) => without_extension(bytes@) == Some(plain@) && !has_extension(plain@),
            None => without_extension(bytes@) is None,
        },
{
    let length = bytes.len();
    let at: usize = FIXED_HEADER + 4 * ((bytes[0] % 16) as usize);
    if length < at + 4 {
        return None;
    }
    let words: usize = (bytes[at + 2] as usize) * 256 + (bytes[at + 3] as usize);
    let end: usize = at + 4 + 4 * words;
    if length < end {
        return None;
    }
    let mut plain: Vec<u8> = Vec::new();
    plain.push(bytes[0] - 16);
    copy_range(&mut plain, bytes, 1, at);
    copy_range(&mut plain, bytes, end, length);
    assert(bytes@.subrange(end as int, length as int) =~= bytes@.skip(end as int));
    assert(plain@ =~= without_extension(bytes@).unwrap());
    Some(plain)
}

/// Reads one datagram. A datagram that is malformed is refused with
/// `Error::CodecFailure`: it is too short for its header, for the extension
/// that its header announces, or for its padding. The stream goes on with
/// the next datagram.
pub fn parse_packet(bytes: &[u8]) -> (parsed: Result<RtpPacket, Error>)
    ensures
        match parsed {
            Ok(packet) => spec_parse(bytes@) == Some(packet.wire()),
            Err(e) => e == Error::CodecFailure && spec_parse(bytes@) is None,
        },
{
    let packet = if bytes.len() == 0 || (bytes[0] / 16) % 2 == 0 {
        unmarshal(bytes)
    } else {
        match strip_extension(bytes) {
            Some(plain) => unmarshal(plain.as_slice()),
            None => None,
        }
    };
    match packet {
        Some(packet) => Ok(packet),
        None => Err(Error::CodecFailure),
    }
}

} // verus!
