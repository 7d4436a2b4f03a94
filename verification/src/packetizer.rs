//! The packetizer of the send path: each compressed frame leaves as one
//! packet that carries the stream's source identifier, the next sequence
//! number and the sample clock at the start of the frame.

use vstd::prelude::*;

verus! {

/// The bytes that the fixed header of a packet takes from the MTU.
pub const HEADER_SIZE: usize = 12;

/// One media packet.
#[derive(Clone, Debug, PartialEq, Eq)]
pub struct RtpPacket {
    /// Counts the packets of one source, modulo 2^16.
    pub sequence_number: u16,
    /// The sample clock at the first sample of the payload, modulo 2^32.
    pub timestamp: u32,
    /// Identifies the source of the stream.
    pub source_id: u32,
    /// The payload format that the session agreed on.
    pub payload_type: u8,
    /// Set on the last packet of a frame.
    pub marker: bool,
    /// The compressed media.
    pub payload: Vec<u8>,
}

/// Turns the compressed frames of one stream into packets.
pub struct Packetizer {
    mtu: usize,
    payload_type: u8,
    ssrc: u32,
    next_sequence: u16,
    timestamp: u32,
}

/// The state of a packetizer.
pub struct PacketizerModel {
    /// The largest packet that the path carries, header included.
    pub mtu: nat,
    pub payload_type: u8,
    /// The source identifier of the stream.
    pub ssrc: u32,
    /// The sequence number of the next packet.
    pub next_sequence: u16,
    /// The sample clock at the start of the next frame.
    pub timestamp: u32,
}

impl PacketizerModel {
    /// Whether a frame leaves as a packet: it holds at least one byte and
    /// the MTU leaves room behind the header.
    pub open spec fn carries(self, payload: Seq<u8>) -> bool {
        payload.len() > 0 && self.mtu > HEADER_SIZE
    }

    /// The packet that carries `payload` in this state.
    pub open spec fn packet_for(self, payload: Vec<u8>) -> RtpPacket {
        RtpPacket {
            sequence_number: self.next_sequence,
            timestamp: self.timestamp,
            source_id: self.ssrc,
            payload_type: self.payload_type,
            marker: true,
            payload,
        }
    }

    /// The packets of one frame: one packet if the frame leaves as a packet,
    /// and none otherwise.
    pub open spec fn packets(self, payload: Vec<u8>) -> Seq<RtpPacket> {
        if self.carries(payload@) {
            seq![self.packet_for(payload)]
        } else {
            Seq::empty()
        }
    }

    /// The state after all of `frames`, each of `samples` samples.
    pub open spec fn after_all(self, frames: Seq<Vec<u8>>, samples: u32) -> PacketizerModel
        decreases frames.len(),
    {
        if frames.len() == 0 {
            self
        } else {
            self.after_all(frames.drop_last(), samples).after(frames.last()@, samples)
        }
    }

    /// The packets of all of `frames`, in order.
    pub open spec fn stream(self, frames: Seq<Vec<u8>>, samples: u32) -> Seq<RtpPacket>
        decreases frames.len(),
    {
        if frames.len() == 0 {
            Seq::empty()
        } else {
            self.stream(frames.drop_last(), samples) + self.after_all(
                frames.drop_last(),
                samples,
            ).packets(frames.last())
        }
    }

    /// The state after a frame of `samples` samples. The clock advances by
    /// the samples of the frame in any case; the sequence number advances by
    /// one if the frame left as a packet.
    pub open spec fn after(self, payload: Seq<u8>, samples: u32) -> PacketizerModel {
        PacketizerModel {
            next_sequence: if self.carries(payload) {
                self.next_sequence.wrapping_add(1)
            } else {
                self.next_sequence
            },
            timestamp: self.timestamp.wrapping_add(samples),
            ..self
        }
    }
}

impl View for Packetizer {
    type V = PacketizerModel;

    closed spec fn view(&self) -> PacketizerModel {
        PacketizerModel {
            mtu: self.mtu as nat,
            payload_type: self.payload_type,
            ssrc: self.ssrc,
            next_sequence: self.next_sequence,
            timestamp: self.timestamp,
        }
    }
}

/// Calls `rand::random` for a `u32`. Nothing is promised of the value: any
/// one may come back, and two calls may differ.
#[verifier::external_body]
fn random_u32() -> (value: u32) {
    rand::random::<u32>()
}

impl Packetizer {
    /// A packetizer that starts at the given sequence number and clock.
    pub fn new(mtu: usize, payload_type: u8, ssrc: u32, first_sequence: u16, timestamp: u32) -> (p:
        Packetizer)
        ensures
            p@ == (PacketizerModel {
                mtu: mtu as nat,
                payload_type,
                ssrc,
                next_sequence: first_sequence,
                timestamp,
            }),
    {
        Packetizer { mtu, payload_type, ssrc, next_sequence: first_sequence, timestamp }
    }

    /// A packetizer for a new stream: the source identifier, the first
    /// sequence number and the first timestamp are drawn at random, once.
    pub fn with_random_start(mtu: usize, payload_type: u8) -> (p: Packetizer)
        ensures
            p@.mtu == mtu,
            p@.payload_type == payload_type,
    {
        let ssrc = random_u32();
        let first_sequence = (random_u32() % 65536) as u16;
        let timestamp = random_u32();
        Packetizer::new(mtu, payload_type, ssrc, first_sequence, timestamp)
    }

    /// The source identifier of the stream.
    pub fn ssrc(&self) -> (ssrc: u32)
        ensures
            ssrc == self@.ssrc,
    {
        self.ssrc
    }

    /// The sequence number of the next packet.
    pub fn next_sequence(&self) -> (sequence: u16)
        ensures
            sequence == self@.next_sequence,
    {
        self.next_sequence
    }

    /// The sample clock at the start of the next frame.
    pub fn timestamp(&self) -> (timestamp: u32)
        ensures
            timestamp == self@.timestamp,
    {
        self.timestamp
    }

    /// Wraps one compressed frame of `samples` samples. A frame of at least
    /// one byte leaves as exactly one packet, which is the last of its frame
    /// and so has the marker set, provided that the MTU leaves room behind
    /// the header. An empty frame, or an MTU without room, gives no packet.
    /// The frame is not split.
    pub fn packetize(&mut self, payload: Vec<u8>, samples: u32) -> (packets: Vec<RtpPacket>)
        ensures
            final(self)@ == old(self)@.after(payload@, samples),
            packets@ == old(self)@.packets(payload),
    {
        let mut packets: Vec<RtpPacket> = Vec::new();
        if payload.len() > 0 && self.mtu > HEADER_SIZE {
            packets.push(
                RtpPacket {
                    sequence_number: self.next_sequence,
                    timestamp: self.timestamp,
                    source_id: self.ssrc,
                    payload_type: self.payload_type,
                    marker: true,
                    payload,
                },
            );
            self.next_sequence = self.next_sequence.wrapping_add(1);
        }
        self.timestamp = self.timestamp.wrapping_add(samples);
        packets
    }
}

} // verus!
