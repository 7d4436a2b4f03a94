//! The two media pipelines. A source track takes raw samples from a capture
//! device and turns them into packets for the transport; a sink track takes
//! datagrams from the transport and turns them into samples for a playback
//! device. The encoder, the decoder and the devices belong to the driver:
//! the pipelines hand it the frames to encode or decode and take what it
//! made of them.

use vstd::prelude::*;
use crate::error::Error;
use crate::framer::{encoded_frame, frame_views, OpusFramer};
use crate::jitter::{JitterBuffer, JitterModel};
use crate::mime::MimeType;
use crate::packetizer::{Packetizer, PacketizerModel, RtpPacket};
use crate::playback::{decoded_samples, rendered, SampleQueue};
use crate::types::{CodecCapability, PeerId};
use crate::wire::{parse_packet, spec_parse};

verus! {

/// The payload type that the source track writes into its packets.
pub const PAYLOAD_TYPE: u8 = 98;

/// The largest packet of a source track whose frames have `frame_size`
/// samples: two bytes for each sample and the header.
pub open spec fn spec_mtu(frame_size: u32) -> nat {
    let wanted = frame_size * 2 + 12;
    if wanted <= usize::MAX {
        wanted as nat
    } else {
        usize::MAX as nat
    }
}

/// The pipeline that a codec has. Only Opus has one. The text of a known
/// codec without a pipeline is refused with `Error::UnhandledMimeType`, any
/// other text with `Error::InvalidMimeType`; both carry the text.
pub open spec fn spec_pipeline(mime_type: String) -> Result<MimeType, Error> {
    match MimeType::spec_from_text(mime_type@) {
        Some(MimeType::OPUS) => Ok(MimeType::OPUS),
        Some(_) => Err(Error::UnhandledMimeType { text: mime_type }),
        None => Err(Error::InvalidMimeType { text: mime_type }),
    }
}

/// Looks up the pipeline of a codec.
pub fn pipeline_for(codec: &CodecCapability) -> (pipeline: Result<MimeType, Error>)
    ensures
        pipeline == spec_pipeline(codec.mime_type),
{
    match MimeType::from_string(codec.mime_type.as_str()) {
        Ok(MimeType::OPUS) => Ok(MimeType::OPUS),
        Ok(_) => Err(Error::UnhandledMimeType { text: codec.mime_type.clone() }),
        Err(_) => Err(Error::InvalidMimeType { text: codec.mime_type.clone() }),
    }
}

/// The send path of one local media source.
pub struct SourceTrack {
    framer: OpusFramer,
    packetizer: Packetizer,
    frame_size: u32,
}

impl SourceTrack {
    /// The number of samples in a frame.
    pub closed spec fn spec_frame_size(&self) -> u32 {
        self.frame_size
    }

    /// The samples that wait for their frame to fill.
    pub closed spec fn pending(&self) -> Seq<i16> {
        self.framer.pending()
    }

    /// The state of the packetizer.
    pub closed spec fn packetizer(&self) -> PacketizerModel {
        self.packetizer@
    }

    /// Validity: fewer samples wait than make a frame.
    pub closed spec fn wf(&self) -> bool {
        &&& self.framer.wf()
        &&& self.framer.spec_frame_size() == self.frame_size
    }

    /// A source track for frames of `frame_size` samples. Nothing is pending;
    /// the identifier of the stream, its first sequence number and its first
    /// timestamp are drawn at random.
    pub fn init(frame_size: u32) -> (track: SourceTrack)
        ensures
            track.wf(),
            track.spec_frame_size() == frame_size,
            track.pending() == Seq::<i16>::empty(),
            track.packetizer().mtu == spec_mtu(frame_size),
            track.packetizer().payload_type == PAYLOAD_TYPE,
    {
        let wanted: u64 = frame_size as u64 * 2 + 12;
        let mtu: usize = if wanted <= usize::MAX as u64 {
            wanted as usize
        } else {
            usize::MAX
        };
        SourceTrack {
            framer: OpusFramer::init(frame_size as usize),
            packetizer: Packetizer::with_random_start(mtu, PAYLOAD_TYPE),
            frame_size,
        }
    }

    /// Takes the samples of one capture callback and returns the frames that
    /// they complete, each to be encoded. Together with what stays pending
    /// the frames hold exactly the samples that were pending followed by
    /// `data`.
    pub fn capture(&mut self, data: &[i16]) -> (full: Vec<Vec<i16>>)
        requires
            old(self).wf(),
        ensures
            final(self).wf(),
            final(self).spec_frame_size() == old(self).spec_frame_size(),
            final(self).packetizer() == old(self).packetizer(),
            forall|k: int|
                0 <= k < full.len() ==> (#[trigger] full@[k]).len() == old(self).spec_frame_size(),
            old(self).spec_frame_size() > 0 ==> frame_views(full@).flatten()
                + final(self).pending() == old(self).pending() + data@,
            old(self).spec_frame_size() > 0 ==> final(self).pending().len()
                < old(self).spec_frame_size(),
            old(self).spec_frame_size() > 0 ==> full.len() * old(self).spec_frame_size()
                + final(self).pending().len() == old(self).pending().len() + data@.len(),
            old(self).spec_frame_size() == 0 ==> full@.len() == 0
                && final(self).pending().len() == 0,
    {
        self.framer.frames(data)
    }

    /// Takes what the encoder made of one frame and returns the packets to
    /// send. An encoded frame of at least one byte leaves as one packet, with
    /// the sequence number and the timestamp of the stream, which then moves
    /// on by one packet and by the samples of a frame. A frame that the
    /// encoder failed on leaves no packet and moves nothing.
    pub fn packets(&mut self, outcome: Result<usize, Error>, buffer: &[u8]) -> (packets: Vec<
        RtpPacket,
    >)
        requires
            old(self).wf(),
        ensures
            final(self).wf(),
            final(self).spec_frame_size() == old(self).spec_frame_size(),
            final(self).pending() == old(self).pending(),
            match spec_encoded(outcome, buffer@) {
                Some(bytes) => {
                    &&& final(self).packetizer() == old(self).packetizer().after(
                        bytes,
                        old(self).spec_frame_size(),
                    )
                    &&& packets.len() == if old(self).packetizer().carries(bytes) {
                        1nat
                    } else {
                        0nat
                    }
                    &&& packets.len() == 1 ==> packets[0].wire() == (crate::wire::WirePacket {
                        sequence_number: old(self).packetizer().next_sequence,
                        timestamp: old(self).packetizer().timestamp,
                        source_id: old(self).packetizer().ssrc,
                        payload_type: old(self).packetizer().payload_type,
                        marker: true,
                        payload: bytes,
                    })
                },
                None => {
                    &&& final(self).packetizer() == old(self).packetizer()
                    &&& packets.len() == 0
                },
            },
    {
        match encoded_frame(outcome, buffer) {
            Some(bytes) => self.packetizer.packetize(bytes, self.frame_size),
            None => Vec::new(),
        }
    }
}

/// The compressed frame that the encoder left in `buffer`, if it did not
/// fail: the bytes that it reports to have written.
pub open spec fn spec_encoded(outcome: Result<usize, Error>, buffer: Seq<u8>) -> Option<Seq<u8>> {
    match outcome {
        Ok(size) => if size <= buffer.len() {
            Some(buffer.take(size as int))
        } else {
            None
        },
        Err(_) => None,
    }
}

/// The receive path of one remote media track.
pub struct SinkTrack {
    peer_id: PeerId,
    jitter: JitterBuffer,
    queue: SampleQueue,
}

impl SinkTrack {
    /// The peer that sends the track.
    pub closed spec fn spec_peer_id(&self) -> PeerId {
        self.peer_id
    }

    /// The state of the jitter buffer.
    pub closed spec fn jitter(&self) -> JitterModel {
        self.jitter@
    }

    /// The decoded samples that wait for the device.
    pub closed spec fn waiting(&self) -> Seq<i16> {
        self.queue.waiting()
    }

    /// The most decoded samples that wait for the device.
    pub closed spec fn capacity(&self) -> nat {
        self.queue.spec_capacity()
    }

    /// Validity of the jitter buffer and of the queue.
    pub closed spec fn wf(&self) -> bool {
        self.jitter@.wf() && self.queue.wf()
    }

    /// A sink track for a track of `peer_id`, with a jitter buffer that
    /// tolerates `max_late` packets and a queue of `capacity` samples.
    pub fn init(peer_id: PeerId, max_late: u16, capacity: usize) -> (track: SinkTrack)
        ensures
            track.wf(),
            track.spec_peer_id() == peer_id,
            track.jitter() == JitterModel::start(max_late),
            track.waiting() == Seq::<i16>::empty(),
            track.capacity() == capacity,
    {
        SinkTrack {
            peer_id,
            jitter: JitterBuffer::new(max_late),
            queue: SampleQueue::new(capacity),
        }
    }

    /// The peer that sends the track.
    pub fn get_peer_id(&self) -> (peer_id: PeerId)
        ensures
            peer_id == self.spec_peer_id(),
    {
        self.peer_id.clone()
    }

    /// Takes one datagram of the track and returns the frames that it lets
    /// leave the jitter buffer, in order, each to be decoded. A malformed
    /// datagram changes nothing and gives no frame.
    pub fn on_datagram(&mut self, bytes: &[u8]) -> (frames: Vec<RtpPacket>)
        requires
            old(self).wf(),
        ensures
            final(self).wf(),
            final(self).spec_peer_id() == old(self).spec_peer_id(),
            final(self).waiting() == old(self).waiting(),
            final(self).capacity() == old(self).capacity(),
            match spec_parse(bytes@) {
                Some(wire) => exists|packet: RtpPacket|
                    {
                        &&& #[trigger] packet.wire() == wire
                        &&& final(self).jitter() == (JitterModel {
                            ready: Seq::empty(),
                            ..old(self).jitter().push(packet)
                        })
                        &&& frames@ == old(self).jitter().push(packet).ready
                    },
                None => final(self).jitter() == old(self).jitter() && frames@.len() == 0,
            },
    {
        match parse_packet(bytes) {
            Ok(packet) => {
                let frames = self.jitter.receive(packet);
                assert(packet.wire() == spec_parse(bytes@).unwrap());
                frames
            },
            Err(_) => Vec::new(),
        }
    }

    /// Takes a packet that the transport has read already and returns the
    /// frames that it lets leave the jitter buffer, in order.
    pub fn on_packet(&mut self, packet: RtpPacket) -> (frames: Vec<RtpPacket>)
        requires
            old(self).wf(),
        ensures
            final(self).wf(),
            final(self).spec_peer_id() == old(self).spec_peer_id(),
            final(self).waiting() == old(self).waiting(),
            final(self).capacity() == old(self).capacity(),
            final(self).jitter() == (JitterModel {
                ready: Seq::empty(),
                ..old(self).jitter().push(packet)
            }),
            frames@ == old(self).jitter().push(packet).ready,
    {
        self.jitter.receive(packet)
    }

    /// Ends the stream and returns the frames that were still in the jitter
    /// buffer, in order.
    pub fn finish(&mut self) -> (frames: Vec<RtpPacket>)
        requires
            old(self).wf(),
        ensures
            final(self).wf(),
            final(self).spec_peer_id() == old(self).spec_peer_id(),
            final(self).waiting() == old(self).waiting(),
            final(self).capacity() == old(self).capacity(),
            final(self).jitter() == (JitterModel {
                ready: Seq::empty(),
                ..old(self).jitter().flush()
            }),
            frames@ == old(self).jitter().flush().ready,
    {
        self.jitter.flush();
        self.jitter.take_ready()
    }

    /// Takes what the decoder made of one frame and queues the samples for
    /// the device, as far as the queue has room. Returns how many were
    /// queued. A frame that the decoder failed on is skipped.
    pub fn decoded(&mut self, outcome: Result<usize, Error>, buffer: &[i16]) -> (queued: usize)
        requires
            old(self).wf(),
        ensures
            final(self).wf(),
            final(self).spec_peer_id() == old(self).spec_peer_id(),
            final(self).jitter() == old(self).jitter(),
            final(self).capacity() == old(self).capacity(),
            queued == vstd::math::min(
                decoded_samples(outcome, buffer@).len() as int,
                old(self).capacity() - old(self).waiting().len(),
            ),
            final(self).waiting() == old(self).waiting() + decoded_samples(outcome, buffer@).take(
                queued as int,
            ),
    {
        self.queue.push_decoded(outcome, buffer)
    }

    /// Hands the playback device its next `count` samples, with silence
    /// where the stream fell behind, and tells whether it did.
    pub fn render(&mut self, count: usize) -> (out: (Vec<i16>, bool))
        requires
            old(self).wf(),
        ensures
            final(self).wf(),
            final(self).spec_peer_id() == old(self).spec_peer_id(),
            final(self).jitter() == old(self).jitter(),
            final(self).capacity() == old(self).capacity(),
            out.0@ == rendered(old(self).waiting(), count as nat),
            out.1 == (count > old(self).waiting().len()),
            final(self).waiting() == old(self).waiting().skip(
                vstd::math::min(count as int, old(self).waiting().len() as int),
            ),
    {
        self.queue.render(count)
    }
}

/// Makes the send path of a media source with this codec and frames of
/// `frame_size` samples, where the codec has a pipeline.
pub fn create_source_track(codec: &CodecCapability, frame_size: u32) -> (track: Result<
    SourceTrack,
    Error,
>)
    ensures
        match track {
            Ok(source) => {
                &&& spec_pipeline(codec.mime_type) is Ok
                &&& source.wf()
                &&& source.spec_frame_size() == frame_size
                &&& source.pending() == Seq::<i16>::empty()
                &&& source.packetizer().mtu == spec_mtu(frame_size)
                &&& source.packetizer().payload_type == PAYLOAD_TYPE
            },
            Err(e) => spec_pipeline(codec.mime_type) == Err::<MimeType, Error>(e),
        },
{
    match pipeline_for(codec) {
        Ok(_) => Ok(SourceTrack::init(frame_size)),
        Err(e) => Err(e),
    }
}

/// Makes the receive path of a remote track of `peer_id` with this codec,
/// where the codec has a pipeline.
pub fn create_sink_track(
    peer_id: PeerId,
    codec: &CodecCapability,
    max_late: u16,
    capacity: usize,
) -> (track: Result<SinkTrack, Error>)
    ensures
        match track {
            Ok(sink) => {
                &&& spec_pipeline(codec.mime_type) is Ok
                &&& sink.wf()
                &&& sink.spec_peer_id() == peer_id
                &&& sink.jitter() == JitterModel::start(max_late)
                &&& sink.waiting() == Seq::<i16>::empty()
                &&& sink.capacity() == capacity
            },
            Err(e) => spec_pipeline(codec.mime_type) == Err::<MimeType, Error>(e),
        },
{
    match pipeline_for(codec) {
        Ok(_) => Ok(SinkTrack::init(peer_id, max_late, capacity)),
        Err(e) => Err(e),
    }
}

} // verus!
