use simple_webrtc::error::Error;
use simple_webrtc::framer::{encoded_frame, OpusFramer};
use simple_webrtc::jitter::{JitterBuffer, MAX_LATE_LIMIT};
use simple_webrtc::media::{
    create_sink_track, create_source_track, pipeline_for, SinkTrack, SourceTrack, PAYLOAD_TYPE,
};
use simple_webrtc::mime::MimeType;
use simple_webrtc::packetizer::{Packetizer, RtpPacket};
use simple_webrtc::playback::SampleQueue;
use simple_webrtc::types::CodecCapability;
use simple_webrtc::wire::parse_packet;

fn packet(seq: u16, byte: u8) -> RtpPacket {
    RtpPacket {
        sequence_number: seq,
        timestamp: seq as u32 * 120,
        source_id: 77,
        payload_type: 98,
        marker: true,
        payload: vec![byte, byte],
    }
}

fn codec(mime: &str) -> CodecCapability {
    CodecCapability { mime_type: mime.to_string(), clock_rate: 48000, channels: 1 }
}

#[test]
fn framer_yields_one_frame_for_120_samples_and_none_for_119() {
    let mut framer = OpusFramer::init(120);
    assert_eq!(framer.frame_size(), 120);
    let mut frames = 0;
    for i in 0..119 {
        if framer.frame(i as i16).is_some() {
            frames += 1;
        }
    }
    assert_eq!(frames, 0);
    assert_eq!(framer.pending_len(), 119);
    let full = framer.frame(119).unwrap();
    assert_eq!(full, (0..120).map(|i| i as i16).collect::<Vec<i16>>());
    assert_eq!(framer.pending_len(), 0);
}

#[test]
fn framer_splits_a_callback_into_frames_and_keeps_the_rest() {
    let mut framer = OpusFramer::init(4);
    let full = framer.frames(&[1, 2, 3, 4, 5, 6, 7, 8, 9, 10]);
    assert_eq!(full, vec![vec![1, 2, 3, 4], vec![5, 6, 7, 8]]);
    assert_eq!(framer.pending_len(), 2);
    let full = framer.frames(&[11, 12, 13]);
    assert_eq!(full, vec![vec![9, 10, 11, 12]]);
    assert_eq!(framer.pending_len(), 1);
    assert!(framer.frames(&[]).is_empty());
}

#[test]
fn framer_with_frame_size_zero_never_yields() {
    let mut framer = OpusFramer::init(0);
    assert_eq!(framer.frame(5), None);
    assert!(framer.frames(&[1, 2, 3]).is_empty());
    assert_eq!(framer.pending_len(), 0);
}

#[test]
fn encoded_frame_takes_the_reported_bytes() {
    let buffer = [9u8, 8, 7, 6];
    assert_eq!(encoded_frame(Ok(3), &buffer), Some(vec![9, 8, 7]));
    assert_eq!(encoded_frame(Ok(0), &buffer), Some(vec![]));
    assert_eq!(encoded_frame(Ok(4), &buffer), Some(vec![9, 8, 7, 6]));
    assert_eq!(encoded_frame(Ok(5), &buffer), None);
    assert_eq!(encoded_frame(Err(Error::CodecFailure), &buffer), None);
}

#[test]
fn packetizer_counts_sequence_and_clock() {
    let mut p = Packetizer::new(252, 98, 0xAABBCCDD, 65535, u32::MAX - 100);
    let first = p.packetize(vec![1, 2, 3], 120);
    assert_eq!(
        first,
        vec![RtpPacket {
            sequence_number: 65535,
            timestamp: u32::MAX - 100,
            source_id: 0xAABBCCDD,
            payload_type: 98,
            marker: true,
            payload: vec![1, 2, 3],
        }]
    );
    assert_eq!(p.next_sequence(), 0);
    assert_eq!(p.timestamp(), 19);
    let second = p.packetize(vec![4], 120);
    assert_eq!(second[0].sequence_number, 0);
    assert_eq!(second[0].timestamp, 19);
    assert_eq!(second[0].source_id, 0xAABBCCDD);
    assert_eq!(p.next_sequence(), 1);
    assert_eq!(p.timestamp(), 139);
    assert_eq!(p.ssrc(), 0xAABBCCDD);
}

#[test]
fn packetizer_gives_no_packet_for_an_empty_frame_or_without_room() {
    let mut p = Packetizer::new(252, 98, 1, 10, 1000);
    assert!(p.packetize(vec![], 120).is_empty());
    assert_eq!(p.next_sequence(), 10);
    assert_eq!(p.timestamp(), 1120);
    let mut tight = Packetizer::new(12, 98, 1, 10, 1000);
    assert!(tight.packetize(vec![1], 120).is_empty());
    assert_eq!(tight.next_sequence(), 10);
    let mut roomy = Packetizer::new(13, 98, 1, 10, 1000);
    assert_eq!(roomy.packetize(vec![1], 120).len(), 1);
}

#[test]
fn random_start_keeps_what_was_asked() {
    let mut p = Packetizer::with_random_start(252, 98);
    let ssrc = p.ssrc();
    let seq = p.next_sequence();
    let clock = p.timestamp();
    let out = p.packetize(vec![5], 120);
    assert_eq!(out.len(), 1);
    assert_eq!(out[0].source_id, ssrc);
    assert_eq!(out[0].sequence_number, seq);
    assert_eq!(out[0].timestamp, clock);
    assert_eq!(out[0].payload_type, 98);
    assert_eq!(p.next_sequence(), seq.wrapping_add(1));
    assert_eq!(p.timestamp(), clock.wrapping_add(120));
}

#[test]
fn source_track_turns_120_samples_into_one_frame_and_one_packet() {
    let mut track = SourceTrack::init(120);
    let samples: Vec<i16> = (0..119).collect();
    assert!(track.capture(&samples).is_empty());
    let frames = track.capture(&[119]);
    assert_eq!(frames.len(), 1);
    assert_eq!(frames[0].len(), 120);
    let compressed = [1u8, 2, 3, 4, 5, 0, 0, 0];
    let packets = track.packets(Ok(5), &compressed);
    assert_eq!(packets.len(), 1);
    assert_eq!(packets[0].payload, vec![1, 2, 3, 4, 5]);
    assert_eq!(packets[0].payload_type, PAYLOAD_TYPE);
    assert!(packets[0].marker);
    let next = track.packets(Ok(2), &compressed);
    assert_eq!(next[0].sequence_number, packets[0].sequence_number.wrapping_add(1));
    assert_eq!(next[0].timestamp, packets[0].timestamp.wrapping_add(120));
    assert_eq!(next[0].source_id, packets[0].source_id);
    assert!(track.packets(Err(Error::CodecFailure), &compressed).is_empty());
    let after = track.packets(Ok(1), &compressed);
    assert_eq!(after[0].sequence_number, next[0].sequence_number.wrapping_add(1));
    assert_eq!(after[0].timestamp, next[0].timestamp.wrapping_add(120));
}

#[test]
fn jitter_buffer_waits_for_older_packets_then_releases_in_order() {
    let mut jb = JitterBuffer::new(2);
    assert!(jb.push(packet(100, 0)));
    assert_eq!(jb.pop(), None);
    assert!(jb.push(packet(101, 1)));
    assert_eq!(jb.pop(), None);
    assert!(jb.push(packet(102, 2)));
    assert_eq!(jb.ready_len(), 3);
    assert_eq!(jb.pop(), Some(packet(100, 0)));
    assert_eq!(jb.pop(), Some(packet(101, 1)));
    assert_eq!(jb.pop(), Some(packet(102, 2)));
    assert_eq!(jb.pop(), None);
    assert_eq!(jb.receive(packet(103, 3)), vec![packet(103, 3)]);
}

#[test]
fn jitter_buffer_reorders_within_the_bound() {
    let mut jb = JitterBuffer::new(2);
    let mut out = Vec::new();
    for seq in [12u16, 10, 11, 13, 15, 14, 16] {
        assert!(jb.push(packet(seq, seq as u8)));
        out.extend(jb.take_ready());
    }
    jb.flush();
    out.extend(jb.take_ready());
    let expected: Vec<RtpPacket> = (10u16..17).map(|s| packet(s, s as u8)).collect();
    assert_eq!(out, expected);
    assert_eq!(jb.dropped(), 0);
}

#[test]
fn round_trip_of_packetized_frames_through_a_permutation() {
    let frames: Vec<Vec<u8>> = (0u8..8).map(|i| vec![i, i + 1, i + 2]).collect();
    let mut packetizer = Packetizer::new(252, 98, 5, 65533, 0);
    let mut packets = Vec::new();
    for frame in &frames {
        packets.extend(packetizer.packetize(frame.clone(), 120));
    }
    assert_eq!(packets.len(), 8);
    let order = [2usize, 0, 1, 3, 5, 4, 7, 6];
    let mut jb = JitterBuffer::new(3);
    let mut out = Vec::new();
    for k in order {
        assert!(jb.push(packets[k].clone()));
        while let Some(frame) = jb.pop() {
            out.push(frame);
        }
    }
    jb.flush();
    while let Some(frame) = jb.pop() {
        out.push(frame);
    }
    assert_eq!(out, packets);
    let payloads: Vec<Vec<u8>> = out.into_iter().map(|p| p.payload).collect();
    assert_eq!(payloads, frames);
}

#[test]
fn late_packet_is_dropped_and_never_appears() {
    let mut jb = JitterBuffer::new(2);
    let mut out = Vec::new();
    for seq in [20u16, 21, 22, 24, 25] {
        assert!(jb.push(packet(seq, seq as u8)));
        out.extend(jb.take_ready());
    }
    assert!(!jb.push(packet(22, 99)));
    assert_eq!(jb.dropped(), 1);
    assert!(!jb.push(packet(19, 98)));
    assert_eq!(jb.dropped(), 2);
    assert!(!jb.push(packet(25, 97)));
    assert_eq!(jb.dropped(), 3);
    out.extend(jb.take_ready());
    assert!(jb.push(packet(23, 23)));
    out.extend(jb.take_ready());
    jb.flush();
    out.extend(jb.take_ready());
    let expected: Vec<RtpPacket> = (20u16..26).map(|s| packet(s, s as u8)).collect();
    assert_eq!(out, expected);
}

#[test]
fn a_gap_is_skipped_once_it_falls_behind_the_bound() {
    let mut jb = JitterBuffer::new(2);
    let mut out = Vec::new();
    for seq in [30u16, 31, 32, 34, 35] {
        jb.push(packet(seq, seq as u8));
        out.extend(jb.take_ready());
    }
    assert_eq!(out.len(), 3);
    assert!(jb.push(packet(36, 36)));
    out.extend(jb.take_ready());
    let seqs: Vec<u16> = out.iter().map(|p| p.sequence_number).collect();
    assert_eq!(seqs, vec![30, 31, 32, 34, 35, 36]);
    assert!(!jb.push(packet(33, 33)));
    assert_eq!(jb.dropped(), 1);
}

#[test]
fn jitter_buffer_follows_the_sequence_across_the_wrap() {
    let mut jb = JitterBuffer::new(1);
    let mut out = Vec::new();
    for seq in [65534u16, 65535, 1, 0, 2] {
        assert!(jb.push(packet(seq, 0)));
        out.extend(jb.take_ready());
    }
    jb.flush();
    out.extend(jb.take_ready());
    let seqs: Vec<u16> = out.iter().map(|p| p.sequence_number).collect();
    assert_eq!(seqs, vec![65534, 65535, 0, 1, 2]);
}

#[test]
fn max_late_is_lowered_to_the_limit() {
    assert_eq!(JitterBuffer::new(480).max_late(), 480);
    assert_eq!(JitterBuffer::new(MAX_LATE_LIMIT).max_late(), MAX_LATE_LIMIT);
    assert_eq!(JitterBuffer::new(u16::MAX).max_late(), MAX_LATE_LIMIT);
    assert_eq!(MAX_LATE_LIMIT, 0x7FFE);
}

#[test]
fn max_late_zero_releases_at_once_and_drops_anything_older() {
    let mut jb = JitterBuffer::new(0);
    assert_eq!(jb.receive(packet(5, 5)), vec![packet(5, 5)]);
    assert_eq!(jb.receive(packet(7, 7)), vec![packet(7, 7)]);
    assert!(jb.receive(packet(6, 6)).is_empty());
    assert_eq!(jb.dropped(), 1);
}

#[test]
fn sample_queue_drops_the_newest_when_full() {
    let mut q = SampleQueue::new(5);
    assert_eq!(q.push_decoded(Ok(3), &[1, 2, 3, 4]), 3);
    assert_eq!(q.len(), 3);
    assert_eq!(q.push_decoded(Ok(4), &[5, 6, 7, 8]), 2);
    assert_eq!(q.len(), 5);
    assert_eq!(q.push_decoded(Ok(1), &[9]), 0);
    assert_eq!(q.render(5), (vec![1, 2, 3, 5, 6], false));
}

#[test]
fn sample_queue_skips_a_failed_frame_and_caps_the_count() {
    let mut q = SampleQueue::new(10);
    assert_eq!(q.push_decoded(Err(Error::CodecFailure), &[1, 2, 3]), 0);
    assert_eq!(q.len(), 0);
    assert_eq!(q.push_decoded(Ok(7), &[1, 2, 3]), 3);
    assert_eq!(q.render(3), (vec![1, 2, 3], false));
}

#[test]
fn render_fills_with_silence_when_the_stream_falls_behind() {
    let mut q = SampleQueue::new(10);
    q.push_decoded(Ok(2), &[4, 5]);
    assert_eq!(q.render(1), (vec![4], false));
    assert_eq!(q.render(3), (vec![5, 0, 0], true));
    assert_eq!(q.render(2), (vec![0, 0], true));
    assert_eq!(q.render(0), (vec![], false));
}

#[test]
fn parse_packet_reads_a_plain_datagram() {
    let bytes = [
        0x80, 0xE2, 0x01, 0x02, 0x00, 0x00, 0x00, 0x64, 0x0A, 0x0B, 0x0C, 0x0D, 1, 2, 3,
    ];
    assert_eq!(
        parse_packet(&bytes),
        Ok(RtpPacket {
            sequence_number: 0x0102,
            timestamp: 100,
            source_id: 0x0A0B0C0D,
            payload_type: 98,
            marker: true,
            payload: vec![1, 2, 3],
        })
    );
}

#[test]
fn parse_packet_cuts_out_a_header_extension() {
    let bytes = [
        0x90, 0x62, 0x00, 0x07, 0x00, 0x00, 0x01, 0x00, 0x00, 0x00, 0x00, 0x2A, 0xBE, 0xDE, 0x00,
        0x01, 0x10, 0xAA, 0x00, 0x00, 9, 8,
    ];
    assert_eq!(
        parse_packet(&bytes),
        Ok(RtpPacket {
            sequence_number: 7,
            timestamp: 256,
            source_id: 42,
            payload_type: 98,
            marker: false,
            payload: vec![9, 8],
        })
    );
}

#[test]
fn parse_packet_skips_contributing_sources() {
    let bytes = [
        0x81, 0x62, 0x00, 0x01, 0x00, 0x00, 0x00, 0x02, 0x00, 0x00, 0x00, 0x03, 0xDE, 0xAD, 0xBE,
        0xEF, 5,
    ];
    let parsed = parse_packet(&bytes).unwrap();
    assert_eq!(parsed.sequence_number, 1);
    assert_eq!(parsed.timestamp, 2);
    assert_eq!(parsed.source_id, 3);
    assert_eq!(parsed.payload, vec![5]);
}

#[test]
fn parse_packet_cuts_off_the_padding() {
    let bytes = [0xA0, 0x62, 0x00, 0x09, 0, 0, 0, 1, 0, 0, 0, 2, 7, 8, 9, 0, 0, 3];
    let parsed = parse_packet(&bytes).unwrap();
    assert_eq!(parsed.sequence_number, 9);
    assert_eq!(parsed.payload, vec![7, 8, 9]);
    let only_padding = [0xA0, 0x62, 0x00, 0x09, 0, 0, 0, 1, 0, 0, 0, 2, 0, 2];
    assert_eq!(parse_packet(&only_padding).unwrap().payload, Vec::<u8>::new());
    let too_much = [0xA0, 0x62, 0x00, 0x09, 0, 0, 0, 1, 0, 0, 0, 2, 7, 3];
    assert_eq!(parse_packet(&too_much), Err(Error::CodecFailure));
    let no_room = [0xA0, 0x62, 0x00, 0x09, 0, 0, 0, 1, 0, 0, 0, 2];
    assert_eq!(parse_packet(&no_room), Err(Error::CodecFailure));
}

#[test]
fn parse_packet_reads_the_fields_from_their_places() {
    let bytes = [0x00, 0x7F, 0xFF, 0xFE, 0x01, 0x02, 0x03, 0x04, 0xF0, 0xE0, 0xD0, 0xC0];
    assert_eq!(
        parse_packet(&bytes),
        Ok(RtpPacket {
            sequence_number: 0xFFFE,
            timestamp: 0x01020304,
            source_id: 0xF0E0D0C0,
            payload_type: 127,
            marker: false,
            payload: vec![],
        })
    );
}

#[test]
fn source_track_keeps_fewer_samples_than_a_frame() {
    let mut track = SourceTrack::init(120);
    let samples: Vec<i16> = (0..250).collect();
    let frames = track.capture(&samples);
    assert_eq!(frames.len(), 2);
    assert_eq!(frames[1][0], 120);
    let frames = track.capture(&samples[..110]);
    assert_eq!(frames.len(), 1);
    assert_eq!(frames[0][..10], samples[240..250]);
    assert_eq!(frames[0][10..], samples[..110]);
}

#[test]
fn parse_packet_refuses_malformed_datagrams() {
    assert_eq!(parse_packet(&[]), Err(Error::CodecFailure));
    assert_eq!(parse_packet(&[0x80, 0x62, 0, 1]), Err(Error::CodecFailure));
    let short_extension = [0x90, 0x62, 0, 1, 0, 0, 0, 2, 0, 0, 0, 3, 0xBE, 0xDE];
    assert_eq!(parse_packet(&short_extension), Err(Error::CodecFailure));
    let long_extension = [0x90, 0x62, 0, 1, 0, 0, 0, 2, 0, 0, 0, 3, 0xBE, 0xDE, 0, 2, 1, 2, 3, 4];
    assert_eq!(parse_packet(&long_extension), Err(Error::CodecFailure));
}

#[test]
fn sink_track_decodes_datagrams_in_order() {
    let mut sink = SinkTrack::init("B".to_string(), 1, 16);
    assert_eq!(sink.get_peer_id(), "B");
    let datagram = |seq: u8, byte: u8| {
        vec![0x80, 0xE2, 0x00, seq, 0, 0, 0, seq, 0, 0, 0, 1, byte]
    };
    let mut frames = Vec::new();
    frames.extend(sink.on_datagram(&datagram(2, 20)));
    frames.extend(sink.on_datagram(&[0x80, 0x00]));
    frames.extend(sink.on_datagram(&datagram(1, 10)));
    frames.extend(sink.on_datagram(&datagram(3, 30)));
    frames.extend(sink.on_packet(RtpPacket {
        sequence_number: 4,
        timestamp: 4,
        source_id: 1,
        payload_type: 98,
        marker: true,
        payload: vec![40],
    }));
    frames.extend(sink.finish());
    let payloads: Vec<Vec<u8>> = frames.into_iter().map(|p| p.payload).collect();
    assert_eq!(payloads, vec![vec![10], vec![20], vec![30], vec![40]]);

    assert_eq!(sink.decoded(Ok(3), &[7, 8, 9, 0]), 3);
    assert_eq!(sink.decoded(Err(Error::CodecFailure), &[1, 1]), 0);
    assert_eq!(sink.render(4), (vec![7, 8, 9, 0], true));
}

#[test]
fn pipelines_exist_for_opus_only() {
    assert_eq!(pipeline_for(&codec("audio/opus")), Ok(MimeType::OPUS));
    let unhandled = |text: &str| Error::UnhandledMimeType { text: text.to_string() };
    let invalid = |text: &str| Error::InvalidMimeType { text: text.to_string() };
    assert_eq!(pipeline_for(&codec("video/VP8")), Err(unhandled("video/VP8")));
    assert_eq!(pipeline_for(&codec("audio/PCMU")), Err(unhandled("audio/PCMU")));
    assert_eq!(pipeline_for(&codec("audio/Opus")), Err(invalid("audio/Opus")));
    assert_eq!(pipeline_for(&codec("")), Err(invalid("")));
    assert_eq!(unhandled("video/VP8").message(), "unhandled mime type: video/VP8");
    assert!(create_source_track(&codec("audio/opus"), 120).is_ok());
    assert_eq!(create_source_track(&codec("video/H264"), 120).err(), Some(unhandled("video/H264")));
    assert_eq!(create_source_track(&codec("x"), 120).err(), Some(invalid("x")));
    let sink = create_sink_track("B".to_string(), &codec("audio/opus"), 480, 4096);
    assert_eq!(sink.ok().map(|s| s.get_peer_id()), Some("B".to_string()));
    assert_eq!(
        create_sink_track("B".to_string(), &codec("video/AV1"), 480, 4096).err(),
        Some(unhandled("video/AV1"))
    );
    assert_eq!(
        create_sink_track("B".to_string(), &codec("audio"), 480, 4096).err(),
        Some(invalid("audio"))
    );
}
