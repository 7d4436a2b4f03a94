use simple_webrtc::background::{run, Handled, InternalCmd, SimpleWebRtc, SimpleWebRtcInit};
use simple_webrtc::call::{
    CallConfig, MediaCodec, MediaSource, MediaType, TrackDescription, TrackKey,
};
use simple_webrtc::controller::{Controller, InitArgs};
use simple_webrtc::error::Error;
use simple_webrtc::events::{Action, EmittedEvents};
use simple_webrtc::mime::MimeType;
use simple_webrtc::packetizer::RtpPacket;
use simple_webrtc::signaling::{
    handle_events, handle_signals, remote_handler, route_of, send_connect, send_disconnect,
    send_ice_candidate, send_sdp, send_signal, EventHandling, Outgoing, Payload, PayloadKind,
    PeerSignal, Reply, Route, SigIce, SigSdp, STATUS_BAD_REQUEST, STATUS_NOT_FOUND, STATUS_OK,
};
use simple_webrtc::text::same_text;
use simple_webrtc::types::{
    CodecCapability, IceCandidate, IceCandidateType, IceProtocol, IncomingTrack, PeerState,
    SdpType, SessionDescription,
};
use simple_webrtc::worker::{MediaWorker, MediaWorkerCommands, WorkerInput, WorkerStep};

fn id(s: &str) -> String {
    s.to_string()
}

fn offer() -> SessionDescription {
    SessionDescription { sdp_type: SdpType::Offer, sdp: "v=0".to_string() }
}

fn sig_sdp() -> SigSdp {
    SigSdp { src: id("B"), sdp: offer() }
}

fn candidate() -> IceCandidate {
    IceCandidate {
        stats_id: String::new(),
        foundation: "1".to_string(),
        priority: 1,
        address: "198.51.100.7".to_string(),
        protocol: IceProtocol::Tcp,
        port: 9,
        typ: IceCandidateType::Relay,
        component: 1,
        related_address: "198.51.100.1".to_string(),
        related_port: 3478,
        tcp_type: "passive".to_string(),
    }
}

fn sig_ice() -> SigIce {
    SigIce { src: id("B"), ice: candidate() }
}

const ALL_MIME: [(MimeType, &str); 8] = [
    (MimeType::H264, "video/H264"),
    (MimeType::VP8, "video/VP8"),
    (MimeType::VP9, "video/VP9"),
    (MimeType::AV1, "video/AV1"),
    (MimeType::OPUS, "audio/opus"),
    (MimeType::G722, "audio/G722"),
    (MimeType::PCMU, "audio/PCMU"),
    (MimeType::PCMA, "audio/PCMA"),
];

#[test]
fn mime_types_round_trip_through_their_text() {
    for (mime, text) in ALL_MIME {
        assert_eq!(mime.as_str(), text);
        assert_eq!(mime.to_string(), text);
        assert_eq!(MimeType::from_string(text), Ok(mime));
        assert_eq!(MimeType::from_string(&mime.to_string()), Ok(mime));
    }
}

#[test]
fn unknown_mime_text_is_refused() {
    for text in ["", "audio/Opus", "video/h264", "audio/opus ", "opus", "video/VP10"] {
        assert_eq!(
            MimeType::from_string(text),
            Err(Error::InvalidMimeType { text: text.to_string() })
        );
    }
    let refused = MimeType::from_string("opus").unwrap_err();
    assert_eq!(refused.message(), "invalid mime type: opus");
}

#[test]
fn every_error_has_its_message() {
    assert_eq!(Error::PeerNotFound.message(), "peer not found");
    assert_eq!(Error::PeerAlreadyExists.message(), "peer already exists");
    assert_eq!(Error::DuplicateSourceId.message(), "duplicate media source id");
    assert_eq!(Error::TransportFailure.message(), "transport failure");
    assert_eq!(Error::CodecFailure.message(), "codec failure");
    assert_eq!(Error::ChannelClosed.message(), "channel closed");
    assert_eq!(
        Error::InvalidMimeType { text: id("speex") }.message(),
        "invalid mime type: speex"
    );
    assert_eq!(Error::InvalidMimeType { text: id("") }.message(), "invalid mime type: ");
    assert_eq!(
        Error::UnhandledMimeType { text: id("video/VP8") }.message(),
        "unhandled mime type: video/VP8"
    );
}

#[test]
fn texts_compare_by_their_characters() {
    assert!(same_text("abc", "abc"));
    assert!(!same_text("abc", "abd"));
    assert!(!same_text("abc", "ab"));
    assert!(same_text("", ""));
    assert!(!same_text("peer", "Peer"));
}

#[test]
fn routes_are_found_from_post_paths_only() {
    assert_eq!(route_of(true, "/connect"), Some(Route::Connect));
    assert_eq!(route_of(true, "/disconnect"), Some(Route::Disconnect));
    assert_eq!(route_of(true, "/sdp"), Some(Route::Sdp));
    assert_eq!(route_of(true, "/ice-candidate"), Some(Route::IceCandidate));
    assert_eq!(route_of(true, "/reject"), Some(Route::Reject));
    assert_eq!(route_of(true, "/"), None);
    assert_eq!(route_of(true, "connect"), None);
    assert_eq!(route_of(true, "/Connect"), None);
    assert_eq!(route_of(true, "/connect/"), None);
    assert_eq!(route_of(false, "/connect"), None);
    assert_eq!(route_of(false, "/sdp"), None);
}

#[test]
fn routes_have_names_and_expected_payloads() {
    assert_eq!(Route::Connect.name(), "connect");
    assert_eq!(Route::Disconnect.name(), "disconnect");
    assert_eq!(Route::Sdp.name(), "sdp");
    assert_eq!(Route::IceCandidate.name(), "ice-candidate");
    assert_eq!(Route::Reject.name(), "reject");
    assert_eq!(Route::Connect.expects(), PayloadKind::Sdp);
    assert_eq!(Route::Sdp.expects(), PayloadKind::Sdp);
    assert_eq!(Route::IceCandidate.expects(), PayloadKind::Ice);
    assert_eq!(Route::Disconnect.expects(), PayloadKind::Text);
    assert_eq!(Route::Reject.expects(), PayloadKind::Text);
}

#[test]
fn remote_handler_turns_requests_into_signals() {
    let ok = |signal: PeerSignal| Reply { status: STATUS_OK, signal: Some(signal) };
    assert_eq!(
        remote_handler(Some(Route::Connect), Some(Payload::Sdp(sig_sdp()))),
        ok(PeerSignal::CallInitiated(sig_sdp()))
    );
    assert_eq!(
        remote_handler(Some(Route::Sdp), Some(Payload::Sdp(sig_sdp()))),
        ok(PeerSignal::Sdp(sig_sdp()))
    );
    assert_eq!(
        remote_handler(Some(Route::IceCandidate), Some(Payload::Ice(sig_ice()))),
        ok(PeerSignal::Ice(sig_ice()))
    );
    assert_eq!(
        remote_handler(Some(Route::Disconnect), Some(Payload::Text(id("B")))),
        ok(PeerSignal::CallTerminated(id("B")))
    );
    assert_eq!(
        remote_handler(Some(Route::Reject), Some(Payload::Text(id("B")))),
        ok(PeerSignal::CallRejected(id("B")))
    );
}

#[test]
fn remote_handler_refuses_what_it_cannot_read() {
    let bad = Reply { status: STATUS_BAD_REQUEST, signal: None };
    let missing = Reply { status: STATUS_NOT_FOUND, signal: None };
    assert_eq!(STATUS_OK, 200);
    assert_eq!(STATUS_BAD_REQUEST, 400);
    assert_eq!(STATUS_NOT_FOUND, 404);
    for route in [Route::Connect, Route::Disconnect, Route::Sdp, Route::IceCandidate, Route::Reject]
    {
        assert_eq!(remote_handler(Some(route), None), bad);
    }
    assert_eq!(remote_handler(Some(Route::Connect), Some(Payload::Text(id("B")))), bad);
    assert_eq!(remote_handler(Some(Route::Connect), Some(Payload::Ice(sig_ice()))), bad);
    assert_eq!(remote_handler(Some(Route::Sdp), Some(Payload::Ice(sig_ice()))), bad);
    assert_eq!(remote_handler(Some(Route::IceCandidate), Some(Payload::Sdp(sig_sdp()))), bad);
    assert_eq!(remote_handler(Some(Route::Disconnect), Some(Payload::Sdp(sig_sdp()))), bad);
    assert_eq!(remote_handler(Some(Route::Reject), Some(Payload::Ice(sig_ice()))), bad);
    assert_eq!(remote_handler(None, None), missing);
    assert_eq!(remote_handler(None, Some(Payload::Text(id("B")))), missing);
}

#[test]
fn requests_are_addressed_to_the_route_of_the_remote_host() {
    assert_eq!(
        send_signal("127.0.0.1:8080", Route::Reject, Payload::Text(id("A"))),
        Outgoing { url: id("http://127.0.0.1:8080/reject"), payload: Payload::Text(id("A")) }
    );
    assert_eq!(
        send_connect("host:1", sig_sdp()),
        Outgoing { url: id("http://host:1/connect"), payload: Payload::Sdp(sig_sdp()) }
    );
    assert_eq!(
        send_sdp("host:1", sig_sdp()),
        Outgoing { url: id("http://host:1/sdp"), payload: Payload::Sdp(sig_sdp()) }
    );
    assert_eq!(
        send_ice_candidate("host:1", sig_ice()),
        Outgoing { url: id("http://host:1/ice-candidate"), payload: Payload::Ice(sig_ice()) }
    );
    assert_eq!(
        send_disconnect("host:1", "A"),
        Outgoing { url: id("http://host:1/disconnect"), payload: Payload::Text(id("A")) }
    );
}

#[test]
fn events_travel_on_their_routes_signed_with_the_local_address() {
    let local = id("A");
    let signed = SigSdp { src: id("A"), sdp: offer() };
    assert_eq!(
        handle_events(&local, EmittedEvents::CallInitiated { dest: id("B"), sdp: offer() }),
        EventHandling::Send {
            dest: id("B"),
            route: Route::Connect,
            payload: Payload::Sdp(signed.clone()),
        }
    );
    assert_eq!(
        handle_events(&local, EmittedEvents::Sdp { dest: id("B"), sdp: offer() }),
        EventHandling::Send { dest: id("B"), route: Route::Sdp, payload: Payload::Sdp(signed) }
    );
    assert_eq!(
        handle_events(&local, EmittedEvents::Ice { dest: id("B"), candidate: candidate() }),
        EventHandling::Send {
            dest: id("B"),
            route: Route::IceCandidate,
            payload: Payload::Ice(SigIce { src: id("A"), ice: candidate() }),
        }
    );
    assert_eq!(
        handle_events(&local, EmittedEvents::Disconnected { peer: id("B") }),
        EventHandling::HangUp { peer: id("B") }
    );
}

#[test]
fn new_tracks_get_a_sink_if_their_codec_is_opus() {
    let local = id("A");
    let track = |mime: &str| IncomingTrack {
        handle: 1,
        codec: CodecCapability { mime_type: mime.to_string(), clock_rate: 48000, channels: 2 },
    };
    assert_eq!(
        handle_events(&local, EmittedEvents::TrackAdded { peer: id("B"), track: track("audio/opus") }),
        EventHandling::OpenSink { peer: id("B"), track: track("audio/opus") }
    );
    assert_eq!(
        handle_events(&local, EmittedEvents::TrackAdded { peer: id("B"), track: track("video/VP9") }),
        EventHandling::Unhandled { peer: id("B"), track: track("video/VP9") }
    );
    assert_eq!(
        handle_events(&local, EmittedEvents::TrackAdded { peer: id("B"), track: track("speex") }),
        EventHandling::Stop { error: Error::InvalidMimeType { text: id("speex") } }
    );
}

#[test]
fn signals_become_calls_on_the_controller() {
    let mut c = Controller::init(InitArgs { id: id("A") });
    assert!(handle_signals(&mut c, PeerSignal::Ice(sig_ice())).is_empty());
    assert!(handle_signals(&mut c, PeerSignal::Sdp(sig_sdp())).is_empty());
    let actions = handle_signals(&mut c, PeerSignal::CallInitiated(sig_sdp()));
    assert_eq!(
        actions,
        vec![
            Action::CreateTransport { peer: id("B") },
            Action::AcceptOffer { peer: id("B"), sdp: offer() },
            Action::CreateAnswer { peer: id("B") },
        ]
    );
    assert_eq!(c.peer_state(&id("B")), Some(PeerState::WaitingForSdp));
    assert_eq!(
        handle_signals(&mut c, PeerSignal::Ice(sig_ice())),
        vec![Action::AddIceCandidate { peer: id("B"), candidate: candidate() }]
    );
    assert_eq!(
        handle_signals(&mut c, PeerSignal::Sdp(sig_sdp())),
        vec![Action::SetRemoteDescription { peer: id("B"), sdp: offer() }]
    );
    assert_eq!(
        handle_signals(&mut c, PeerSignal::CallTerminated(id("B"))),
        vec![Action::CloseTransport { peer: id("B") }]
    );
    assert!(!c.has_peer(&id("B")));
    handle_signals(&mut c, PeerSignal::CallInitiated(sig_sdp()));
    assert_eq!(
        handle_signals(&mut c, PeerSignal::CallRejected(id("B"))),
        vec![Action::CloseTransport { peer: id("B") }]
    );
    assert!(handle_signals(&mut c, PeerSignal::CallRejected(id("B"))).is_empty());
}

#[test]
fn a_call_that_cannot_be_accepted_hangs_up_on_its_sender() {
    let mut c = Controller::init(InitArgs { id: id("A") });
    c.add_media_source(id("audio"), CodecCapability {
        mime_type: id("audio/opus"),
        clock_rate: 48000,
        channels: 1,
    })
    .unwrap();
    c.dial(&id("C")).unwrap();
    assert_eq!(handle_signals(&mut c, PeerSignal::CallInitiated(sig_sdp())).len(), 4);
    assert!(c.has_peer(&id("B")));
    assert_eq!(
        handle_signals(&mut c, PeerSignal::CallInitiated(sig_sdp())),
        vec![
            Action::DetachTrack { peer: id("B"), source: id("audio") },
            Action::CloseTransport { peer: id("B") },
        ]
    );
    assert!(!c.has_peer(&id("B")));
    assert!(c.has_peer(&id("C")));
    assert_eq!(c.senders_of(&id("C")), Some(vec![id("audio")]));
    assert_eq!(handle_signals(&mut c, PeerSignal::CallInitiated(sig_sdp())).len(), 4);
    assert!(c.has_peer(&id("B")));
}

#[test]
fn connection_store_answers_each_command() {
    let mut store = SimpleWebRtc::init(SimpleWebRtcInit { client_id: id("A") });
    let ok = |actions: Vec<Action>| Handled { response: Ok(()), actions };
    let failed = || Handled { response: Err(()), actions: vec![] };
    assert_eq!(
        run(&mut store, InternalCmd::Sdp { peer: id("B"), sdp: offer() }),
        failed()
    );
    assert_eq!(
        run(&mut store, InternalCmd::IceCandidate { peer: id("B"), candidate: candidate() }),
        failed()
    );
    assert_eq!(run(&mut store, InternalCmd::Disconnect { peer: id("B") }), ok(vec![]));
    assert_eq!(
        run(&mut store, InternalCmd::Connect { peer: id("B") }),
        ok(vec![Action::CreateTransport { peer: id("B") }])
    );
    assert_eq!(run(&mut store, InternalCmd::Connect { peer: id("B") }), failed());
    assert_eq!(
        run(&mut store, InternalCmd::Sdp { peer: id("B"), sdp: offer() }),
        ok(vec![Action::SetRemoteDescription { peer: id("B"), sdp: offer() }])
    );
    assert_eq!(
        run(&mut store, InternalCmd::IceCandidate { peer: id("B"), candidate: candidate() }),
        ok(vec![Action::AddIceCandidate { peer: id("B"), candidate: candidate() }])
    );
    assert_eq!(
        run(&mut store, InternalCmd::Disconnect { peer: id("B") }),
        ok(vec![Action::CloseTransport { peer: id("B") }])
    );
    assert_eq!(run(&mut store, InternalCmd::Sdp { peer: id("B"), sdp: offer() }), failed());
}

#[test]
fn connection_store_methods_report_their_errors() {
    let mut store = SimpleWebRtc::init(SimpleWebRtcInit { client_id: id("A") });
    assert_eq!(store.recv_sdp(&id("B"), offer()), Err(Error::PeerNotFound));
    assert_eq!(store.recv_ice_candidate(&id("B"), candidate()), Err(Error::PeerNotFound));
    assert!(store.connect(&id("B")).is_ok());
    assert_eq!(store.connect(&id("B")), Err(Error::PeerAlreadyExists));
    assert!(store.connect(&id("C")).is_ok());
    assert_eq!(store.disconnect(&id("B")), vec![Action::CloseTransport { peer: id("B") }]);
    assert!(store.disconnect(&id("B")).is_empty());
    assert!(store.recv_sdp(&id("C"), offer()).is_ok());
}

#[test]
fn media_worker_forwards_to_every_track() {
    let packet = RtpPacket {
        sequence_number: 1,
        timestamp: 2,
        source_id: 3,
        payload_type: 98,
        marker: true,
        payload: vec![1],
    };
    let control = |command| WorkerInput::Control { command: Some(command) };
    let media = || WorkerInput::Media { packet: Some(packet.clone()) };
    let mut worker = MediaWorker::new();
    assert_eq!(
        worker.run(media()),
        WorkerStep::Forward { tracks: vec![], packet: packet.clone() }
    );
    assert_eq!(
        worker.run(control(MediaWorkerCommands::AddTrack { peer: id("B"), track: 10 })),
        WorkerStep::Continue
    );
    assert_eq!(
        worker.run(control(MediaWorkerCommands::AddTrack { peer: id("C"), track: 20 })),
        WorkerStep::Continue
    );
    assert_eq!(
        worker.run(media()),
        WorkerStep::Forward { tracks: vec![10, 20], packet: packet.clone() }
    );
    worker.run(control(MediaWorkerCommands::AddTrack { peer: id("B"), track: 11 }));
    assert_eq!(
        worker.run(media()),
        WorkerStep::Forward { tracks: vec![11, 20], packet: packet.clone() }
    );
    worker.run(control(MediaWorkerCommands::RemoveTrack { peer: id("B") }));
    worker.run(control(MediaWorkerCommands::RemoveTrack { peer: id("Z") }));
    assert_eq!(worker.run(media()), WorkerStep::Forward { tracks: vec![20], packet });
}

#[test]
fn media_worker_stops_on_terminate_and_closed_channels() {
    let mut worker = MediaWorker::new();
    assert_eq!(
        worker.run(WorkerInput::Control { command: Some(MediaWorkerCommands::Terminate) }),
        WorkerStep::Stop { error: None }
    );
    assert_eq!(
        worker.run(WorkerInput::Control { command: None }),
        WorkerStep::Stop { error: Some(Error::ChannelClosed) }
    );
    assert_eq!(
        worker.run(WorkerInput::Media { packet: None }),
        WorkerStep::Stop { error: Some(Error::ChannelClosed) }
    );
}

#[test]
fn call_vocabulary_keeps_what_it_is_given() {
    let audio = MediaCodec::new(MimeType::OPUS, 48000, 1);
    let camera = MediaCodec::new(MimeType::VP8, 90000, 0);
    let screen = MediaCodec::new(MimeType::H264, 90000, 0);
    assert_eq!(audio.mime(), MimeType::OPUS);
    assert_eq!(audio.clock_rate(), 48000);
    assert_eq!(audio.channels(), 1);
    assert_eq!(
        audio.capability(),
        CodecCapability { mime_type: id("audio/opus"), clock_rate: 48000, channels: 1 }
    );
    let config = CallConfig::new(audio, camera, screen);
    assert_eq!(config.codec(MediaType::Audio), audio);
    assert_eq!(config.codec(MediaType::Camera), camera);
    assert_eq!(config.codec(MediaType::ScreenShare), screen);
    assert_eq!(MediaSource::Microphone.media_type(), MediaType::Audio);
    assert_eq!(MediaSource::Camera.media_type(), MediaType::Camera);
    assert_eq!(MediaSource::Screen.media_type(), MediaType::ScreenShare);
    let description =
        TrackDescription::new(id("t1"), MediaSource::Microphone, MimeType::OPUS, id("B"));
    let key = TrackKey { peer_id: id("B"), track_name: id("t1") };
    assert_eq!(description.key(), key);
    assert_eq!(description.media_source(), MediaSource::Microphone);
    assert_eq!(description.mime_type(), MimeType::OPUS);
    assert!(key.same(&description.key()));
    assert!(!key.same(&TrackKey { peer_id: id("C"), track_name: id("t1") }));
    assert!(!key.same(&TrackKey { peer_id: id("B"), track_name: id("t2") }));
}
