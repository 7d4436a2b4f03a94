use simple_webrtc::controller::{Controller, InitArgs, Peer};
use simple_webrtc::error::Error;
use simple_webrtc::events::{Action, EmittedEvents, Recovery, TransportEvent};
use simple_webrtc::types::{
    CodecCapability, IceCandidate, IceCandidateType, IceConnectionState, IceProtocol,
    IncomingTrack, PeerState, SdpType, SessionDescription,
};

fn controller() -> Controller {
    Controller::init(InitArgs { id: "A".to_string() })
}

fn opus() -> CodecCapability {
    CodecCapability { mime_type: "audio/opus".to_string(), clock_rate: 48000, channels: 1 }
}

fn offer() -> SessionDescription {
    SessionDescription { sdp_type: SdpType::Offer, sdp: "v=0 offer".to_string() }
}

fn answer() -> SessionDescription {
    SessionDescription { sdp_type: SdpType::Answer, sdp: "v=0 answer".to_string() }
}

fn candidate() -> IceCandidate {
    IceCandidate {
        stats_id: "c1".to_string(),
        foundation: "f".to_string(),
        priority: 7,
        address: "192.0.2.1".to_string(),
        protocol: IceProtocol::Udp,
        port: 5000,
        typ: IceCandidateType::Host,
        component: 1,
        related_address: String::new(),
        related_port: 0,
        tcp_type: String::new(),
    }
}

fn id(s: &str) -> String {
    s.to_string()
}

fn create(peer: &str) -> Action {
    Action::CreateTransport { peer: id(peer) }
}

fn attach(peer: &str, source: &str) -> Action {
    Action::AttachTrack { peer: id(peer), source: id(source) }
}

fn detach(peer: &str, source: &str) -> Action {
    Action::DetachTrack { peer: id(peer), source: id(source) }
}

#[test]
fn init_has_no_peers_and_no_sources() {
    let c = controller();
    assert_eq!(c.id(), "A");
    assert_eq!(c.peer_count(), 0);
    assert_eq!(c.media_source_count(), 0);
    assert!(!c.has_peer(&id("B")));
    assert!(!c.has_media_source(&id("audio")));
    assert_eq!(c.peer_state(&id("B")), None);
    assert_eq!(c.senders_of(&id("B")), None);
}

#[test]
fn dial_registers_peer_and_offer_emits_call_initiated_once() {
    let mut c = controller();
    let actions = c.dial(&id("B")).unwrap();
    assert_eq!(actions, vec![create("B"), Action::CreateOffer { peer: id("B") }]);
    assert_eq!(c.peer_state(&id("B")), Some(PeerState::WaitingForSdp));
    assert_eq!(c.peer_count(), 1);

    let actions = c.handle_transport_event(TransportEvent::OfferCreated { peer: id("B"), sdp: offer() });
    assert_eq!(
        actions,
        vec![
            Action::SetLocalDescription { peer: id("B"), sdp: offer() },
            Action::Emit { event: EmittedEvents::CallInitiated { dest: id("B"), sdp: offer() } },
        ]
    );
    let emitted = actions
        .iter()
        .filter(|a| matches!(a, Action::Emit { event: EmittedEvents::CallInitiated { .. } }))
        .count();
    assert_eq!(emitted, 1);
    assert_eq!(c.peer_state(&id("B")), Some(PeerState::WaitingForSdp));
}

#[test]
fn dial_attaches_registered_source_before_the_offer() {
    let mut c = controller();
    let actions = c.add_media_source(id("audio"), opus()).unwrap();
    assert_eq!(actions, vec![Action::CreateTrack { source: id("audio"), codec: opus() }]);
    let actions = c.dial(&id("B")).unwrap();
    assert_eq!(
        actions,
        vec![create("B"), attach("B", "audio"), Action::CreateOffer { peer: id("B") }]
    );
    let attach_at = actions.iter().position(|a| *a == attach("B", "audio")).unwrap();
    let offer_at =
        actions.iter().position(|a| *a == Action::CreateOffer { peer: id("B") }).unwrap();
    assert!(attach_at < offer_at);
    assert_eq!(c.senders_of(&id("B")), Some(vec![id("audio")]));
}

#[test]
fn dial_twice_is_refused_and_changes_nothing() {
    let mut c = controller();
    c.add_media_source(id("audio"), opus()).unwrap();
    c.dial(&id("B")).unwrap();
    assert_eq!(c.dial(&id("B")), Err(Error::PeerAlreadyExists));
    assert_eq!(c.accept_call(&id("B"), offer()), Err(Error::PeerAlreadyExists));
    assert_eq!(c.peer_count(), 1);
    assert_eq!(c.senders_of(&id("B")), Some(vec![id("audio")]));
}

#[test]
fn accept_call_applies_offer_and_answer_moves_to_waiting_for_ice() {
    let mut c = controller();
    c.add_media_source(id("audio"), opus()).unwrap();
    let actions = c.accept_call(&id("B"), offer()).unwrap();
    assert_eq!(
        actions,
        vec![
            create("B"),
            attach("B", "audio"),
            Action::AcceptOffer { peer: id("B"), sdp: offer() },
            Action::CreateAnswer { peer: id("B") },
        ]
    );
    assert_eq!(c.peer_state(&id("B")), Some(PeerState::WaitingForSdp));
    let actions =
        c.handle_transport_event(TransportEvent::AnswerCreated { peer: id("B"), sdp: answer() });
    assert_eq!(
        actions,
        vec![
            Action::SetLocalDescription { peer: id("B"), sdp: answer() },
            Action::Emit { event: EmittedEvents::Sdp { dest: id("B"), sdp: answer() } },
        ]
    );
    assert_eq!(c.peer_state(&id("B")), Some(PeerState::WaitingForIce));
}

#[test]
fn descriptions_for_unknown_peers_are_ignored() {
    let mut c = controller();
    assert!(c
        .handle_transport_event(TransportEvent::OfferCreated { peer: id("B"), sdp: offer() })
        .is_empty());
    assert!(c
        .handle_transport_event(TransportEvent::AnswerCreated { peer: id("B"), sdp: answer() })
        .is_empty());
    assert_eq!(c.peer_count(), 0);
}

#[test]
fn fan_out_is_complete_in_either_order() {
    let mut first = controller();
    first.add_media_source(id("audio"), opus()).unwrap();
    first.add_media_source(id("video"), opus()).unwrap();
    first.dial(&id("B")).unwrap();
    first.accept_call(&id("C"), offer()).unwrap();

    let mut second = controller();
    second.dial(&id("B")).unwrap();
    second.add_media_source(id("audio"), opus()).unwrap();
    second.accept_call(&id("C"), offer()).unwrap();
    let actions = second.add_media_source(id("video"), opus()).unwrap();
    assert_eq!(
        actions,
        vec![
            Action::CreateTrack { source: id("video"), codec: opus() },
            attach("B", "video"),
            attach("C", "video"),
        ]
    );

    assert_eq!(first.peer_ids(), vec![id("B"), id("C")]);
    assert_eq!(second.peer_ids(), vec![id("B"), id("C")]);
    for c in [&first, &second] {
        assert_eq!(c.media_source_ids(), vec![id("audio"), id("video")]);
        assert_eq!(c.media_source_count(), 2);
        assert_eq!(c.senders_of(&id("B")), Some(vec![id("audio"), id("video")]));
        assert_eq!(c.senders_of(&id("C")), Some(vec![id("audio"), id("video")]));
    }
}

#[test]
fn duplicate_source_is_refused() {
    let mut c = controller();
    c.dial(&id("B")).unwrap();
    c.add_media_source(id("audio"), opus()).unwrap();
    assert_eq!(c.add_media_source(id("audio"), opus()), Err(Error::DuplicateSourceId));
    assert_eq!(c.media_source_count(), 1);
    assert_eq!(c.senders_of(&id("B")), Some(vec![id("audio")]));
}

#[test]
fn remove_media_source_detaches_from_every_peer() {
    let mut c = controller();
    c.add_media_source(id("audio"), opus()).unwrap();
    c.add_media_source(id("video"), opus()).unwrap();
    c.dial(&id("B")).unwrap();
    c.dial(&id("C")).unwrap();
    let actions = c.remove_media_source(id("audio"));
    assert_eq!(
        actions,
        vec![detach("B", "audio"), detach("C", "audio"), Action::RemoveTrack { source: id("audio") }]
    );
    assert!(!c.has_media_source(&id("audio")));
    assert!(c.has_media_source(&id("video")));
    assert_eq!(c.senders_of(&id("B")), Some(vec![id("video")]));
    assert_eq!(c.senders_of(&id("C")), Some(vec![id("video")]));
}

#[test]
fn remove_media_source_twice_is_a_no_op_the_second_time() {
    let mut c = controller();
    c.add_media_source(id("audio"), opus()).unwrap();
    c.add_media_source(id("video"), opus()).unwrap();
    c.dial(&id("B")).unwrap();
    assert!(!c.remove_media_source(id("audio")).is_empty());
    assert!(c.remove_media_source(id("audio")).is_empty());
    assert_eq!(c.media_source_count(), 1);
    assert_eq!(c.senders_of(&id("B")), Some(vec![id("video")]));
}

#[test]
fn remove_unknown_source_is_a_no_op() {
    let mut c = controller();
    c.dial(&id("B")).unwrap();
    assert!(c.remove_media_source(id("nothing")).is_empty());
    assert_eq!(c.peer_count(), 1);
}

#[test]
fn hang_up_detaches_senders_and_closes_the_transport() {
    let mut c = controller();
    c.add_media_source(id("audio"), opus()).unwrap();
    c.add_media_source(id("video"), opus()).unwrap();
    c.dial(&id("B")).unwrap();
    c.dial(&id("C")).unwrap();
    let actions = c.hang_up(&id("B"));
    assert_eq!(
        actions,
        vec![detach("B", "audio"), detach("B", "video"), Action::CloseTransport { peer: id("B") }]
    );
    assert!(!c.has_peer(&id("B")));
    assert_eq!(c.peer_state(&id("C")), Some(PeerState::WaitingForSdp));
    assert_eq!(c.senders_of(&id("C")), Some(vec![id("audio"), id("video")]));
    assert_eq!(c.media_source_count(), 2);
}

#[test]
fn hang_up_on_unknown_peer_changes_nothing() {
    let mut c = controller();
    c.add_media_source(id("audio"), opus()).unwrap();
    c.dial(&id("B")).unwrap();
    assert!(c.hang_up(&id("Z")).is_empty());
    assert_eq!(c.peer_count(), 1);
    assert_eq!(c.peer_state(&id("B")), Some(PeerState::WaitingForSdp));
    assert_eq!(c.senders_of(&id("B")), Some(vec![id("audio")]));
}

#[test]
fn a_peer_can_be_dialled_again_after_hang_up() {
    let mut c = controller();
    c.dial(&id("B")).unwrap();
    c.hang_up(&id("B"));
    assert!(c.dial(&id("B")).is_ok());
}

#[test]
fn deinit_hangs_up_every_peer_and_keeps_the_sources() {
    let mut c = controller();
    c.add_media_source(id("audio"), opus()).unwrap();
    c.dial(&id("B")).unwrap();
    c.dial(&id("C")).unwrap();
    let actions = c.deinit();
    assert_eq!(
        actions,
        vec![
            detach("B", "audio"),
            Action::CloseTransport { peer: id("B") },
            detach("C", "audio"),
            Action::CloseTransport { peer: id("C") },
        ]
    );
    assert_eq!(c.peer_count(), 0);
    assert_eq!(c.media_source_count(), 1);
    assert!(c.deinit().is_empty());
}

#[test]
fn recv_ice_and_recv_sdp_need_a_known_peer() {
    let mut c = controller();
    assert_eq!(c.recv_ice(&id("B"), candidate()), Err(Error::PeerNotFound));
    assert_eq!(c.recv_sdp(&id("B"), answer()), Err(Error::PeerNotFound));
    c.dial(&id("B")).unwrap();
    assert_eq!(
        c.recv_ice(&id("B"), candidate()),
        Ok(vec![Action::AddIceCandidate { peer: id("B"), candidate: candidate() }])
    );
    assert_eq!(
        c.recv_sdp(&id("B"), answer()),
        Ok(vec![Action::SetRemoteDescription { peer: id("B"), sdp: answer() }])
    );
    assert_eq!(c.peer_state(&id("B")), Some(PeerState::WaitingForSdp));
}

#[test]
fn failed_negotiation_leaves_no_peer() {
    let mut c = controller();
    c.add_media_source(id("audio"), opus()).unwrap();
    c.dial(&id("B")).unwrap();
    let actions = c.handle_transport_event(TransportEvent::Failed { peer: id("B") });
    assert_eq!(actions, vec![detach("B", "audio"), Action::CloseTransport { peer: id("B") }]);
    assert!(!c.has_peer(&id("B")));
}

#[test]
fn failed_attach_removes_only_that_sender() {
    let mut c = controller();
    c.add_media_source(id("audio"), opus()).unwrap();
    c.add_media_source(id("video"), opus()).unwrap();
    c.dial(&id("B")).unwrap();
    c.dial(&id("C")).unwrap();
    let actions = c.handle_transport_event(TransportEvent::AttachFailed {
        peer: id("B"),
        source: id("audio"),
    });
    assert!(actions.is_empty());
    assert_eq!(c.senders_of(&id("B")), Some(vec![id("video")]));
    assert_eq!(c.senders_of(&id("C")), Some(vec![id("audio"), id("video")]));
    assert!(c.has_media_source(&id("audio")));
    let actions = c.remove_media_source(id("audio"));
    assert_eq!(
        actions,
        vec![detach("C", "audio"), Action::RemoveTrack { source: id("audio") }]
    );
}

#[test]
fn transport_callbacks_become_events() {
    let mut c = controller();
    c.dial(&id("B")).unwrap();
    assert_eq!(
        c.handle_transport_event(TransportEvent::CandidateDiscovered {
            peer: id("B"),
            candidate: Some(candidate()),
        }),
        vec![Action::Emit { event: EmittedEvents::Ice { dest: id("B"), candidate: candidate() } }]
    );
    assert!(c
        .handle_transport_event(TransportEvent::CandidateDiscovered { peer: id("B"), candidate: None })
        .is_empty());
    assert_eq!(
        c.handle_transport_event(TransportEvent::ConnectionStateChanged {
            peer: id("B"),
            state: IceConnectionState::Failed,
        }),
        vec![Action::Emit { event: EmittedEvents::Disconnected { peer: id("B") } }]
    );
    for state in [
        IceConnectionState::Unspecified,
        IceConnectionState::New,
        IceConnectionState::Checking,
        IceConnectionState::Connected,
        IceConnectionState::Completed,
        IceConnectionState::Disconnected,
        IceConnectionState::Closed,
    ] {
        assert!(c
            .handle_transport_event(TransportEvent::ConnectionStateChanged { peer: id("B"), state })
            .is_empty());
    }
    let track = IncomingTrack { handle: 3, codec: opus() };
    assert_eq!(
        c.handle_transport_event(TransportEvent::TrackOpened {
            peer: id("B"),
            track: Some(track.clone()),
        }),
        vec![Action::Emit { event: EmittedEvents::TrackAdded { peer: id("B"), track } }]
    );
    assert!(c
        .handle_transport_event(TransportEvent::TrackOpened { peer: id("B"), track: None })
        .is_empty());
    assert_eq!(c.peer_state(&id("B")), Some(PeerState::WaitingForSdp));
}

#[test]
fn duplicates_keep_their_values() {
    assert_eq!(opus().duplicate(), opus());
    assert_eq!(offer().duplicate(), offer());
    assert_eq!(candidate().duplicate(), candidate());
    let track = IncomingTrack { handle: 9, codec: opus() };
    assert_eq!(track.duplicate(), track);
}

#[test]
fn a_failed_negotiation_step_gives_the_session_up() {
    let give_up = Recovery::GiveUp {
        report: TransportEvent::Failed { peer: id("B") },
        error: Error::TransportFailure,
    };
    assert_eq!(create("B").recovery(), give_up);
    assert_eq!(Action::CreateOffer { peer: id("B") }.recovery(), give_up);
    assert_eq!(Action::CreateAnswer { peer: id("B") }.recovery(), give_up);
    assert_eq!(Action::SetLocalDescription { peer: id("B"), sdp: offer() }.recovery(), give_up);
    assert_eq!(Action::AcceptOffer { peer: id("B"), sdp: offer() }.recovery(), give_up);
}

#[test]
fn other_failed_steps_are_reported_returned_or_logged() {
    assert_eq!(
        attach("B", "audio").recovery(),
        Recovery::Report {
            report: TransportEvent::AttachFailed { peer: id("B"), source: id("audio") },
        }
    );
    assert_eq!(
        Action::SetRemoteDescription { peer: id("B"), sdp: answer() }.recovery(),
        Recovery::Fail { error: Error::TransportFailure }
    );
    assert_eq!(
        Action::AddIceCandidate { peer: id("B"), candidate: candidate() }.recovery(),
        Recovery::Fail { error: Error::TransportFailure }
    );
    assert_eq!(
        Action::Emit { event: EmittedEvents::Disconnected { peer: id("B") } }.recovery(),
        Recovery::Fail { error: Error::ChannelClosed }
    );
    assert_eq!(detach("B", "audio").recovery(), Recovery::GoOn);
    assert_eq!(Action::CloseTransport { peer: id("B") }.recovery(), Recovery::GoOn);
    assert_eq!(Action::CreateTrack { source: id("audio"), codec: opus() }.recovery(), Recovery::GoOn);
    assert_eq!(Action::RemoveTrack { source: id("audio") }.recovery(), Recovery::GoOn);
}

#[test]
fn a_failed_accept_leaves_no_peer_at_any_step() {
    let mut c = controller();
    c.add_media_source(id("audio"), opus()).unwrap();
    for failing in 0..4 {
        let actions = c.accept_call(&id("B"), offer()).unwrap();
        let mut steps: Vec<Action> =
            actions.into_iter().filter(|a| !matches!(a, Action::AttachTrack { .. })).collect();
        if failing == 3 {
            let more = c.handle_transport_event(TransportEvent::AnswerCreated {
                peer: id("B"),
                sdp: answer(),
            });
            steps.push(more[0].clone());
        }
        match steps[failing].recovery() {
            Recovery::GiveUp { report, error } => {
                assert_eq!(error, Error::TransportFailure);
                c.handle_transport_event(report);
            }
            other => panic!("step {} recovers with {:?}", failing, other),
        }
        assert!(!c.has_peer(&id("B")));
    }
    assert!(c.has_media_source(&id("audio")));
}

#[test]
fn crate_root_names_the_main_items() {
    let mut c = simple_webrtc::Controller::init(simple_webrtc::InitArgs { id: id("A") });
    let peer: simple_webrtc::PeerId = id("B");
    assert!(c.dial(&peer).is_ok());
    assert_eq!(c.peer_state(&peer), Some(simple_webrtc::PeerState::WaitingForSdp));
    assert_eq!(simple_webrtc::MimeType::OPUS.as_str(), "audio/opus");
    assert_eq!(simple_webrtc::Error::PeerNotFound.message(), "peer not found");
    assert_eq!(c.id(), "A");
}

#[test]
fn a_peer_can_be_read_as_a_whole() {
    let mut c = controller();
    c.add_media_source(id("audio"), opus()).unwrap();
    c.accept_call(&id("B"), offer()).unwrap();
    c.handle_transport_event(TransportEvent::AnswerCreated { peer: id("B"), sdp: answer() });
    assert_eq!(
        c.peer(&id("B")),
        Some(Peer { state: PeerState::WaitingForIce, id: id("B"), senders: vec![id("audio")] })
    );
    assert_eq!(c.peer(&id("C")), None);
}
