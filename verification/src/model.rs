//! The mathematical model of the session controller: which peers have a
//! session, which media sources are registered, and which source is attached
//! to which peer. The controller's contracts and the laws of the fan-out are
//! stated over this model.

use vstd::prelude::*;
use crate::events::{Action, EmittedEvents, TransportEvent};
use crate::types::{CodecCapability, IceConnectionState, MediaSourceId, PeerId, PeerState};

verus! {

/// A registered local media source.
#[derive(Clone, Debug, PartialEq, Eq)]
pub struct RegisteredSource {
    pub id: MediaSourceId,
    pub codec: CodecCapability,
}

/// One peer of the model: its id, its state, and the ids of the media sources
/// that have a sender on its transport, in the order in which they were
/// attached.
pub struct PeerModel {
    pub id: PeerId,
    pub state: PeerState,
    pub senders: Seq<MediaSourceId>,
}

/// The id of the local endpoint, and the peers and the media sources of a
/// controller, each in the order in which they were added.
pub struct Model {
    pub id: PeerId,
    pub peers: Seq<PeerModel>,
    pub sources: Seq<RegisteredSource>,
}

/// The characters of each id of a sequence.
pub open spec fn texts(ids: Seq<String>) -> Seq<Seq<char>> {
    ids.map_values(|id: String| id@)
}

/// `i` is the first place at which `id` stands in `ids`.
pub open spec fn is_first(ids: Seq<Seq<char>>, id: Seq<char>, i: int) -> bool {
    &&& 0 <= i < ids.len()
    &&& ids[i] == id
    &&& forall|j: int| 0 <= j < i ==> ids[j] != id
}

/// The first place at which `id` stands in `ids`, if it stands there at all.
pub open spec fn position(ids: Seq<Seq<char>>, id: Seq<char>) -> Option<int> {
    if exists|i: int| is_first(ids, id, i) {
        Some(choose|i: int| is_first(ids, id, i))
    } else {
        None
    }
}

/// A first place, once found, is the position.
pub proof fn lemma_position_found(ids: Seq<Seq<char>>, id: Seq<char>, i: int)
    requires
        is_first(ids, id, i),
    ensures
        position(ids, id) == Some(i),
{
    let k = choose|k: int| is_first(ids, id, k);
    assert(is_first(ids, id, k));
    if k < i {
        assert(ids[k] != id);
    }
    if i < k {
        assert(ids[i] != id);
    }
}

/// An id that stands nowhere has no position.
pub proof fn lemma_position_absent(ids: Seq<Seq<char>>, id: Seq<char>)
    requires
        forall|j: int| 0 <= j < ids.len() ==> ids[j] != id,
    ensures
        position(ids, id) == None::<int>,
{
    if exists|i: int| is_first(ids, id, i) {
        let k = choose|k: int| is_first(ids, id, k);
        assert(ids[k] != id);
    }
}

/// What a position says of the sequence.
pub proof fn lemma_position_means(ids: Seq<Seq<char>>, id: Seq<char>)
    ensures
        match position(ids, id) {
            Some(i) => is_first(ids, id, i),
            None => forall|j: int| 0 <= j < ids.len() ==> ids[j] != id,
        },
{
    if exists|i: int| is_first(ids, id, i) {
    } else {
        assert forall|j: int| 0 <= j < ids.len() implies ids[j] != id by {
            if ids[j] == id {
                lemma_first_exists(ids, id, j);
            }
        }
    }
}

/// Where an id stands somewhere, it stands somewhere first.
pub proof fn lemma_first_exists(ids: Seq<Seq<char>>, id: Seq<char>, j: int)
    requires
        0 <= j < ids.len(),
        ids[j] == id,
    ensures
        exists|i: int| is_first(ids, id, i),
    decreases j,
{
    if forall|k: int| 0 <= k < j ==> ids[k] != id {
        assert(is_first(ids, id, j));
    } else {
        let k = choose|k: int| 0 <= k < j && ids[k] == id;
        lemma_first_exists(ids, id, k);
    }
}

/// No id stands twice in the sequence.
pub open spec fn distinct(ids: Seq<Seq<char>>) -> bool {
    forall|i: int, j: int| 0 <= i < j < ids.len() ==> ids[i] != ids[j]
}

/// The sequence without the first occurrence of `id`.
pub open spec fn without(ids: Seq<String>, id: Seq<char>) -> Seq<String> {
    match position(texts(ids), id) {
        Some(i) => ids.remove(i),
        None => ids,
    }
}

impl PeerModel {
    /// The peer with a sender for one more source.
    pub open spec fn with_sender(self, source: MediaSourceId) -> PeerModel {
        PeerModel { senders: self.senders.push(source), ..self }
    }

    /// The peer without its sender for `source`.
    pub open spec fn without_sender(self, source: Seq<char>) -> PeerModel {
        PeerModel { senders: without(self.senders, source), ..self }
    }

    /// The peer in another state.
    pub open spec fn in_state(self, state: PeerState) -> PeerModel {
        PeerModel { state, ..self }
    }

    /// Whether a sender for `source` is attached to the peer.
    pub open spec fn sends(self, source: Seq<char>) -> bool {
        texts(self.senders).contains(source)
    }

    /// The steps that detach every sender of the peer and close its
    /// transport, addressed to `peer`.
    pub open spec fn teardown(self, peer: PeerId) -> Seq<Action> {
        self.senders.map_values(|s: MediaSourceId| Action::DetachTrack { peer, source: s }).push(
            Action::CloseTransport { peer },
        )
    }
}

impl Model {
    /// The model of a controller that was just made for the endpoint `id`.
    pub open spec fn empty(id: PeerId) -> Model {
        Model { id, peers: Seq::empty(), sources: Seq::empty() }
    }

    /// The characters of the peers' ids, in order.
    pub open spec fn peer_ids(self) -> Seq<Seq<char>> {
        self.peers.map_values(|p: PeerModel| p.id@)
    }

    /// The ids of the registered sources, in order.
    pub open spec fn source_names(self) -> Seq<MediaSourceId> {
        self.sources.map_values(|s: RegisteredSource| s.id)
    }

    /// The characters of the registered sources' ids, in order.
    pub open spec fn source_ids(self) -> Seq<Seq<char>> {
        self.sources.map_values(|s: RegisteredSource| s.id@)
    }

    /// Whether a peer with this id has a session.
    pub open spec fn has_peer(self, id: Seq<char>) -> bool {
        position(self.peer_ids(), id).is_some()
    }

    /// Whether a media source with this id is registered.
    pub open spec fn has_source(self, id: Seq<char>) -> bool {
        position(self.source_ids(), id).is_some()
    }

    /// The peer with this id. Meaningful only where `has_peer` holds.
    pub open spec fn peer(self, id: Seq<char>) -> PeerModel {
        self.peers[position(self.peer_ids(), id).unwrap()]
    }

    /// Validity: ids of peers are distinct, ids of sources are distinct, and
    /// every sender of every peer belongs to a registered source, at most one
    /// sender for each.
    pub open spec fn wf(self) -> bool {
        &&& distinct(self.peer_ids())
        &&& distinct(self.source_ids())
        &&& forall|i: int|
            0 <= i < self.peers.len() ==> distinct(#[trigger] texts(self.peers[i].senders))
        &&& forall|i: int, j: int|
            0 <= i < self.peers.len() && 0 <= j < self.peers[i].senders.len()
                ==> self.source_ids().contains(#[trigger] self.peers[i].senders[j]@)
    }

    /// The fan-out is complete: every peer has the senders of exactly the
    /// registered sources, in the order of their registration.
    pub open spec fn fanned_out(self) -> bool {
        forall|i: int|
            0 <= i < self.peers.len() ==> #[trigger] texts(self.peers[i].senders)
                == self.source_ids()
    }

    /// The steps that create the transport of a new peer and attach every
    /// registered source to it.
    pub open spec fn connect_actions(self, peer: PeerId) -> Seq<Action> {
        seq![Action::CreateTransport { peer }] + self.source_names().map_values(
            |s: MediaSourceId| Action::AttachTrack { peer, source: s },
        )
    }

    /// The model with a session for one more peer, to which every registered
    /// source is attached.
    pub open spec fn connect(self, peer: PeerId) -> Model {
        Model {
            peers: self.peers.push(
                PeerModel {
                    id: peer,
                    state: PeerState::WaitingForSdp,
                    senders: self.source_names(),
                },
            ),
            ..self
        }
    }

    /// The model after the session with `peer` ended.
    pub open spec fn hang_up(self, peer: Seq<char>) -> Model {
        match position(self.peer_ids(), peer) {
            Some(i) => Model { peers: self.peers.remove(i), ..self },
            None => self,
        }
    }

    /// The steps that end the session with `peer`.
    pub open spec fn hang_up_actions(self, peer: PeerId) -> Seq<Action> {
        match position(self.peer_ids(), peer@) {
            Some(i) => self.peers[i].teardown(peer),
            None => Seq::empty(),
        }
    }

    /// The model with one more registered source, attached to every peer.
    pub open spec fn add_source(self, source: MediaSourceId, codec: CodecCapability) -> Model {
        Model {
            peers: self.peers.map_values(|p: PeerModel| p.with_sender(source)),
            sources: self.sources.push(RegisteredSource { id: source, codec }),
            ..self
        }
    }

    /// The steps that create the track of a new source and attach it to every
    /// peer.
    pub open spec fn add_source_actions(self, source: MediaSourceId, codec: CodecCapability) -> Seq<
        Action,
    > {
        seq![Action::CreateTrack { source, codec }] + self.peers.map_values(
            |p: PeerModel| Action::AttachTrack { peer: p.id, source },
        )
    }

    /// The model without the source, which is detached from every peer.
    pub open spec fn remove_source(self, source: Seq<char>) -> Model {
        Model {
            peers: self.peers.map_values(|p: PeerModel| p.without_sender(source)),
            sources: match position(self.source_ids(), source) {
                Some(i) => self.sources.remove(i),
                None => self.sources,
            },
            ..self
        }
    }

    /// The steps that detach `source` from the first `n` peers, for each peer
    /// that has a sender for it.
    pub open spec fn detach_actions(self, source: MediaSourceId, n: int) -> Seq<Action>
        decreases n,
    {
        if n <= 0 {
            Seq::empty()
        } else {
            let before = self.detach_actions(source, n - 1);
            if n <= self.peers.len() && self.peers[n - 1].sends(source@) {
                before.push(Action::DetachTrack { peer: self.peers[n - 1].id, source })
            } else {
                before
            }
        }
    }

    /// The steps that remove a source: one detach for each peer that has a
    /// sender for it and, where the source is registered, the removal of its
    /// track.
    pub open spec fn remove_source_actions(self, source: MediaSourceId) -> Seq<Action> {
        let detach = self.detach_actions(source, self.peers.len() as int);
        if self.has_source(source@) {
            detach.push(Action::RemoveTrack { source })
        } else {
            detach
        }
    }

    /// The model after the transport of `peer` failed to attach `source`.
    pub open spec fn attach_failed(self, peer: Seq<char>, source: Seq<char>) -> Model {
        match position(self.peer_ids(), peer) {
            Some(i) => Model {
                peers: self.peers.update(i, self.peers[i].without_sender(source)),
                ..self
            },
            None => self,
        }
    }

    /// The model with `peer` in another state, if it has a session.
    pub open spec fn set_state(self, peer: Seq<char>, state: PeerState) -> Model {
        match position(self.peer_ids(), peer) {
            Some(i) => Model { peers: self.peers.update(i, self.peers[i].in_state(state)), ..self },
            None => self,
        }
    }

    /// The steps that end the sessions of the first `n` peers, peer by peer.
    pub open spec fn teardown_actions(self, n: int) -> Seq<Action>
        decreases n,
    {
        if n <= 0 || n > self.peers.len() {
            Seq::empty()
        } else {
            self.teardown_actions(n - 1) + self.peers[n - 1].teardown(self.peers[n - 1].id)
        }
    }

    /// The model without any session; the sources stay registered.
    pub open spec fn without_peers(self) -> Model {
        Model { peers: Seq::empty(), ..self }
    }

    /// The model after the driver reported `event`. An answer moves its peer
    /// to `WaitingForIce`; a failed negotiation ends the session; a failed
    /// attach removes the sender. Nothing else changes the model.
    pub open spec fn after_event(self, event: TransportEvent) -> Model {
        match event {
            TransportEvent::AnswerCreated { peer, sdp } => self.set_state(
                peer@,
                PeerState::WaitingForIce,
            ),
            TransportEvent::Failed { peer } => self.hang_up(peer@),
            TransportEvent::AttachFailed { peer, source } => self.attach_failed(peer@, source@),
            _ => self,
        }
    }

    /// The steps that answer `event`. A description that the transport
    /// created for a peer with a session becomes its local description and
    /// is emitted, an offer as `CallInitiated`, an answer as `Sdp`. A failed
    /// negotiation tears the session down. A discovered candidate, a failed
    /// connection and an opened track are emitted as `Ice`, `Disconnected`
    /// and `TrackAdded`.
    pub open spec fn event_actions(self, event: TransportEvent) -> Seq<Action> {
        match event {
            TransportEvent::OfferCreated { peer, sdp } => if self.has_peer(peer@) {
                seq![
                    Action::SetLocalDescription { peer, sdp },
                    Action::Emit { event: EmittedEvents::CallInitiated { dest: peer, sdp } },
                ]
            } else {
                Seq::empty()
            },
            TransportEvent::AnswerCreated { peer, sdp } => if self.has_peer(peer@) {
                seq![
                    Action::SetLocalDescription { peer, sdp },
                    Action::Emit { event: EmittedEvents::Sdp { dest: peer, sdp } },
                ]
            } else {
                Seq::empty()
            },
            TransportEvent::Failed { peer } => self.hang_up_actions(peer),
            TransportEvent::AttachFailed { peer, source } => Seq::empty(),
            TransportEvent::CandidateDiscovered { peer, candidate } => match candidate {
                Some(c) => seq![
                    Action::Emit { event: EmittedEvents::Ice { dest: peer, candidate: c } },
                ],
                None => Seq::empty(),
            },
            TransportEvent::ConnectionStateChanged { peer, state } => if state
                == IceConnectionState::Failed {
                seq![Action::Emit { event: EmittedEvents::Disconnected { peer } }]
            } else {
                Seq::empty()
            },
            TransportEvent::TrackOpened { peer, track } => match track {
                Some(t) => seq![
                    Action::Emit { event: EmittedEvents::TrackAdded { peer, track: t } },
                ],
                None => Seq::empty(),
            },
        }
    }
}

} // verus!
