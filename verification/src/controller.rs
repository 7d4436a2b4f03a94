//! The session controller: the single owner of the peers and of the media
//! sources. It decides; a driver acts. Every operation changes the
//! controller's state and returns the steps that the driver carries out on
//! the transports, in order.
//!
//! A session with a peer that already has one is refused, as is a media
//! source whose id is taken: neither is overwritten.

use vstd::prelude::*;
use crate::error::Error;
use crate::events::{Action, EmittedEvents, TransportEvent};
use crate::laws::{
    lemma_add_source_valid, lemma_attach_failed_valid, lemma_connect_valid, lemma_hang_up_valid,
    lemma_remove_source_valid, lemma_set_state_valid,
};
use crate::model::{lemma_position_means, position, texts, Model, PeerModel, RegisteredSource};
use crate::search::{find, names, Named};
use crate::types::{
    CodecCapability, IceCandidate, IceConnectionState, MediaSourceId, PeerId, PeerState,
    SessionDescription,
};

verus! {

/// The session with one remote endpoint: its state and the media sources that
/// are attached to its transport.
#[derive(Clone, Debug, PartialEq, Eq)]
pub struct Peer {
    pub state: PeerState,
    pub id: PeerId,
    pub senders: Vec<MediaSourceId>,
}

impl View for Peer {
    type V = PeerModel;

    open spec fn view(&self) -> PeerModel {
        PeerModel { id: self.id, state: self.state, senders: self.senders@ }
    }
}

/// What a controller is made from.
#[derive(Clone, Debug, PartialEq, Eq)]
pub struct InitArgs {
    /// The id of the local endpoint.
    pub id: PeerId,
}

/// Tracks the peers and the media sources of the local endpoint.
pub struct Controller {
    id: PeerId,
    peers: Vec<Peer>,
    sources: Vec<RegisteredSource>,
}

impl View for Controller {
    type V = Model;

    closed spec fn view(&self) -> Model {
        Model { id: self.id, peers: self.peers@.map_values(|p: Peer| p@), sources: self.sources@ }
    }
}

impl Named for Peer {
    open spec fn spec_name(&self) -> Seq<char> {
        self.id@
    }

    fn is_named(&self, id: &String) -> (same: bool) {
        self.id == *id
    }
}

impl Named for RegisteredSource {
    open spec fn spec_name(&self) -> Seq<char> {
        self.id@
    }

    fn is_named(&self, id: &String) -> (same: bool) {
        self.id == *id
    }
}

/// The place of `id` among `ids`, if it is there.
fn find_id(ids: &Vec<MediaSourceId>, id: &MediaSourceId) -> (at: Option<usize>)
    ensures
        match at {
            Some(i) => i < ids.len() && position(texts(ids@), id@) == Some(i as int),
            None => position(texts(ids@), id@) == None::<int>,
        },
{
    assert(names(ids@) =~= texts(ids@));
    find(ids, id)
}

/// A copy of the ids.
fn copy_ids(ids: &Vec<MediaSourceId>) -> (copy: Vec<MediaSourceId>)
    ensures
        copy@ == ids@,
{
    let mut copy: Vec<MediaSourceId> = Vec::new();
    let mut k: usize = 0;
    while k < ids.len()
        invariant
            k <= ids.len(),
            copy@ == ids@.take(k as int),
        decreases ids.len() - k,
    {
        copy.push(ids[k].clone());
        assert(ids@.take(k + 1) == ids@.take(k as int).push(ids@[k as int]));
        k += 1;
    }
    assert(ids@.take(ids.len() as int) == ids@);
    copy
}

impl Controller {
    /// A controller without peers and without media sources.
    pub fn init(args: InitArgs) -> (controller: Controller)
        ensures
            controller@ == Model::empty(args.id),
            controller@.wf(),
    {
        let controller = Controller { id: args.id, peers: Vec::new(), sources: Vec::new() };
        assert(controller@.peers =~= Seq::empty());
        controller
    }

    /// The id of the local endpoint.
    pub fn id(&self) -> (id: &PeerId)
        ensures
            *id == self@.id,
    {
        &self.id
    }

    fn find_peer(&self, id: &PeerId) -> (at: Option<usize>)
        ensures
            match at {
                Some(i) => i < self.peers.len() && position(self@.peer_ids(), id@) == Some(
                    i as int,
                ),
                None => position(self@.peer_ids(), id@) == None::<int>,
            },
    {
        assert(names(self.peers@) =~= self@.peer_ids());
        find(&self.peers, id)
    }

    fn find_source(&self, id: &MediaSourceId) -> (at: Option<usize>)
        ensures
            match at {
                Some(i) => i < self.sources.len() && position(self@.source_ids(), id@) == Some(
                    i as int,
                ),
                None => position(self@.source_ids(), id@) == None::<int>,
            },
    {
        assert(names(self.sources@) =~= self@.source_ids());
        find(&self.sources, id)
    }

    /// Whether a peer with this id has a session.
    pub fn has_peer(&self, peer_id: &PeerId) -> (found: bool)
        ensures
            found == self@.has_peer(peer_id@),
    {
        self.find_peer(peer_id).is_some()
    }

    /// Whether a media source with this id is registered.
    pub fn has_media_source(&self, source_id: &MediaSourceId) -> (found: bool)
        ensures
            found == self@.has_source(source_id@),
    {
        self.find_source(source_id).is_some()
    }

    /// The number of peers that have a session.
    pub fn peer_count(&self) -> (count: usize)
        ensures
            count == self@.peers.len(),
    {
        self.peers.len()
    }

    /// The number of registered media sources.
    pub fn media_source_count(&self) -> (count: usize)
        ensures
            count == self@.sources.len(),
    {
        self.sources.len()
    }

    /// The ids of the peers that have a session, in the order in which
    /// their sessions began.
    pub fn peer_ids(&self) -> (ids: Vec<PeerId>)
        ensures
            texts(ids@) == self@.peer_ids(),
    {
        let mut ids: Vec<PeerId> = Vec::new();
        let mut i: usize = 0;
        while i < self.peers.len()
            invariant
                i <= self.peers.len(),
                texts(ids@) == self@.peer_ids().take(i as int),
            decreases self.peers.len() - i,
        {
            let ghost before = ids@;
            ids.push(self.peers[i].id.clone());
            proof {
                assert(ids@ == before.push(self.peers@[i as int].id));
                assert(texts(ids@) =~= texts(before).push(self.peers@[i as int].id@));
                assert(self@.peer_ids().take(i + 1) =~= self@.peer_ids().take(i as int).push(
                    self@.peer_ids()[i as int],
                ));
            }
            i += 1;
        }
        assert(self@.peer_ids().take(i as int) =~= self@.peer_ids());
        ids
    }

    /// The ids of the registered media sources, in the order of their
    /// registration.
    pub fn media_source_ids(&self) -> (ids: Vec<MediaSourceId>)
        ensures
            texts(ids@) == self@.source_ids(),
    {
        let mut ids: Vec<MediaSourceId> = Vec::new();
        let mut i: usize = 0;
        while i < self.sources.len()
            invariant
                i <= self.sources.len(),
                texts(ids@) == self@.source_ids().take(i as int),
            decreases self.sources.len() - i,
        {
            let ghost before = ids@;
            ids.push(self.sources[i].id.clone());
            proof {
                assert(ids@ == before.push(self.sources@[i as int].id));
                assert(texts(ids@) =~= texts(before).push(self.sources@[i as int].id@));
                assert(self@.source_ids().take(i + 1) =~= self@.source_ids().take(i as int).push(
                    self@.source_ids()[i as int],
                ));
            }
            i += 1;
        }
        assert(self@.source_ids().take(i as int) =~= self@.source_ids());
        ids
    }

    /// A copy of the session with a peer, if there is one.
    pub fn peer(&self, peer_id: &PeerId) -> (peer: Option<Peer>)
        ensures
            match peer {
                Some(p) => self@.has_peer(peer_id@) && p@ == self@.peer(peer_id@),
                None => !self@.has_peer(peer_id@),
            },
    {
        match self.find_peer(peer_id) {
            Some(i) => {
                let senders = copy_ids(&self.peers[i].senders);
                Some(Peer { state: self.peers[i].state, id: self.peers[i].id.clone(), senders })
            },
            None => None,
        }
    }

    /// The state of the session with a peer, if there is one.
    pub fn peer_state(&self, peer_id: &PeerId) -> (state: Option<PeerState>)
        ensures
            state == if self@.has_peer(peer_id@) {
                Some(self@.peer(peer_id@).state)
            } else {
                None
            },
    {
        match self.find_peer(peer_id) {
            Some(i) => Some(self.peers[i].state),
            None => None,
        }
    }

    /// The ids of the media sources that are attached to a peer, in the order
    /// in which they were attached, if the peer has a session.
    pub fn senders_of(&self, peer_id: &PeerId) -> (senders: Option<Vec<MediaSourceId>>)
        ensures
            match senders {
                Some(ids) => self@.has_peer(peer_id@) && ids@ == self@.peer(peer_id@).senders,
                None => !self@.has_peer(peer_id@),
            },
    {
        match self.find_peer(peer_id) {
            Some(i) => {
                Some(copy_ids(&self.peers[i].senders))
            },
            None => None,
        }
    }

    /// Adds a session: registers the peer in state `WaitingForSdp` with a
    /// sender for every registered source, and returns the steps that create
    /// its transport and attach those sources. Refused where the peer has a
    /// session already.
    fn connect(&mut self, peer_id: &PeerId) -> (result: Result<Vec<Action>, Error>)
        requires
            old(self)@.wf(),
        ensures
            final(self)@.wf(),
            match result {
                Ok(actions) => {
                    &&& !old(self)@.has_peer(peer_id@)
                    &&& final(self)@ == old(self)@.connect(*peer_id)
                    &&& actions@ == old(self)@.connect_actions(*peer_id)
                },
                Err(e) => {
                    &&& e == Error::PeerAlreadyExists
                    &&& old(self)@.has_peer(peer_id@)
                    &&& final(self)@ == old(self)@
                },
            },
    {
        proof {
            lemma_position_means(self@.peer_ids(), peer_id@);
        }
        if self.find_peer(peer_id).is_some() {
            return Err(Error::PeerAlreadyExists);
        }
        let mut actions: Vec<Action> = Vec::new();
        actions.push(Action::CreateTransport { peer: peer_id.clone() });
        let mut senders: Vec<MediaSourceId> = Vec::new();
        let mut k: usize = 0;
        while k < self.sources.len()
            invariant
                k <= self.sources.len(),
                senders@ == self@.source_names().take(k as int),
                actions@ == seq![Action::CreateTransport { peer: *peer_id }]
                    + self@.source_names().take(k as int).map_values(
                    |s: MediaSourceId| Action::AttachTrack { peer: *peer_id, source: s },
                ),
            decreases self.sources.len() - k,
        {
            let source = self.sources[k].id.clone();
            actions.push(Action::AttachTrack { peer: peer_id.clone(), source: source.clone() });
            senders.push(source);
            assert(self@.source_names().take(k + 1) == self@.source_names().take(k as int).push(
                self@.source_names()[k as int],
            ));
            k += 1;
        }
        assert(self@.source_names().take(k as int) == self@.source_names());
        let ghost before = self@;
        let peer = Peer { state: PeerState::WaitingForSdp, id: peer_id.clone(), senders };
        proof {
            lemma_connect_valid(before, *peer_id);
            assert(self.peers@.push(peer).map_values(|p: Peer| p@) == before.connect(
                *peer_id,
            ).peers);
        }
        self.peers.push(peer);
        Ok(actions)
    }

    /// Starts a call to a peer. Refused with `Error::PeerAlreadyExists` where
    /// the peer has a session. Otherwise the peer is registered in state
    /// `WaitingForSdp`, and the steps create its transport, attach every
    /// registered source, and then ask for an offer. The offer comes back as
    /// `TransportEvent::OfferCreated`, which emits `CallInitiated`.
    pub fn dial(&mut self, peer_id: &PeerId) -> (result: Result<Vec<Action>, Error>)
        requires
            old(self)@.wf(),
        ensures
            final(self)@.wf(),
            match result {
                Ok(actions) => {
                    &&& !old(self)@.has_peer(peer_id@)
                    &&& final(self)@ == old(self)@.connect(*peer_id)
                    &&& actions@ == old(self)@.connect_actions(*peer_id).push(
                        Action::CreateOffer { peer: *peer_id },
                    )
                },
                Err(e) => {
                    &&& e == Error::PeerAlreadyExists
                    &&& old(self)@.has_peer(peer_id@)
                    &&& final(self)@ == old(self)@
                },
            },
    {
        match self.connect(peer_id) {
            Ok(mut actions) => {
                actions.push(Action::CreateOffer { peer: peer_id.clone() });
                Ok(actions)
            },
            Err(e) => Err(e),
        }
    }

    /// Accepts a call that a peer offered. Refused with
    /// `Error::PeerAlreadyExists` where the peer has a session. Otherwise the
    /// peer is registered in state `WaitingForSdp`, and the steps create its
    /// transport, attach every registered source, apply the remote offer and
    /// ask for an answer. The answer comes back as
    /// `TransportEvent::AnswerCreated`, which moves the peer to
    /// `WaitingForIce` and emits `Sdp`.
    pub fn accept_call(&mut self, peer_id: &PeerId, remote_sdp: SessionDescription) -> (result:
        Result<Vec<Action>, Error>)
        requires
            old(self)@.wf(),
        ensures
            final(self)@.wf(),
            match result {
                Ok(actions) => {
                    &&& !old(self)@.has_peer(peer_id@)
                    &&& final(self)@ == old(self)@.connect(*peer_id)
                    &&& actions@ == old(self)@.connect_actions(*peer_id).push(
                        Action::AcceptOffer { peer: *peer_id, sdp: remote_sdp },
                    ).push(Action::CreateAnswer { peer: *peer_id })
                },
                Err(e) => {
                    &&& e == Error::PeerAlreadyExists
                    &&& old(self)@.has_peer(peer_id@)
                    &&& final(self)@ == old(self)@
                },
            },
    {
        match self.connect(peer_id) {
            Ok(mut actions) => {
                actions.push(Action::AcceptOffer { peer: peer_id.clone(), sdp: remote_sdp });
                actions.push(Action::CreateAnswer { peer: peer_id.clone() });
                Ok(actions)
            },
            Err(e) => Err(e),
        }
    }
    /// Ends the session with a peer: the steps detach every sender of the
    /// peer and close its transport, and the peer is forgotten. For a peer
    /// without a session nothing changes and there is nothing to do.
    pub fn hang_up(&mut self, peer_id: &PeerId) -> (actions: Vec<Action>)
        requires
            old(self)@.wf(),
        ensures
            final(self)@.wf(),
            final(self)@ == old(self)@.hang_up(peer_id@),
            actions@ == old(self)@.hang_up_actions(*peer_id),
    {
        proof {
            lemma_hang_up_valid(self@, peer_id@);
        }
        match self.find_peer(peer_id) {
            Some(i) => {
                let ghost before = self.peers@;
                let peer = self.peers.remove(i);
                assert(self.peers@.map_values(|p: Peer| p@) == before.map_values(
                    |p: Peer| p@,
                ).remove(i as int));
                teardown(&peer, peer_id)
            },
            None => Vec::new(),
        }
    }

    /// Ends every session, peer by peer as `hang_up` does. The media sources
    /// stay registered.
    pub fn deinit(&mut self) -> (actions: Vec<Action>)
        requires
            old(self)@.wf(),
        ensures
            final(self)@.wf(),
            final(self)@ == old(self)@.without_peers(),
            actions@ == old(self)@.teardown_actions(old(self)@.peers.len() as int),
    {
        let ghost before = self@;
        let mut actions: Vec<Action> = Vec::new();
        let mut i: usize = 0;
        while i < self.peers.len()
            invariant
                i <= self.peers.len(),
                self@ == before,
                self.id == old(self).id,
                actions@ == before.teardown_actions(i as int),
            decreases self.peers.len() - i,
        {
            let mut steps = teardown(&self.peers[i], &self.peers[i].id);
            actions.append(&mut steps);
            i += 1;
        }
        self.peers = Vec::new();
        assert(self@.peers =~= Seq::empty());
        actions
    }

    /// Registers a media source and attaches it to every peer. Refused with
    /// `Error::DuplicateSourceId` where a source with this id is registered.
    /// Otherwise the steps create the source's track and attach it to the
    /// transport of every peer, in the order of the peers. A peer whose
    /// transport refuses the track is reported with
    /// `TransportEvent::AttachFailed`; the others are not affected.
    pub fn add_media_source(&mut self, source_id: MediaSourceId, codec: CodecCapability) -> (result:
        Result<Vec<Action>, Error>)
        requires
            old(self)@.wf(),
        ensures
            final(self)@.wf(),
            match result {
                Ok(actions) => {
                    &&& !old(self)@.has_source(source_id@)
                    &&& final(self)@ == old(self)@.add_source(source_id, codec)
                    &&& actions@ == old(self)@.add_source_actions(source_id, codec)
                },
                Err(e) => {
                    &&& e == Error::DuplicateSourceId
                    &&& old(self)@.has_source(source_id@)
                    &&& final(self)@ == old(self)@
                },
            },
    {
        if self.find_source(&source_id).is_some() {
            return Err(Error::DuplicateSourceId);
        }
        let ghost before = self@;
        proof {
            lemma_add_source_valid(before, source_id, codec);
        }
        let mut actions: Vec<Action> = Vec::new();
        actions.push(Action::CreateTrack { source: source_id.clone(), codec: codec.duplicate() });
        let mut i: usize = 0;
        while i < self.peers.len()
            invariant
                i <= self.peers.len(),
                self.peers.len() == before.peers.len(),
                self.sources@ == before.sources,
                self.id == old(self).id,
                forall|j: int| 0 <= j < i ==> (#[trigger] self.peers@[j])@ == before.peers[j].with_sender(
                    source_id,
                ),
                forall|j: int|
                    i <= j < self.peers.len() ==> (#[trigger] self.peers@[j])@ == before.peers[j],
                actions@ == seq![Action::CreateTrack { source: source_id, codec }]
                    + before.peers.take(i as int).map_values(
                    |p: PeerModel| Action::AttachTrack { peer: p.id, source: source_id },
                ),
            decreases self.peers.len() - i,
        {
            actions.push(
                Action::AttachTrack { peer: self.peers[i].id.clone(), source: source_id.clone() },
            );
            self.peers[i].senders.push(source_id.clone());
            assert(before.peers.take(i + 1) == before.peers.take(i as int).push(
                before.peers[i as int],
            ));
            i += 1;
        }
        assert(before.peers.take(i as int) == before.peers);
        self.sources.push(RegisteredSource { id: source_id, codec });
        assert(self@.peers =~= before.add_source(source_id, codec).peers);
        Ok(actions)
    }

    /// Removes a media source: the steps detach it from every peer that has
    /// a sender for it and drop its track, and it is forgotten. Where no
    /// source with this id is registered nothing changes and there is nothing
    /// to do.
    pub fn remove_media_source(&mut self, source_id: MediaSourceId) -> (actions: Vec<Action>)
        requires
            old(self)@.wf(),
        ensures
            final(self)@.wf(),
            final(self)@ == old(self)@.remove_source(source_id@),
            actions@ == old(self)@.remove_source_actions(source_id),
    {
        let ghost before = self@;
        proof {
            lemma_remove_source_valid(before, source_id@);
        }
        let mut actions: Vec<Action> = Vec::new();
        let mut i: usize = 0;
        while i < self.peers.len()
            invariant
                i <= self.peers.len(),
                self.peers.len() == before.peers.len(),
                self.sources@ == before.sources,
                self.id == old(self).id,
                forall|j: int|
                    0 <= j < i ==> (#[trigger] self.peers@[j])@ == before.peers[j].without_sender(
                        source_id@,
                    ),
                forall|j: int|
                    i <= j < self.peers.len() ==> (#[trigger] self.peers@[j])@ == before.peers[j],
                actions@ == before.detach_actions(source_id, i as int),
            decreases self.peers.len() - i,
        {
            proof {
                lemma_position_means(texts(before.peers[i as int].senders), source_id@);
            }
            match find_id(&self.peers[i].senders, &source_id) {
                Some(k) => {
                    actions.push(
                        Action::DetachTrack {
                            peer: self.peers[i].id.clone(),
                            source: source_id.clone(),
                        },
                    );
                    self.peers[i].senders.remove(k);
                },
                None => {},
            }
            i += 1;
        }
        match self.find_source(&source_id) {
            Some(k) => {
                self.sources.remove(k);
                actions.push(Action::RemoveTrack { source: source_id });
            },
            None => {},
        }
        assert(self@.peers =~= before.remove_source(source_id@).peers);
        actions
    }

    /// Takes a candidate that a peer sent. Refused with
    /// `Error::PeerNotFound` where the peer has no session; otherwise the one
    /// step hands the candidate to the peer's transport.
    pub fn recv_ice(&self, peer_id: &PeerId, candidate: IceCandidate) -> (result: Result<
        Vec<Action>,
        Error,
    >)
        ensures
            match result {
                Ok(actions) => self@.has_peer(peer_id@) && actions@ == seq![
                    Action::AddIceCandidate { peer: *peer_id, candidate },
                ],
                Err(e) => e == Error::PeerNotFound && !self@.has_peer(peer_id@),
            },
    {
        match self.find_peer(peer_id) {
            Some(_) => {
                let mut actions: Vec<Action> = Vec::new();
                actions.push(Action::AddIceCandidate { peer: peer_id.clone(), candidate });
                Ok(actions)
            },
            None => Err(Error::PeerNotFound),
        }
    }

    /// Takes a session description that a peer sent. Refused with
    /// `Error::PeerNotFound` where the peer has no session; otherwise the one
    /// step makes it the remote description of the peer's transport.
    pub fn recv_sdp(&self, peer_id: &PeerId, sdp: SessionDescription) -> (result: Result<
        Vec<Action>,
        Error,
    >)
        ensures
            match result {
                Ok(actions) => self@.has_peer(peer_id@) && actions@ == seq![
                    Action::SetRemoteDescription { peer: *peer_id, sdp },
                ],
                Err(e) => e == Error::PeerNotFound && !self@.has_peer(peer_id@),
            },
    {
        match self.find_peer(peer_id) {
            Some(_) => {
                let mut actions: Vec<Action> = Vec::new();
                actions.push(Action::SetRemoteDescription { peer: peer_id.clone(), sdp });
                Ok(actions)
            },
            None => Err(Error::PeerNotFound),
        }
    }

    /// Takes what the driver reports of a transport and returns the steps
    /// that answer it.
    pub fn handle_transport_event(&mut self, event: TransportEvent) -> (actions: Vec<Action>)
        requires
            old(self)@.wf(),
        ensures
            final(self)@.wf(),
            final(self)@ == old(self)@.after_event(event),
            actions@ == old(self)@.event_actions(event),
    {
        let mut actions: Vec<Action> = Vec::new();
        match event {
            TransportEvent::OfferCreated { peer, sdp } => {
                if self.find_peer(&peer).is_some() {
                    actions.push(
                        Action::SetLocalDescription { peer: peer.clone(), sdp: sdp.duplicate() },
                    );
                    actions.push(
                        Action::Emit { event: EmittedEvents::CallInitiated { dest: peer, sdp } },
                    );
                }
            },
            TransportEvent::AnswerCreated { peer, sdp } => {
                proof {
                    lemma_set_state_valid(self@, peer@, PeerState::WaitingForIce);
                }
                match self.find_peer(&peer) {
                    Some(i) => {
                        let ghost before = self.peers@;
                        self.peers[i].state = PeerState::WaitingForIce;
                        assert(self.peers@.map_values(|p: Peer| p@) =~= before.map_values(
                            |p: Peer| p@,
                        ).update(i as int, before[i as int]@.in_state(PeerState::WaitingForIce)));
                        actions.push(
                            Action::SetLocalDescription {
                                peer: peer.clone(),
                                sdp: sdp.duplicate(),
                            },
                        );
                        actions.push(Action::Emit { event: EmittedEvents::Sdp { dest: peer, sdp } });
                    },
                    None => {},
                }
            },
            TransportEvent::Failed { peer } => {
                actions = self.hang_up(&peer);
            },
            TransportEvent::AttachFailed { peer, source } => {
                proof {
                    lemma_attach_failed_valid(self@, peer@, source@);
                }
                match self.find_peer(&peer) {
                    Some(i) => {
                        let ghost before = self.peers@;
                        proof {
                            lemma_position_means(texts(before[i as int].senders@), source@);
                        }
                        match find_id(&self.peers[i].senders, &source) {
                            Some(k) => {
                                self.peers[i].senders.remove(k);
                            },
                            None => {},
                        }
                        assert(self.peers@.map_values(|p: Peer| p@) =~= before.map_values(
                            |p: Peer| p@,
                        ).update(i as int, before[i as int]@.without_sender(source@)));
                    },
                    None => {},
                }
            },
            TransportEvent::CandidateDiscovered { peer, candidate } => {
                match candidate {
                    Some(c) => {
                        actions.push(
                            Action::Emit { event: EmittedEvents::Ice { dest: peer, candidate: c } },
                        );
                    },
                    None => {},
                }
            },
            TransportEvent::ConnectionStateChanged { peer, state } => {
                if state == IceConnectionState::Failed {
                    actions.push(Action::Emit { event: EmittedEvents::Disconnected { peer } });
                }
            },
            TransportEvent::TrackOpened { peer, track } => {
                match track {
                    Some(t) => {
                        actions.push(
                            Action::Emit { event: EmittedEvents::TrackAdded { peer, track: t } },
                        );
                    },
                    None => {},
                }
            },
        }
        actions
    }
}

/// The steps that detach every sender of `peer` and close its transport.
fn teardown(peer: &Peer, address: &PeerId) -> (actions: Vec<Action>)
    ensures
        actions@ == peer@.teardown(*address),
{
    let mut actions: Vec<Action> = Vec::new();
    let mut k: usize = 0;
    while k < peer.senders.len()
        invariant
            k <= peer.senders.len(),
            actions@ == peer.senders@.take(k as int).map_values(
                |s: MediaSourceId| Action::DetachTrack { peer: *address, source: s },
            ),
        decreases peer.senders.len() - k,
    {
        actions.push(
            Action::DetachTrack { peer: address.clone(), source: peer.senders[k].clone() },
        );
        assert(peer.senders@.take(k + 1) == peer.senders@.take(k as int).push(
            peer.senders@[k as int],
        ));
        k += 1;
    }
    assert(peer.senders@.take(k as int) == peer.senders@);
    actions.push(Action::CloseTransport { peer: address.clone() });
    actions
}

} // verus!
