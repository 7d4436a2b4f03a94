//! The connection store behind a command queue: commands arrive one at a
//! time, each is carried out on the store, and each is answered with
//! success or failure. The store knows the peers that have a transport; it
//! knows nothing of media sources.

use vstd::prelude::*;
use crate::error::Error;
use crate::events::Action;
use crate::laws::lemma_remove_distinct;
use crate::model::{distinct, lemma_position_means, position, texts};
use crate::search::{find, names};
use crate::types::{IceCandidate, PeerId, SessionDescription};

verus! {

/// What a connection store is made from.
#[derive(Clone, Debug, PartialEq, Eq)]
pub struct SimpleWebRtcInit {
    /// The id of the local endpoint.
    pub client_id: PeerId,
}

/// The peers that have a transport.
pub struct SimpleWebRtc {
    client_id: PeerId,
    connections: Vec<PeerId>,
}

/// A command for the connection store.
#[derive(Clone, Debug, PartialEq, Eq)]
pub enum InternalCmd {
    Connect { peer: PeerId },
    Disconnect { peer: PeerId },
    IceCandidate { peer: PeerId, candidate: IceCandidate },
    Sdp { peer: PeerId, sdp: SessionDescription },
}

/// The answer to a command: whether it succeeded, and the steps that the
/// driver carries out for it.
#[derive(Debug, PartialEq, Eq)]
pub struct Handled {
    pub response: Result<(), ()>,
    pub actions: Vec<Action>,
}

/// Whether a peer is among the connections.
pub open spec fn connected(connections: Seq<PeerId>, peer: Seq<char>) -> bool {
    position(texts(connections), peer).is_some()
}

/// The connections after a command.
pub open spec fn connections_after(connections: Seq<PeerId>, cmd: InternalCmd) -> Seq<PeerId> {
    match cmd {
        InternalCmd::Connect { peer } => if connected(connections, peer@) {
            connections
        } else {
            connections.push(peer)
        },
        InternalCmd::Disconnect { peer } => match position(texts(connections), peer@) {
            Some(i) => connections.remove(i),
            None => connections,
        },
        _ => connections,
    }
}

/// The steps that carry a command out, or the reason why it is refused: a
/// connection to a peer that has one, and a candidate or a description for
/// a peer that has none. Disconnecting a peer that has no connection
/// succeeds and does nothing.
pub open spec fn command_actions(connections: Seq<PeerId>, cmd: InternalCmd) -> Result<
    Seq<Action>,
    Error,
> {
    match cmd {
        InternalCmd::Connect { peer } => if connected(connections, peer@) {
            Err(Error::PeerAlreadyExists)
        } else {
            Ok(seq![Action::CreateTransport { peer }])
        },
        InternalCmd::Disconnect { peer } => if connected(connections, peer@) {
            Ok(seq![Action::CloseTransport { peer }])
        } else {
            Ok(Seq::empty())
        },
        InternalCmd::IceCandidate { peer, candidate } => if connected(connections, peer@) {
            Ok(seq![Action::AddIceCandidate { peer, candidate }])
        } else {
            Err(Error::PeerNotFound)
        },
        InternalCmd::Sdp { peer, sdp } => if connected(connections, peer@) {
            Ok(seq![Action::SetRemoteDescription { peer, sdp }])
        } else {
            Err(Error::PeerNotFound)
        },
    }
}

impl SimpleWebRtc {
    /// The id of the local endpoint.
    pub closed spec fn spec_client_id(&self) -> PeerId {
        self.client_id
    }

    /// The peers that have a transport, in the order in which they were
    /// connected.
    pub closed spec fn connections(&self) -> Seq<PeerId> {
        self.connections@
    }

    /// Validity: no peer is connected twice.
    pub open spec fn wf(&self) -> bool {
        distinct(texts(self.connections()))
    }

    /// A store without connections.
    pub fn init(args: SimpleWebRtcInit) -> (store: SimpleWebRtc)
        ensures
            store.wf(),
            store.spec_client_id() == args.client_id,
            store.connections() == Seq::<PeerId>::empty(),
    {
        SimpleWebRtc { client_id: args.client_id, connections: Vec::new() }
    }

    fn find(&self, peer: &PeerId) -> (at: Option<usize>)
        ensures
            match at {
                Some(i) => i < self.connections().len() && position(
                    texts(self.connections()),
                    peer@,
                ) == Some(i as int),
                None => position(texts(self.connections()), peer@) == None::<int>,
            },
    {
        assert(names(self.connections@) =~= texts(self.connections()));
        find(&self.connections, peer)
    }

    /// Connects a peer: the one step creates its transport. Refused with
    /// `Error::PeerAlreadyExists` where the peer is connected.
    pub fn connect(&mut self, peer: &PeerId) -> (result: Result<Vec<Action>, Error>)
        requires
            old(self).wf(),
        ensures
            final(self).wf(),
            final(self).spec_client_id() == old(self).spec_client_id(),
            final(self).connections() == connections_after(
                old(self).connections(),
                InternalCmd::Connect { peer: *peer },
            ),
            match result {
                Ok(actions) => command_actions(
                    old(self).connections(),
                    InternalCmd::Connect { peer: *peer },
                ) == Ok::<Seq<Action>, Error>(actions@),
                Err(e) => command_actions(
                    old(self).connections(),
                    InternalCmd::Connect { peer: *peer },
                ) == Err::<Seq<Action>, Error>(e),
            },
    {
        proof {
            lemma_position_means(texts(self.connections()), peer@);
        }
        match self.find(peer) {
            Some(_) => Err(Error::PeerAlreadyExists),
            None => {
                let ghost before = self.connections();
                self.connections.push(peer.clone());
                assert(texts(self.connections()) =~= texts(before).push(peer@));
                let mut actions: Vec<Action> = Vec::new();
                actions.push(Action::CreateTransport { peer: peer.clone() });
                Ok(actions)
            },
        }
    }

    /// Disconnects a peer: the one step closes its transport. For a peer
    /// that is not connected nothing changes and there is nothing to do.
    pub fn disconnect(&mut self, peer: &PeerId) -> (actions: Vec<Action>)
        requires
            old(self).wf(),
        ensures
            final(self).wf(),
            final(self).spec_client_id() == old(self).spec_client_id(),
            final(self).connections() == connections_after(
                old(self).connections(),
                InternalCmd::Disconnect { peer: *peer },
            ),
            command_actions(old(self).connections(), InternalCmd::Disconnect { peer: *peer })
                == Ok::<Seq<Action>, Error>(actions@),
    {
        let mut actions: Vec<Action> = Vec::new();
        match self.find(peer) {
            Some(i) => {
                let ghost before = self.connections();
                self.connections.remove(i);
                proof {
                    assert(texts(self.connections()) =~= texts(before).remove(i as int));
                    lemma_remove_distinct(texts(before), i as int);
                }
                actions.push(Action::CloseTransport { peer: peer.clone() });
            },
            None => {},
        }
        actions
    }

    /// Takes a candidate of a peer: the one step hands it to the peer's
    /// transport. Refused with `Error::PeerNotFound` where the peer is not
    /// connected.
    pub fn recv_ice_candidate(&self, peer: &PeerId, candidate: IceCandidate) -> (result: Result<
        Vec<Action>,
        Error,
    >)
        ensures
            match result {
                Ok(actions) => command_actions(
                    self.connections(),
                    InternalCmd::IceCandidate { peer: *peer, candidate },
                ) == Ok::<Seq<Action>, Error>(actions@),
                Err(e) => command_actions(
                    self.connections(),
                    InternalCmd::IceCandidate { peer: *peer, candidate },
                ) == Err::<Seq<Action>, Error>(e),
            },
    {
        match self.find(peer) {
            Some(_) => {
                let mut actions: Vec<Action> = Vec::new();
                actions.push(Action::AddIceCandidate { peer: peer.clone(), candidate });
                Ok(actions)
            },
            None => Err(Error::PeerNotFound),
        }
    }

    /// Takes a session description of a peer: the one step makes it the
    /// remote description of the peer's transport. Refused with
    /// `Error::PeerNotFound` where the peer is not connected.
    pub fn recv_sdp(&self, peer: &PeerId, sdp: SessionDescription) -> (result: Result<
        Vec<Action>,
        Error,
    >)
        ensures
            match result {
                Ok(actions) => command_actions(
                    self.connections(),
                    InternalCmd::Sdp { peer: *peer, sdp },
                ) == Ok::<Seq<Action>, Error>(actions@),
                Err(e) => command_actions(self.connections(), InternalCmd::Sdp { peer: *peer, sdp })
                    == Err::<Seq<Action>, Error>(e),
            },
    {
        match self.find(peer) {
            Some(_) => {
                let mut actions: Vec<Action> = Vec::new();
                actions.push(Action::SetRemoteDescription { peer: peer.clone(), sdp });
                Ok(actions)
            },
            None => Err(Error::PeerNotFound),
        }
    }
}

/// Carries one command out on the store and answers it. A command that the
/// store refuses is answered with failure and asks nothing of the driver.
pub fn run(store: &mut SimpleWebRtc, cmd: InternalCmd) -> (handled: Handled)
    requires
        old(store).wf(),
    ensures
        final(store).wf(),
        final(store).spec_client_id() == old(store).spec_client_id(),
        final(store).connections() == connections_after(old(store).connections(), cmd),
        match command_actions(old(store).connections(), cmd) {
            Ok(actions) => handled.response == Ok::<(), ()>(()) && handled.actions@ == actions,
            Err(_) => handled.response == Err::<(), ()>(()) && handled.actions@.len() == 0,
        },
{
    let result = match cmd {
        InternalCmd::Connect { peer } => store.connect(&peer),
        InternalCmd::Disconnect { peer } => Ok(store.disconnect(&peer)),
        InternalCmd::IceCandidate { peer, candidate } => store.recv_ice_candidate(&peer, candidate),
        InternalCmd::Sdp { peer, sdp } => store.recv_sdp(&peer, sdp),
    };
    match result {
        Ok(actions) => Handled { response: Ok(()), actions },
        Err(_) => Handled { response: Err(()), actions: Vec::new() },
    }
}

} // verus!
