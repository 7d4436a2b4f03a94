//! The media worker: it holds the outgoing track of each peer for one kind
//! of media and forwards every packet of the local device to all of them.
//! The worker decides; the driver waits for the next command or packet and
//! writes to the tracks.

use vstd::prelude::*;
use crate::error::Error;
use crate::model::{distinct, lemma_position_means, position};
use crate::search::{find, names, Named};
use crate::packetizer::RtpPacket;
use crate::types::PeerId;

verus! {

/// What the controller tells a worker.
#[derive(Clone, Debug, PartialEq, Eq)]
pub enum MediaWorkerCommands {
    /// Forward to `track` for `peer` from now on, in place of any track that
    /// the peer had.
    AddTrack { peer: PeerId, track: u64 },
    /// Stop forwarding for `peer`.
    RemoveTrack { peer: PeerId },
    /// Stop.
    Terminate,
}

/// What reaches a worker: a command or a packet, or the news that the
/// channel of one of them was closed.
#[derive(Clone, Debug, PartialEq, Eq)]
pub enum WorkerInput {
    Control { command: Option<MediaWorkerCommands> },
    Media { packet: Option<RtpPacket> },
}

/// What the driver does after the worker took an input.
#[derive(Clone, Debug, PartialEq, Eq)]
pub enum WorkerStep {
    /// Wait for the next input.
    Continue,
    /// Write the packet to each of the tracks, then wait for the next input.
    /// A track that cannot be written to is skipped.
    Forward { tracks: Vec<u64>, packet: RtpPacket },
    /// Stop the worker. The error tells why, where the worker was not told
    /// to stop: a channel was closed.
    Stop { error: Option<Error> },
}

/// The outgoing track of one peer.
#[derive(Clone, Debug, PartialEq, Eq)]
pub struct OutgoingTrack {
    pub peer: PeerId,
    pub track: u64,
}

impl Named for OutgoingTrack {
    open spec fn spec_name(&self) -> Seq<char> {
        self.peer@
    }

    fn is_named(&self, id: &String) -> (same: bool) {
        self.peer == *id
    }
}

/// Forwards the packets of one local device to the tracks of the peers.
pub struct MediaWorker {
    outgoing_media_tracks: Vec<OutgoingTrack>,
}

/// The characters of the peers' ids, in order.
pub open spec fn track_peers(tracks: Seq<OutgoingTrack>) -> Seq<Seq<char>> {
    tracks.map_values(|t: OutgoingTrack| t.peer@)
}

/// The tracks, in order.
pub open spec fn track_handles(tracks: Seq<OutgoingTrack>) -> Seq<u64> {
    tracks.map_values(|t: OutgoingTrack| t.track)
}

/// The tracks after a command. A track that is added for a peer that has
/// one takes its place; otherwise it is added behind the others.
pub open spec fn tracks_after(tracks: Seq<OutgoingTrack>, command: MediaWorkerCommands) -> Seq<
    OutgoingTrack,
> {
    match command {
        MediaWorkerCommands::AddTrack { peer, track } => match position(
            track_peers(tracks),
            peer@,
        ) {
            Some(i) => tracks.update(i, OutgoingTrack { peer: tracks[i].peer, track }),
            None => tracks.push(OutgoingTrack { peer, track }),
        },
        MediaWorkerCommands::RemoveTrack { peer } => match position(track_peers(tracks), peer@) {
            Some(i) => tracks.remove(i),
            None => tracks,
        },
        MediaWorkerCommands::Terminate => tracks,
    }
}

impl MediaWorker {
    /// The outgoing tracks, in the order in which their peers were added.
    pub closed spec fn tracks(&self) -> Seq<OutgoingTrack> {
        self.outgoing_media_tracks@
    }

    /// Validity: every peer has at most one track.
    pub open spec fn wf(&self) -> bool {
        distinct(track_peers(self.tracks()))
    }

    /// A worker without tracks.
    pub fn new() -> (worker: MediaWorker)
        ensures
            worker.wf(),
            worker.tracks() == Seq::<OutgoingTrack>::empty(),
    {
        MediaWorker { outgoing_media_tracks: Vec::new() }
    }

    fn find(&self, peer: &PeerId) -> (at: Option<usize>)
        ensures
            match at {
                Some(i) => i < self.tracks().len() && position(track_peers(self.tracks()), peer@)
                    == Some(i as int),
                None => position(track_peers(self.tracks()), peer@) == None::<int>,
            },
    {
        assert(names(self.outgoing_media_tracks@) =~= track_peers(self.tracks()));
        find(&self.outgoing_media_tracks, peer)
    }

    /// Takes one input and tells the driver how to go on. A command changes
    /// the tracks; a packet is forwarded to all of them, in order;
    /// `Terminate` stops the worker, and so does a closed channel, with
    /// `Error::ChannelClosed`.
    pub fn run(&mut self, input: WorkerInput) -> (step: WorkerStep)
        requires
            old(self).wf(),
        ensures
            final(self).wf(),
            final(self).tracks() == match input {
                WorkerInput::Control { command: Some(command) } => tracks_after(
                    old(self).tracks(),
                    command,
                ),
                _ => old(self).tracks(),
            },
            match input {
                WorkerInput::Control { command: Some(MediaWorkerCommands::Terminate) } => step
                    == (WorkerStep::Stop { error: None }),
                WorkerInput::Control { command: Some(_) } => step == WorkerStep::Continue,
                WorkerInput::Control { command: None } => step == (WorkerStep::Stop {
                    error: Some(Error::ChannelClosed),
                }),
                WorkerInput::Media { packet: Some(p) } => step matches WorkerStep::Forward {
                    tracks,
                    packet,
                } && packet == p && tracks@ == track_handles(old(self).tracks()),
                WorkerInput::Media { packet: None } => step == (WorkerStep::Stop {
                    error: Some(Error::ChannelClosed),
                }),
            },
    {
        match input {
            WorkerInput::Control { command: Some(MediaWorkerCommands::AddTrack { peer, track }) } => {
                proof {
                    lemma_position_means(track_peers(self.tracks()), peer@);
                }
                let ghost before = self.tracks();
                match self.find(&peer) {
                    Some(i) => {
                        self.outgoing_media_tracks[i].track = track;
                        assert(self.tracks() =~= before.update(
                            i as int,
                            OutgoingTrack { peer: before[i as int].peer, track },
                        ));
                        assert(track_peers(self.tracks()) =~= track_peers(before));
                    },
                    None => {
                        self.outgoing_media_tracks.push(OutgoingTrack { peer, track });
                        assert(track_peers(self.tracks()) =~= track_peers(before).push(peer@));
                    },
                }
                WorkerStep::Continue
            },
            WorkerInput::Control { command: Some(MediaWorkerCommands::RemoveTrack { peer }) } => {
                let ghost before = self.tracks();
                match self.find(&peer) {
                    Some(i) => {
                        self.outgoing_media_tracks.remove(i);
                        proof {
                            assert(track_peers(self.tracks()) =~= track_peers(before).remove(
                                i as int,
                            ));
                            crate::laws::lemma_remove_distinct(track_peers(before), i as int);
                        }
                    },
                    None => {},
                }
                WorkerStep::Continue
            },
            WorkerInput::Control { command: Some(MediaWorkerCommands::Terminate) } => {
                WorkerStep::Stop { error: None }
            },
            WorkerInput::Control { command: None } => WorkerStep::Stop {
                error: Some(Error::ChannelClosed),
            },
            WorkerInput::Media { packet: Some(packet) } => {
                let mut tracks: Vec<u64> = Vec::new();
                let mut i: usize = 0;
                while i < self.outgoing_media_tracks.len()
                    invariant
                        i <= self.outgoing_media_tracks.len(),
                        self.tracks() == old(self).tracks(),
                        tracks@ == track_handles(self.tracks()).take(i as int),
                    decreases self.outgoing_media_tracks.len() - i,
                {
                    tracks.push(self.outgoing_media_tracks[i].track);
                    assert(tracks@ =~= track_handles(self.tracks()).take(i + 1));
                    i += 1;
                }
                assert(tracks@ =~= track_handles(self.tracks()));
                WorkerStep::Forward { tracks, packet }
            },
            WorkerInput::Media { packet: None } => WorkerStep::Stop {
                error: Some(Error::ChannelClosed),
            },
        }
    }
}

} // verus!
