//! What flows between the session controller, the transport driver and the
//! application.

use vstd::prelude::*;
use crate::error::Error;
use crate::types::{
    CodecCapability, IceCandidate, IceConnectionState, IncomingTrack, MediaSourceId, PeerId,
    SessionDescription,
};

verus! {

/// What the controller tells the application. Events about one peer are
/// emitted in the order of the calls that caused them.
#[derive(Clone, Debug, PartialEq, Eq)]
pub enum EmittedEvents {
    /// A local candidate to be delivered to `dest`.
    Ice { dest: PeerId, candidate: IceCandidate },
    /// The answer to an accepted call, to be delivered to `dest`.
    Sdp { dest: PeerId, sdp: SessionDescription },
    /// The offer of a dialled call, to be delivered to `dest`.
    CallInitiated { dest: PeerId, sdp: SessionDescription },
    /// The transport lost the peer. Whether to dial again is up to the
    /// application.
    Disconnected { peer: PeerId },
    /// A remote track became available. The application owns it from here on.
    TrackAdded { peer: PeerId, track: IncomingTrack },
}

/// One step that the driver performs for the controller. The driver carries
/// the steps of one list out in order. What it does when a step fails is
/// the step's `recovery`.
#[derive(Clone, Debug, PartialEq, Eq)]
pub enum Action {
    /// Create the transport of `peer` and subscribe to its events.
    CreateTransport { peer: PeerId },
    /// Tear the transport of `peer` down.
    CloseTransport { peer: PeerId },
    /// Create the local track of a media source.
    CreateTrack { source: MediaSourceId, codec: CodecCapability },
    /// Drop the local track of a media source.
    RemoveTrack { source: MediaSourceId },
    /// Attach the local track of `source` to the transport of `peer`.
    AttachTrack { peer: PeerId, source: MediaSourceId },
    /// Detach the sender of `source` from the transport of `peer`.
    DetachTrack { peer: PeerId, source: MediaSourceId },
    /// Create an offer and report it with `TransportEvent::OfferCreated`.
    CreateOffer { peer: PeerId },
    /// Create an answer and report it with `TransportEvent::AnswerCreated`.
    CreateAnswer { peer: PeerId },
    /// Make `sdp` the local description of the transport.
    SetLocalDescription { peer: PeerId, sdp: SessionDescription },
    /// Make the offer of a call that is being accepted the remote
    /// description of the transport.
    AcceptOffer { peer: PeerId, sdp: SessionDescription },
    /// Make a description that the peer sent during a session the remote
    /// description of the transport.
    SetRemoteDescription { peer: PeerId, sdp: SessionDescription },
    /// Hand a remote candidate to the transport.
    AddIceCandidate { peer: PeerId, candidate: IceCandidate },
    /// Deliver an event to the application.
    Emit { event: EmittedEvents },
}

/// What the driver reports back to the controller.
#[derive(Clone, Debug, PartialEq, Eq)]
pub enum TransportEvent {
    /// The transport created the offer that `Action::CreateOffer` asked for.
    OfferCreated { peer: PeerId, sdp: SessionDescription },
    /// The transport created the answer that `Action::CreateAnswer` asked for.
    AnswerCreated { peer: PeerId, sdp: SessionDescription },
    /// Creating the transport or a step of the negotiation failed.
    Failed { peer: PeerId },
    /// The transport refused to attach the track of `source`.
    AttachFailed { peer: PeerId, source: MediaSourceId },
    /// The transport found a local candidate; `None` ends the gathering.
    CandidateDiscovered { peer: PeerId, candidate: Option<IceCandidate> },
    /// The connectivity of the transport changed.
    ConnectionStateChanged { peer: PeerId, state: IceConnectionState },
    /// The remote side opened a track.
    TrackOpened { peer: PeerId, track: Option<IncomingTrack> },
}

/// What the driver does when the transport fails at a step.
#[derive(Clone, Debug, PartialEq, Eq)]
pub enum Recovery {
    /// Log the failure and go on with the list.
    GoOn,
    /// Hand `report` to the controller and go on with the list.
    Report { report: TransportEvent },
    /// Hand `report` to the controller, carry out the steps that it answers
    /// with, drop the rest of the list and return `error` to the caller.
    GiveUp { report: TransportEvent, error: Error },
    /// Drop the rest of the list and return `error` to the caller.
    Fail { error: Error },
}

impl Action {
    /// What a failure of the step calls for. A failed step of the
    /// negotiation that begins a call ends the session: creating the
    /// transport, creating or applying the local description, and applying
    /// the offer of an accepted call. A refused attach is reported and costs
    /// only that sender. A failed detach or close is logged. A description
    /// or a candidate that the transport refuses during a session fails the
    /// call that brought it and leaves the session as it is. An event that
    /// cannot be delivered means that the application is gone.
    pub open spec fn spec_recovery(self) -> Recovery {
        match self {
            Action::CreateTransport { peer } => Recovery::GiveUp {
                report: TransportEvent::Failed { peer },
                error: Error::TransportFailure,
            },
            Action::CreateOffer { peer } => Recovery::GiveUp {
                report: TransportEvent::Failed { peer },
                error: Error::TransportFailure,
            },
            Action::CreateAnswer { peer } => Recovery::GiveUp {
                report: TransportEvent::Failed { peer },
                error: Error::TransportFailure,
            },
            Action::SetLocalDescription { peer, sdp } => Recovery::GiveUp {
                report: TransportEvent::Failed { peer },
                error: Error::TransportFailure,
            },
            Action::AcceptOffer { peer, sdp } => Recovery::GiveUp {
                report: TransportEvent::Failed { peer },
                error: Error::TransportFailure,
            },
            Action::AttachTrack { peer, source } => Recovery::Report {
                report: TransportEvent::AttachFailed { peer, source },
            },
            Action::SetRemoteDescription { peer, sdp } => Recovery::Fail {
                error: Error::TransportFailure,
            },
            Action::AddIceCandidate { peer, candidate } => Recovery::Fail {
                error: Error::TransportFailure,
            },
            Action::Emit { event } => Recovery::Fail { error: Error::ChannelClosed },
            Action::CloseTransport { peer } => Recovery::GoOn,
            Action::DetachTrack { peer, source } => Recovery::GoOn,
            Action::CreateTrack { source, codec } => Recovery::GoOn,
            Action::RemoveTrack { source } => Recovery::GoOn,
        }
    }

    /// What the driver does when the transport fails at this step.
    pub fn recovery(&self) -> (recovery: Recovery)
        ensures
            recovery == self.spec_recovery(),
    {
        match self {
            Action::CreateTransport { peer } => give_up(peer),
            Action::CreateOffer { peer } => give_up(peer),
            Action::CreateAnswer { peer } => give_up(peer),
            Action::SetLocalDescription { peer, .. } => give_up(peer),
            Action::AcceptOffer { peer, .. } => give_up(peer),
            Action::AttachTrack { peer, source } => Recovery::Report {
                report: TransportEvent::AttachFailed { peer: peer.clone(), source: source.clone() },
            },
            Action::SetRemoteDescription { .. } => Recovery::Fail { error: Error::TransportFailure },
            Action::AddIceCandidate { .. } => Recovery::Fail { error: Error::TransportFailure },
            Action::Emit { .. } => Recovery::Fail { error: Error::ChannelClosed },
            Action::CloseTransport { .. } => Recovery::GoOn,
            Action::DetachTrack { .. } => Recovery::GoOn,
            Action::CreateTrack { .. } => Recovery::GoOn,
            Action::RemoveTrack { .. } => Recovery::GoOn,
        }
    }
}

/// The recovery from a failed step of the negotiation with `peer`.
fn give_up(peer: &PeerId) -> (recovery: Recovery)
    ensures
        recovery == (Recovery::GiveUp {
            report: TransportEvent::Failed { peer: *peer },
            error: Error::TransportFailure,
        }),
{
    Recovery::GiveUp {
        report: TransportEvent::Failed { peer: peer.clone() },
        error: Error::TransportFailure,
    }
}

} // verus!
