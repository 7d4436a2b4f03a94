//! Plain values that cross the boundary between the library and its driver:
//! identifiers, codec capabilities, session descriptions and candidates.

use vstd::prelude::*;

verus! {

/// Identifies a remote endpoint for the lifetime of its session.
pub type PeerId = String;

/// The name that the application gives to a local media source.
pub type MediaSourceId = String;

/// Lifecycle of the session with one remote endpoint. The state is kept for
/// observation; no operation is refused because of it.
#[derive(Clone, Copy, Debug, PartialEq, Eq, Structural)]
pub enum PeerState {
    Disconnected,
    WaitingForSdp,
    WaitingForIce,
    Connected,
}

/// What a media source sends: the codec's MIME type, its clock rate in ticks
/// per second and its number of channels.
#[derive(Clone, Debug, PartialEq, Eq)]
pub struct CodecCapability {
    pub mime_type: String,
    pub clock_rate: u32,
    pub channels: u16,
}

impl CodecCapability {
    /// A copy with the same contents.
    pub fn duplicate(&self) -> (copy: CodecCapability)
        ensures
            copy == *self,
    {
        CodecCapability {
            mime_type: self.mime_type.clone(),
            clock_rate: self.clock_rate,
            channels: self.channels,
        }
    }
}

/// The role of a session description in the offer/answer exchange.
#[derive(Clone, Copy, Debug, PartialEq, Eq, Structural)]
pub enum SdpType {
    Unspecified,
    Offer,
    Pranswer,
    Answer,
    Rollback,
}

/// A session description as it travels over the signaling channel. The
/// library carries it between the transport and the application and never
/// reads the text.
#[derive(Clone, Debug, PartialEq, Eq)]
pub struct SessionDescription {
    pub sdp_type: SdpType,
    pub sdp: String,
}

impl SessionDescription {
    /// A copy with the same contents.
    pub fn duplicate(&self) -> (copy: SessionDescription)
        ensures
            copy == *self,
    {
        SessionDescription { sdp_type: self.sdp_type, sdp: self.sdp.clone() }
    }
}

/// The transport protocol of a candidate.
#[derive(Clone, Copy, Debug, PartialEq, Eq, Structural)]
pub enum IceProtocol {
    Unspecified,
    Udp,
    Tcp,
}

/// How a candidate address was learnt.
#[derive(Clone, Copy, Debug, PartialEq, Eq, Structural)]
pub enum IceCandidateType {
    Unspecified,
    Host,
    Srflx,
    Prflx,
    Relay,
}

/// A network-reachability candidate of one endpoint. Like a session
/// description it is carried, not interpreted.
#[derive(Clone, Debug, PartialEq, Eq)]
pub struct IceCandidate {
    pub stats_id: String,
    pub foundation: String,
    pub priority: u32,
    pub address: String,
    pub protocol: IceProtocol,
    pub port: u16,
    pub typ: IceCandidateType,
    pub component: u16,
    pub related_address: String,
    pub related_port: u16,
    pub tcp_type: String,
}

impl IceCandidate {
    /// A copy with the same contents.
    pub fn duplicate(&self) -> (copy: IceCandidate)
        ensures
            copy == *self,
    {
        IceCandidate {
            stats_id: self.stats_id.clone(),
            foundation: self.foundation.clone(),
            priority: self.priority,
            address: self.address.clone(),
            protocol: self.protocol,
            port: self.port,
            typ: self.typ,
            component: self.component,
            related_address: self.related_address.clone(),
            related_port: self.related_port,
            tcp_type: self.tcp_type.clone(),
        }
    }
}

/// Connectivity of a transport as its connectivity checks report it.
#[derive(Clone, Copy, Debug, PartialEq, Eq, Structural)]
pub enum IceConnectionState {
    Unspecified,
    New,
    Checking,
    Connected,
    Completed,
    Disconnected,
    Failed,
    Closed,
}

/// A media track that a remote peer opened. `handle` is the driver's key for
/// the live track; `codec` is what the peer announced for it.
#[derive(Clone, Debug, PartialEq, Eq)]
pub struct IncomingTrack {
    pub handle: u64,
    pub codec: CodecCapability,
}

impl IncomingTrack {
    /// A copy with the same contents.
    pub fn duplicate(&self) -> (copy: IncomingTrack)
        ensures
            copy == *self,
    {
        IncomingTrack { handle: self.handle, codec: self.codec.duplicate() }
    }
}

} // verus!
