//! Many simultaneous peer-to-peer media sessions from one local endpoint.
//!
//! The crate holds the two halves of such an endpoint as verified, I/O-free
//! state machines: the session controller, which tracks peers and fans the
//! local media sources out to them, and the media pipeline, which turns raw
//! samples into sequenced packets and reorders received packets back into
//! frames. A driver owns the sockets, devices and codecs; it performs the
//! actions that these state machines hand out and reports what happened.

pub mod background;
pub mod call;
pub mod controller;
pub mod error;
pub mod events;
pub mod framer;
pub mod jitter;
pub mod laws;
pub mod media;
pub mod mime;
pub mod model;
pub mod packetizer;
pub mod playback;
pub mod round_trip;
pub mod search;
pub mod signaling;
pub mod text;
pub mod types;
pub mod wire;
pub mod worker;

pub use crate::controller::{Controller, InitArgs, Peer};
pub use crate::error::Error;
pub use crate::events::{Action, EmittedEvents, TransportEvent};
pub use crate::mime::MimeType;
pub use crate::types::{CodecCapability, MediaSourceId, PeerId, PeerState};
