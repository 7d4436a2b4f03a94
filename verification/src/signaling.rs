//! The signaling relay: what travels between two endpoints out of band, the
//! routes it travels on, and how a request on a route becomes a call on the
//! session controller. The relay's transport, and the encoding of the
//! messages as JSON bodies `{src, sdp}` and `{src, ice}`, belong to the
//! driver.

use vstd::prelude::*;
use vstd::string::StringExecFns;
use crate::controller::Controller;
use crate::error::Error;
use crate::events::{Action, EmittedEvents};
use crate::laws::lemma_hang_up_valid;
use crate::mime::MimeType;
use crate::model::Model;
use crate::text::same_text;
use crate::types::{IceCandidate, IncomingTrack, PeerId, SessionDescription};

verus! {

/// A session description and the endpoint that sends it.
#[derive(Clone, Debug, PartialEq, Eq)]
pub struct SigSdp {
    pub src: String,
    pub sdp: SessionDescription,
}

/// A candidate and the endpoint that sends it.
#[derive(Clone, Debug, PartialEq, Eq)]
pub struct SigIce {
    pub src: String,
    pub ice: IceCandidate,
}

/// What one endpoint tells another over the relay.
#[derive(Clone, Debug, PartialEq, Eq)]
pub enum PeerSignal {
    /// A candidate of the sender.
    Ice(SigIce),
    /// The sender's answer to a call.
    Sdp(SigSdp),
    /// The sender calls, with its offer.
    CallInitiated(SigSdp),
    /// The sender, named by its id, ended the call.
    CallTerminated(String),
    /// The sender, named by its id, refused the call.
    CallRejected(String),
}

/// The routes of the relay. Each takes a `POST` request.
#[derive(Clone, Copy, Debug, PartialEq, Eq, Structural)]
pub enum Route {
    Connect,
    Disconnect,
    Sdp,
    IceCandidate,
    Reject,
}

/// What the body of a request holds, once the driver has decoded it.
#[derive(Clone, Debug, PartialEq, Eq)]
pub enum Payload {
    /// Plain text: the id of the sender.
    Text(String),
    /// A JSON body `{src, sdp}`.
    Sdp(SigSdp),
    /// A JSON body `{src, ice}`.
    Ice(SigIce),
}

/// The kinds of payload.
#[derive(Clone, Copy, Debug, PartialEq, Eq, Structural)]
pub enum PayloadKind {
    Text,
    Sdp,
    Ice,
}

/// Status of a request that was understood.
pub const STATUS_OK: u16 = 200;

/// Status of a request whose body could not be read as the route demands.
pub const STATUS_BAD_REQUEST: u16 = 400;

/// Status of a request on an unknown route.
pub const STATUS_NOT_FOUND: u16 = 404;

/// The relay's answer to a request: the status of the response, and the
/// signal to hand to the endpoint, if the request carried one.
#[derive(Clone, Debug, PartialEq, Eq)]
pub struct Reply {
    pub status: u16,
    pub signal: Option<PeerSignal>,
}

/// A request to be sent to another endpoint's relay with `POST`.
#[derive(Clone, Debug, PartialEq, Eq)]
pub struct Outgoing {
    pub url: String,
    pub payload: Payload,
}

impl Route {
    /// The name of the route, as it stands in the URL.
    pub open spec fn spec_name(self) -> Seq<char> {
        match self {
            Route::Connect => "connect"@,
            Route::Disconnect => "disconnect"@,
            Route::Sdp => "sdp"@,
            Route::IceCandidate => "ice-candidate"@,
            Route::Reject => "reject"@,
        }
    }

    /// The path of the route: a slash and its name.
    pub open spec fn spec_path(self) -> Seq<char> {
        "/"@ + self.spec_name()
    }

    /// The name of the route, as it stands in the URL.
    pub fn name(&self) -> (name: &'static str)
        ensures
            name@ == self.spec_name(),
    {
        match self {
            Route::Connect => "connect",
            Route::Disconnect => "disconnect",
            Route::Sdp => "sdp",
            Route::IceCandidate => "ice-candidate",
            Route::Reject => "reject",
        }
    }

    /// The kind of payload that a request on the route carries.
    pub fn expects(&self) -> (kind: PayloadKind)
        ensures
            kind == self.spec_expects(),
    {
        match self {
            Route::Connect => PayloadKind::Sdp,
            Route::Sdp => PayloadKind::Sdp,
            Route::IceCandidate => PayloadKind::Ice,
            Route::Disconnect => PayloadKind::Text,
            Route::Reject => PayloadKind::Text,
        }
    }

    /// The kind of payload that a request on the route carries.
    pub open spec fn spec_expects(self) -> PayloadKind {
        match self {
            Route::Connect => PayloadKind::Sdp,
            Route::Sdp => PayloadKind::Sdp,
            Route::IceCandidate => PayloadKind::Ice,
            Route::Disconnect => PayloadKind::Text,
            Route::Reject => PayloadKind::Text,
        }
    }

    /// The signal that a payload means on the route. Meaningful where the
    /// payload is of the kind that the route expects.
    pub open spec fn spec_signal(self, payload: Payload) -> PeerSignal {
        match (self, payload) {
            (Route::Connect, Payload::Sdp(sig)) => PeerSignal::CallInitiated(sig),
            (Route::Sdp, Payload::Sdp(sig)) => PeerSignal::Sdp(sig),
            (Route::IceCandidate, Payload::Ice(sig)) => PeerSignal::Ice(sig),
            (Route::Disconnect, Payload::Text(id)) => PeerSignal::CallTerminated(id),
            (_, Payload::Text(id)) => PeerSignal::CallRejected(id),
            (_, Payload::Sdp(sig)) => PeerSignal::Sdp(sig),
            (_, Payload::Ice(sig)) => PeerSignal::Ice(sig),
        }
    }
}

impl Payload {
    /// The kind of the payload.
    pub open spec fn kind(self) -> PayloadKind {
        match self {
            Payload::Text(_) => PayloadKind::Text,
            Payload::Sdp(_) => PayloadKind::Sdp,
            Payload::Ice(_) => PayloadKind::Ice,
        }
    }
}

/// The route of a path, if the path is one of a route.
pub open spec fn spec_route_of_path(path: Seq<char>) -> Option<Route> {
    if path == Route::Connect.spec_path() {
        Some(Route::Connect)
    } else if path == Route::Disconnect.spec_path() {
        Some(Route::Disconnect)
    } else if path == Route::Sdp.spec_path() {
        Some(Route::Sdp)
    } else if path == Route::IceCandidate.spec_path() {
        Some(Route::IceCandidate)
    } else if path == Route::Reject.spec_path() {
        Some(Route::Reject)
    } else {
        None
    }
}

/// The route that a request addresses: the route of its path if the request
/// is a `POST`, and none otherwise.
pub fn route_of(is_post: bool, path: &str) -> (route: Option<Route>)
    ensures
        route == if is_post {
            spec_route_of_path(path@)
        } else {
            None
        },
{
    proof {
        reveal_strlit("/");
        reveal_strlit("connect");
        reveal_strlit("disconnect");
        reveal_strlit("sdp");
        reveal_strlit("ice-candidate");
        reveal_strlit("reject");
        reveal_strlit("/connect");
        reveal_strlit("/disconnect");
        reveal_strlit("/sdp");
        reveal_strlit("/ice-candidate");
        reveal_strlit("/reject");
        assert("/connect"@ =~= Route::Connect.spec_path());
        assert("/disconnect"@ =~= Route::Disconnect.spec_path());
        assert("/sdp"@ =~= Route::Sdp.spec_path());
        assert("/ice-candidate"@ =~= Route::IceCandidate.spec_path());
        assert("/reject"@ =~= Route::Reject.spec_path());
    }
    if !is_post {
        None
    } else if same_text(path, "/connect") {
        Some(Route::Connect)
    } else if same_text(path, "/disconnect") {
        Some(Route::Disconnect)
    } else if same_text(path, "/sdp") {
        Some(Route::Sdp)
    } else if same_text(path, "/ice-candidate") {
        Some(Route::IceCandidate)
    } else if same_text(path, "/reject") {
        Some(Route::Reject)
    } else {
        None
    }
}

/// Every route is found again from its path.
pub proof fn lemma_route_of_its_path(route: Route)
    ensures
        spec_route_of_path(route.spec_path()) == Some(route),
{
    reveal_strlit("/");
    reveal_strlit("connect");
    reveal_strlit("disconnect");
    reveal_strlit("sdp");
    reveal_strlit("ice-candidate");
    reveal_strlit("reject");
    let p = route.spec_path();
    assert(p.len() == route.spec_name().len() + 1);
    assert(p[1] == route.spec_name()[0]);
    assert(Route::Connect.spec_path()[1] == 'c');
    assert(Route::Disconnect.spec_path()[1] == 'd');
    assert(Route::Sdp.spec_path()[1] == 's');
    assert(Route::IceCandidate.spec_path()[1] == 'i');
    assert(Route::Reject.spec_path()[1] == 'r');
}

/// Answers a request of the relay. A request that addresses no route is
/// answered with `404`. A request whose body could not be decoded, or holds
/// another kind of payload than its route expects, is answered with `400`.
/// Any other request is answered with `200` and carries a signal:
/// `connect` a call with its offer, `sdp` an answer, `ice-candidate` a
/// candidate, `disconnect` the end of a call and `reject` its refusal.
pub fn remote_handler(route: Option<Route>, payload: Option<Payload>) -> (reply: Reply)
    ensures
        reply == match (route, payload) {
            (None, _) => Reply { status: STATUS_NOT_FOUND, signal: None },
            (Some(r), Some(p)) => if p.kind() == r.spec_expects() {
                Reply { status: STATUS_OK, signal: Some(r.spec_signal(p)) }
            } else {
                Reply { status: STATUS_BAD_REQUEST, signal: None }
            },
            (Some(r), None) => Reply { status: STATUS_BAD_REQUEST, signal: None },
        },
{
    let route = match route {
        Some(route) => route,
        None => {
            return Reply { status: STATUS_NOT_FOUND, signal: None };
        },
    };
    let signal = match (route, payload) {
        (Route::Connect, Some(Payload::Sdp(sig))) => Some(PeerSignal::CallInitiated(sig)),
        (Route::Sdp, Some(Payload::Sdp(sig))) => Some(PeerSignal::Sdp(sig)),
        (Route::IceCandidate, Some(Payload::Ice(sig))) => Some(PeerSignal::Ice(sig)),
        (Route::Disconnect, Some(Payload::Text(id))) => Some(PeerSignal::CallTerminated(id)),
        (Route::Reject, Some(Payload::Text(id))) => Some(PeerSignal::CallRejected(id)),
        _ => None,
    };
    match signal {
        Some(signal) => Reply { status: STATUS_OK, signal: Some(signal) },
        None => Reply { status: STATUS_BAD_REQUEST, signal: None },
    }
}

/// The URL of a route on another endpoint's relay.
pub open spec fn spec_signal_url(remote_host: Seq<char>, route: Route) -> Seq<char> {
    "http://"@ + remote_host + "/"@ + route.spec_name()
}

/// The request that carries `payload` to `route` on the relay of
/// `remote_host`.
pub fn send_signal(remote_host: &str, route: Route, payload: Payload) -> (request: Outgoing)
    ensures
        request.url@ == spec_signal_url(remote_host@, route),
        request.payload == payload,
{
    let mut url: String = "http://".to_owned();
    url.append(remote_host);
    url.append("/");
    url.append(route.name());
    Outgoing { url, payload }
}

/// The request that offers a call to `dest`.
pub fn send_connect(dest: &str, sig: SigSdp) -> (request: Outgoing)
    ensures
        request.url@ == spec_signal_url(dest@, Route::Connect),
        request.payload == Payload::Sdp(sig),
{
    send_signal(dest, Route::Connect, Payload::Sdp(sig))
}

/// The request that tells `remote_host` that the endpoint `id` ended the
/// call.
pub fn send_disconnect(remote_host: &str, id: &str) -> (request: Outgoing)
    ensures
        request.url@ == spec_signal_url(remote_host@, Route::Disconnect),
        request.payload matches Payload::Text(text) && text@ == id@,
{
    send_signal(remote_host, Route::Disconnect, Payload::Text(id.to_owned()))
}

/// The request that carries a candidate to `remote_host`.
pub fn send_ice_candidate(remote_host: &str, sig: SigIce) -> (request: Outgoing)
    ensures
        request.url@ == spec_signal_url(remote_host@, Route::IceCandidate),
        request.payload == Payload::Ice(sig),
{
    send_signal(remote_host, Route::IceCandidate, Payload::Ice(sig))
}

/// The request that carries an answer to `remote_host`.
pub fn send_sdp(remote_host: &str, sig: SigSdp) -> (request: Outgoing)
    ensures
        request.url@ == spec_signal_url(remote_host@, Route::Sdp),
        request.payload == Payload::Sdp(sig),
{
    send_signal(remote_host, Route::Sdp, Payload::Sdp(sig))
}

/// What the application's relay does with an event of the controller.
#[derive(Clone, Debug, PartialEq, Eq)]
pub enum EventHandling {
    /// Send `payload` to `route` on the relay of `dest`.
    Send { dest: PeerId, route: Route, payload: Payload },
    /// The peer is gone: hang up on it.
    HangUp { peer: PeerId },
    /// Attach a decode pipeline and a playback sink to the track.
    OpenSink { peer: PeerId, track: IncomingTrack },
    /// The track's codec is known but has no pipeline: leave the track alone.
    Unhandled { peer: PeerId, track: IncomingTrack },
    /// The track names no known codec: the relay cannot go on.
    Stop { error: Error },
}

/// What an event of the controller asks of the relay of the endpoint
/// `client_address`. An offer, an answer and a candidate travel to their
/// destination on the routes `connect`, `sdp` and `ice-candidate`, signed
/// with the address of this endpoint. A lost peer is hung up on. A new track
/// gets a sink if its codec is Opus.
pub open spec fn spec_handle_event(client_address: String, event: EmittedEvents) -> EventHandling {
    match event {
        EmittedEvents::CallInitiated { dest, sdp } => EventHandling::Send {
            dest,
            route: Route::Connect,
            payload: Payload::Sdp(SigSdp { src: client_address, sdp }),
        },
        EmittedEvents::Sdp { dest, sdp } => EventHandling::Send {
            dest,
            route: Route::Sdp,
            payload: Payload::Sdp(SigSdp { src: client_address, sdp }),
        },
        EmittedEvents::Ice { dest, candidate } => EventHandling::Send {
            dest,
            route: Route::IceCandidate,
            payload: Payload::Ice(SigIce { src: client_address, ice: candidate }),
        },
        EmittedEvents::Disconnected { peer } => EventHandling::HangUp { peer },
        EmittedEvents::TrackAdded { peer, track } => match MimeType::spec_from_text(
            track.codec.mime_type@,
        ) {
            Some(MimeType::OPUS) => EventHandling::OpenSink { peer, track },
            Some(_) => EventHandling::Unhandled { peer, track },
            None => EventHandling::Stop {
                error: Error::InvalidMimeType { text: track.codec.mime_type },
            },
        },
    }
}

/// Decides what the relay does with an event of the controller.
pub fn handle_events(client_address: &String, event: EmittedEvents) -> (handling: EventHandling)
    ensures
        handling == spec_handle_event(*client_address, event),
{
    match event {
        EmittedEvents::CallInitiated { dest, sdp } => EventHandling::Send {
            dest,
            route: Route::Connect,
            payload: Payload::Sdp(SigSdp { src: client_address.clone(), sdp }),
        },
        EmittedEvents::Sdp { dest, sdp } => EventHandling::Send {
            dest,
            route: Route::Sdp,
            payload: Payload::Sdp(SigSdp { src: client_address.clone(), sdp }),
        },
        EmittedEvents::Ice { dest, candidate } => EventHandling::Send {
            dest,
            route: Route::IceCandidate,
            payload: Payload::Ice(SigIce { src: client_address.clone(), ice: candidate }),
        },
        EmittedEvents::Disconnected { peer } => EventHandling::HangUp { peer },
        EmittedEvents::TrackAdded { peer, track } => {
            match MimeType::from_string(track.codec.mime_type.as_str()) {
                Ok(MimeType::OPUS) => EventHandling::OpenSink { peer, track },
                Ok(_) => EventHandling::Unhandled { peer, track },
                Err(_) => EventHandling::Stop {
                    error: Error::InvalidMimeType { text: track.codec.mime_type.clone() },
                },
            }
        },
    }
}

impl Model {
    /// The model after a signal arrived. A call is accepted; where that
    /// fails, because its sender has a session already, the sender is hung
    /// up on, so that a failed call leaves no session behind. The end or the
    /// refusal of a call ends the sender's session.
    pub open spec fn after_signal(self, signal: PeerSignal) -> Model {
        match signal {
            PeerSignal::CallInitiated(sig) => if self.has_peer(sig.src@) {
                self.hang_up(sig.src@)
            } else {
                self.connect(sig.src)
            },
            PeerSignal::CallTerminated(src) => self.hang_up(src@),
            PeerSignal::CallRejected(src) => self.hang_up(src@),
            _ => self,
        }
    }

    /// The steps that answer a signal: those of `recv_ice`, `recv_sdp`,
    /// `accept_call` and `hang_up`. A candidate or a description for a peer
    /// without a session asks for nothing. A call that cannot be accepted
    /// asks for the steps that hang up on its sender.
    pub open spec fn signal_actions(self, signal: PeerSignal) -> Seq<Action> {
        match signal {
            PeerSignal::Ice(sig) => if self.has_peer(sig.src@) {
                seq![Action::AddIceCandidate { peer: sig.src, candidate: sig.ice }]
            } else {
                Seq::empty()
            },
            PeerSignal::Sdp(sig) => if self.has_peer(sig.src@) {
                seq![Action::SetRemoteDescription { peer: sig.src, sdp: sig.sdp }]
            } else {
                Seq::empty()
            },
            PeerSignal::CallInitiated(sig) => if self.has_peer(sig.src@) {
                self.hang_up_actions(sig.src)
            } else {
                self.connect_actions(sig.src).push(
                    Action::AcceptOffer { peer: sig.src, sdp: sig.sdp },
                ).push(Action::CreateAnswer { peer: sig.src })
            },
            PeerSignal::CallTerminated(src) => self.hang_up_actions(src),
            PeerSignal::CallRejected(src) => self.hang_up_actions(src),
        }
    }
}

/// A call that cannot be accepted leaves no session behind: when a call
/// arrives from a peer that has a session, the peer has none afterwards, and
/// the sessions of the other peers are as they were.
pub proof fn law_refused_call_leaves_no_peer(m: Model, call: SigSdp, other: Seq<char>)
    requires
        m.wf(),
        m.has_peer(call.src@),
        other != call.src@,
    ensures
        !m.after_signal(PeerSignal::CallInitiated(call)).has_peer(call.src@),
        m.after_signal(PeerSignal::CallInitiated(call)).has_peer(other) == m.has_peer(other),
        m.has_peer(other) ==> m.after_signal(PeerSignal::CallInitiated(call)).peer(other)
            == m.peer(other),
{
    lemma_hang_up_valid(m, call.src@);
    crate::laws::law_hang_up_leaves_others(m, call.src@, other);
}

/// Takes a signal that arrived over the relay and makes the call on the
/// controller that it stands for: a candidate is received, an answer is
/// received, a call is accepted, and the end or the refusal of a call hangs
/// up. Where a call cannot be accepted its sender is hung up on; the failure
/// itself is not handed on, and the relay goes on with the next signal.
pub fn handle_signals(controller: &mut Controller, signal: PeerSignal) -> (actions: Vec<Action>)
    requires
        old(controller)@.wf(),
    ensures
        final(controller)@.wf(),
        final(controller)@ == old(controller)@.after_signal(signal),
        actions@ == old(controller)@.signal_actions(signal),
{
    match signal {
        PeerSignal::Ice(sig) => {
            match controller.recv_ice(&sig.src, sig.ice) {
                Ok(actions) => actions,
                Err(_) => Vec::new(),
            }
        },
        PeerSignal::Sdp(sig) => {
            match controller.recv_sdp(&sig.src, sig.sdp) {
                Ok(actions) => actions,
                Err(_) => Vec::new(),
            }
        },
        PeerSignal::CallInitiated(sig) => {
            match controller.accept_call(&sig.src, sig.sdp) {
                Ok(actions) => actions,
                Err(_) => controller.hang_up(&sig.src),
            }
        },
        PeerSignal::CallTerminated(src) => controller.hang_up(&src),
        PeerSignal::CallRejected(src) => controller.hang_up(&src),
    }
}

} // verus!
