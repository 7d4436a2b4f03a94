//! Laws of the session model: every operation keeps the model valid, the
//! fan-out of media sources to peers stays complete in whatever order peers
//! and sources are added and removed, and operations on one peer or source
//! leave the others alone.

use vstd::prelude::*;
use crate::events::{Action, EmittedEvents, TransportEvent};
use crate::model::{
    distinct, is_first, lemma_position_absent, lemma_position_found, lemma_position_means,
    position, texts, without, Model, PeerModel,
};
use crate::types::{CodecCapability, MediaSourceId, PeerId, PeerState, SessionDescription};

verus! {

/// Taking one element out of a sequence without repetitions leaves a
/// sequence without repetitions, in which that element is gone and every
/// other one is still found.
pub proof fn lemma_remove_distinct(ids: Seq<Seq<char>>, i: int)
    requires
        distinct(ids),
        0 <= i < ids.len(),
    ensures
        distinct(ids.remove(i)),
        !ids.remove(i).contains(ids[i]),
        forall|k: int| 0 <= k < ids.len() && k != i ==> ids.remove(i).contains(#[trigger] ids[k]),
        forall|k: int| 0 <= k < ids.len() - 1 ==> ids.contains(#[trigger] ids.remove(i)[k]),
{
    let r = ids.remove(i);
    assert forall|a: int, b: int| 0 <= a < b < r.len() implies r[a] != r[b] by {
        let a0 = if a < i { a } else { a + 1 };
        let b0 = if b < i { b } else { b + 1 };
        assert(r[a] == ids[a0]);
        assert(r[b] == ids[b0]);
    }
    if r.contains(ids[i]) {
        let k = choose|k: int| 0 <= k < r.len() && r[k] == ids[i];
        let k0 = if k < i { k } else { k + 1 };
        assert(r[k] == ids[k0]);
        if k0 < i {
            assert(ids[k0] != ids[i]);
        } else {
            assert(ids[i] != ids[k0]);
        }
    }
    assert forall|k: int| 0 <= k < ids.len() && k != i implies r.contains(#[trigger] ids[k]) by {
        let k1 = if k < i { k } else { k - 1 };
        assert(r[k1] == ids[k]);
    }
    assert forall|k: int| 0 <= k < ids.len() - 1 implies ids.contains(#[trigger] r[k]) by {
        let k0 = if k < i { k } else { k + 1 };
        assert(r[k] == ids[k0]);
    }
}

/// The texts of a sequence without `id` are the texts without `id`.
pub proof fn lemma_without_texts(ids: Seq<String>, id: Seq<char>)
    ensures
        texts(without(ids, id)) == match position(texts(ids), id) {
            Some(i) => texts(ids).remove(i),
            None => texts(ids),
        },
        position(texts(ids), id) is None ==> without(ids, id) == ids,
{
    lemma_position_means(texts(ids), id);
    match position(texts(ids), id) {
        Some(i) => {
            assert(texts(ids.remove(i)) =~= texts(ids).remove(i));
        },
        None => {},
    }
}

/// Removing `id` from distinct ids leaves distinct ids without `id`, all of
/// which were there before; the other ids all stay.
pub proof fn lemma_without_distinct(ids: Seq<String>, id: Seq<char>)
    requires
        distinct(texts(ids)),
    ensures
        distinct(texts(without(ids, id))),
        !texts(without(ids, id)).contains(id),
        forall|k: int|
            0 <= k < without(ids, id).len() ==> texts(ids).contains(
                #[trigger] without(ids, id)[k]@,
            ),
        forall|k: int|
            0 <= k < ids.len() && ids[k]@ != id ==> texts(without(ids, id)).contains(
                #[trigger] ids[k]@,
            ),
{
    let t = texts(ids);
    let w = without(ids, id);
    lemma_without_texts(ids, id);
    lemma_position_means(t, id);
    match position(t, id) {
        Some(i) => {
            lemma_remove_distinct(t, i);
            assert forall|k: int| 0 <= k < w.len() implies t.contains(#[trigger] w[k]@) by {
                assert(texts(w)[k] == w[k]@);
                assert(t.remove(i)[k] == w[k]@);
            }
            assert forall|k: int| 0 <= k < ids.len() && ids[k]@ != id implies texts(w).contains(
                #[trigger] ids[k]@,
            ) by {
                assert(t[k] == ids[k]@);
                assert(k != i);
                assert(t.remove(i).contains(t[k]));
            }
        },
        None => {
            assert forall|k: int| 0 <= k < w.len() implies t.contains(#[trigger] w[k]@) by {
                assert(t[k] == w[k]@);
            }
            assert forall|k: int| 0 <= k < ids.len() && ids[k]@ != id implies texts(w).contains(
                #[trigger] ids[k]@,
            ) by {
                assert(t[k] == ids[k]@);
            }
            if t.contains(id) {
                let k = choose|k: int| 0 <= k < t.len() && t[k] == id;
                assert(t[k] != id);
            }
        },
    }
}

/// A new session keeps the model valid and the fan-out complete.
pub proof fn lemma_connect_valid(m: Model, peer: PeerId)
    requires
        m.wf(),
        !m.has_peer(peer@),
    ensures
        m.connect(peer).wf(),
        m.fanned_out() ==> m.connect(peer).fanned_out(),
        m.connect(peer).has_peer(peer@),
        m.connect(peer).peer(peer@) == (PeerModel {
            id: peer,
            state: PeerState::WaitingForSdp,
            senders: m.source_names(),
        }),
{
    let after = m.connect(peer);
    lemma_position_means(m.peer_ids(), peer@);
    assert(texts(m.source_names()) == m.source_ids());
    assert(after.peer_ids() == m.peer_ids().push(peer@));
    assert(after.wf()) by {
        assert forall|i: int| 0 <= i < after.peers.len() implies distinct(
            #[trigger] texts(after.peers[i].senders),
        ) by {
            if i < m.peers.len() {
                assert(after.peers[i] == m.peers[i]);
            }
        }
        assert forall|i: int, j: int|
            0 <= i < after.peers.len() && 0 <= j < after.peers[i].senders.len()
            implies after.source_ids().contains(#[trigger] after.peers[i].senders[j]@) by {
            if i < m.peers.len() {
                assert(after.peers[i] == m.peers[i]);
                assert(m.source_ids().contains(m.peers[i].senders[j]@));
            } else {
                assert(m.source_ids()[j] == after.peers[i].senders[j]@);
            }
        }
    }
    if m.fanned_out() {
        assert(after.source_ids() == m.source_ids());
        assert forall|i: int| 0 <= i < after.peers.len() implies #[trigger] texts(
            after.peers[i].senders,
        ) == after.source_ids() by {
            if i < m.peers.len() {
                assert(after.peers[i] == m.peers[i]);
                assert(texts(m.peers[i].senders) == m.source_ids());
            } else {
                assert(after.peers[i].senders == m.source_names());
            }
        }
    }
    assert(is_first(after.peer_ids(), peer@, m.peers.len() as int));
    lemma_position_found(after.peer_ids(), peer@, m.peers.len() as int);
}

/// Ending a session keeps the model valid and the fan-out complete; the peer
/// is gone afterwards.
pub proof fn lemma_hang_up_valid(m: Model, peer: Seq<char>)
    requires
        m.wf(),
    ensures
        m.hang_up(peer).wf(),
        m.fanned_out() ==> m.hang_up(peer).fanned_out(),
        !m.hang_up(peer).has_peer(peer),
{
    let after = m.hang_up(peer);
    lemma_position_means(m.peer_ids(), peer);
    match position(m.peer_ids(), peer) {
        Some(i) => {
            assert(after.peer_ids() =~= m.peer_ids().remove(i));
            lemma_remove_distinct(m.peer_ids(), i);
            assert forall|a: int| 0 <= a < after.peers.len() implies distinct(
                #[trigger] texts(after.peers[a].senders),
            ) && (m.fanned_out() ==> texts(after.peers[a].senders) == after.source_ids()) by {
                let a0 = if a < i { a } else { a + 1 };
                assert(after.peers[a] == m.peers[a0]);
                assert(distinct(texts(m.peers[a0].senders)));
            }
            assert forall|a: int, j: int|
                0 <= a < after.peers.len() && 0 <= j < after.peers[a].senders.len()
                implies after.source_ids().contains(#[trigger] after.peers[a].senders[j]@) by {
                let a0 = if a < i { a } else { a + 1 };
                assert(after.peers[a] == m.peers[a0]);
                assert(m.source_ids().contains(m.peers[a0].senders[j]@));
            }
            assert(m.peer_ids()[i] == peer);
            lemma_position_means(after.peer_ids(), peer);
            if after.has_peer(peer) {
                let k = position(after.peer_ids(), peer).unwrap();
                assert(after.peer_ids().contains(after.peer_ids()[k]));
            }
        },
        None => {},
    }
}

/// Registering a new source keeps the model valid and the fan-out complete.
pub proof fn lemma_add_source_valid(m: Model, source: MediaSourceId, codec: CodecCapability)
    requires
        m.wf(),
        !m.has_source(source@),
    ensures
        m.add_source(source, codec).wf(),
        m.fanned_out() ==> m.add_source(source, codec).fanned_out(),
        m.add_source(source, codec).has_source(source@),
        m.add_source(source, codec).peer_ids() == m.peer_ids(),
{
    let after = m.add_source(source, codec);
    lemma_position_means(m.source_ids(), source@);
    assert(after.peer_ids() =~= m.peer_ids());
    assert(after.source_ids() =~= m.source_ids().push(source@));
    assert forall|i: int| 0 <= i < after.peers.len() implies distinct(
        #[trigger] texts(after.peers[i].senders),
    ) && (m.fanned_out() ==> texts(after.peers[i].senders) == after.source_ids()) by {
        let old_ids = texts(m.peers[i].senders);
        let new_ids = texts(after.peers[i].senders);
        assert(new_ids =~= old_ids.push(source@));
        assert(distinct(old_ids));
        assert forall|a: int, b: int| 0 <= a < b < new_ids.len() implies new_ids[a]
            != new_ids[b] by {
            if b == old_ids.len() {
                assert(old_ids[a] == m.peers[i].senders[a]@);
                assert(m.source_ids().contains(m.peers[i].senders[a]@));
            }
        }
    }
    assert forall|i: int, j: int|
        0 <= i < after.peers.len() && 0 <= j < after.peers[i].senders.len()
        implies after.source_ids().contains(#[trigger] after.peers[i].senders[j]@) by {
        if j < m.peers[i].senders.len() {
            assert(after.peers[i].senders[j] == m.peers[i].senders[j]);
            let at = choose|k: int|
                0 <= k < m.source_ids().len() && m.source_ids()[k] == m.peers[i].senders[j]@;
            assert(m.source_ids().contains(m.peers[i].senders[j]@));
            assert(after.source_ids()[at] == m.peers[i].senders[j]@);
        } else {
            assert(after.source_ids()[m.sources.len() as int] == source@);
        }
    }
    assert(is_first(after.source_ids(), source@, m.sources.len() as int));
    lemma_position_found(after.source_ids(), source@, m.sources.len() as int);
}

/// Removing a source keeps the model valid and the fan-out complete; the
/// source is gone afterwards, from the registry and from every peer.
pub proof fn lemma_remove_source_valid(m: Model, source: Seq<char>)
    requires
        m.wf(),
    ensures
        m.remove_source(source).wf(),
        m.fanned_out() ==> m.remove_source(source).fanned_out(),
        !m.remove_source(source).has_source(source),
        forall|i: int|
            0 <= i < m.peers.len() ==> !(#[trigger] m.remove_source(source).peers[i]).sends(source),
        m.remove_source(source).peer_ids() == m.peer_ids(),
{
    let after = m.remove_source(source);
    let ids = m.source_ids();
    lemma_position_means(ids, source);
    assert(after.peer_ids() =~= m.peer_ids());
    match position(ids, source) {
        Some(i) => {
            assert(after.source_ids() =~= ids.remove(i));
            lemma_remove_distinct(ids, i);
        },
        None => {
            assert(after.source_ids() == ids);
        },
    }
    assert(!after.source_ids().contains(source)) by {
        if after.source_ids().contains(source) {
            let k = choose|k: int| 0 <= k < after.source_ids().len() && after.source_ids()[k] == source;
            if position(ids, source) is None {
                assert(ids[k] != source);
            }
        }
    }
    assert forall|a: int| 0 <= a < after.peers.len() implies distinct(
        #[trigger] texts(after.peers[a].senders),
    ) && !after.peers[a].sends(source) && (m.fanned_out() ==> texts(after.peers[a].senders)
        == after.source_ids()) by {
        assert(after.peers[a] == m.peers[a].without_sender(source));
        assert(distinct(texts(m.peers[a].senders)));
        lemma_without_distinct(m.peers[a].senders, source);
        lemma_without_texts(m.peers[a].senders, source);
    }
    assert forall|a: int, j: int|
        0 <= a < after.peers.len() && 0 <= j < after.peers[a].senders.len()
        implies after.source_ids().contains(#[trigger] after.peers[a].senders[j]@) by {
        assert(after.peers[a] == m.peers[a].without_sender(source));
        assert(distinct(texts(m.peers[a].senders)));
        lemma_without_distinct(m.peers[a].senders, source);
        let s = after.peers[a].senders[j]@;
        assert(texts(m.peers[a].senders).contains(s));
        let k = choose|k: int|
            0 <= k < m.peers[a].senders.len() && texts(m.peers[a].senders)[k] == s;
        assert(m.source_ids().contains(m.peers[a].senders[k]@));
        assert(texts(after.peers[a].senders)[j] == s);
        assert(s != source);
        let at = choose|at: int| 0 <= at < ids.len() && ids[at] == s;
        match position(ids, source) {
            Some(i) => {
                assert(at != i);
                assert(ids.remove(i).contains(ids[at]));
            },
            None => {},
        }
    }
    lemma_position_means(after.source_ids(), source);
    if after.has_source(source) {
        let k = position(after.source_ids(), source).unwrap();
        assert(after.source_ids().contains(after.source_ids()[k]));
    }
}

/// A failed attach keeps the model valid.
pub proof fn lemma_attach_failed_valid(m: Model, peer: Seq<char>, source: Seq<char>)
    requires
        m.wf(),
    ensures
        m.attach_failed(peer, source).wf(),
        m.attach_failed(peer, source).peer_ids() == m.peer_ids(),
{
    let after = m.attach_failed(peer, source);
    lemma_position_means(m.peer_ids(), peer);
    match position(m.peer_ids(), peer) {
        Some(i) => {
            assert(after.peer_ids() =~= m.peer_ids());
            assert(distinct(texts(m.peers[i].senders)));
            lemma_without_distinct(m.peers[i].senders, source);
            assert forall|a: int| 0 <= a < after.peers.len() implies distinct(
                #[trigger] texts(after.peers[a].senders),
            ) by {
                if a != i {
                    assert(after.peers[a] == m.peers[a]);
                    assert(distinct(texts(m.peers[a].senders)));
                } else {
                    assert(after.peers[a].senders == without(m.peers[i].senders, source));
                }
            }
            assert forall|a: int, j: int|
                0 <= a < after.peers.len() && 0 <= j < after.peers[a].senders.len()
                implies after.source_ids().contains(#[trigger] after.peers[a].senders[j]@) by {
                if a != i {
                    assert(after.peers[a] == m.peers[a]);
                    assert(m.source_ids().contains(m.peers[a].senders[j]@));
                } else {
                    let s = after.peers[a].senders[j]@;
                    assert(texts(m.peers[i].senders).contains(s));
                    let k = choose|k: int|
                        0 <= k < m.peers[i].senders.len() && texts(m.peers[i].senders)[k] == s;
                    assert(m.source_ids().contains(m.peers[i].senders[k]@));
                }
            }
        },
        None => {},
    }
}

/// A change of state keeps the model valid and the fan-out complete.
pub proof fn lemma_set_state_valid(m: Model, peer: Seq<char>, state: PeerState)
    requires
        m.wf(),
    ensures
        m.set_state(peer, state).wf(),
        m.fanned_out() ==> m.set_state(peer, state).fanned_out(),
        m.set_state(peer, state).peer_ids() == m.peer_ids(),
{
    let after = m.set_state(peer, state);
    lemma_position_means(m.peer_ids(), peer);
    match position(m.peer_ids(), peer) {
        Some(i) => {
            assert(after.peer_ids() =~= m.peer_ids());
            assert forall|a: int| 0 <= a < after.peers.len() implies distinct(
                #[trigger] texts(after.peers[a].senders),
            ) && (m.fanned_out() ==> texts(after.peers[a].senders) == after.source_ids()) by {
                assert(after.peers[a].senders == m.peers[a].senders);
                assert(distinct(texts(m.peers[a].senders)));
            }
            assert forall|a: int, j: int|
                0 <= a < after.peers.len() && 0 <= j < after.peers[a].senders.len()
                implies after.source_ids().contains(#[trigger] after.peers[a].senders[j]@) by {
                assert(after.peers[a].senders == m.peers[a].senders);
                assert(m.source_ids().contains(m.peers[a].senders[j]@));
            }
        },
        None => {},
    }
}

/// What the driver reports never makes the model invalid.
pub proof fn lemma_event_valid(m: Model, event: TransportEvent)
    requires
        m.wf(),
    ensures
        m.after_event(event).wf(),
{
    match event {
        TransportEvent::AnswerCreated { peer, sdp } => {
            lemma_set_state_valid(m, peer@, PeerState::WaitingForIce);
        },
        TransportEvent::Failed { peer } => {
            lemma_hang_up_valid(m, peer@);
        },
        TransportEvent::AttachFailed { peer, source } => {
            lemma_attach_failed_valid(m, peer@, source@);
        },
        _ => {},
    }
}

/// One call of the application on the controller, or one report of the
/// driver.
pub enum Step {
    Dial { peer: PeerId },
    AcceptCall { peer: PeerId, remote_sdp: SessionDescription },
    HangUp { peer: PeerId },
    AddMediaSource { source: MediaSourceId, codec: CodecCapability },
    RemoveMediaSource { source: MediaSourceId },
    Deinit,
    Report { event: TransportEvent },
}

impl Step {
    /// Whether the step is the report of a transport that refused a track.
    pub open spec fn is_refused_attach(self) -> bool {
        self matches Step::Report { event: TransportEvent::AttachFailed { .. } }
    }
}

impl Model {
    /// The model after one step. A call that the controller refuses leaves
    /// the model as it was.
    pub open spec fn step(self, step: Step) -> Model {
        match step {
            Step::Dial { peer } => if self.has_peer(peer@) {
                self
            } else {
                self.connect(peer)
            },
            Step::AcceptCall { peer, remote_sdp } => if self.has_peer(peer@) {
                self
            } else {
                self.connect(peer)
            },
            Step::HangUp { peer } => self.hang_up(peer@),
            Step::AddMediaSource { source, codec } => if self.has_source(source@) {
                self
            } else {
                self.add_source(source, codec)
            },
            Step::RemoveMediaSource { source } => self.remove_source(source@),
            Step::Deinit => self.without_peers(),
            Step::Report { event } => self.after_event(event),
        }
    }

    /// The model after a sequence of steps.
    pub open spec fn run(self, steps: Seq<Step>) -> Model
        decreases steps.len(),
    {
        if steps.len() == 0 {
            self
        } else {
            self.run(steps.drop_last()).step(steps.last())
        }
    }
}

/// One step keeps the model valid, and keeps the fan-out complete unless it
/// reports a refused attach.
pub proof fn lemma_step_valid(m: Model, step: Step)
    requires
        m.wf(),
    ensures
        m.step(step).wf(),
        m.fanned_out() && !step.is_refused_attach() ==> m.step(step).fanned_out(),
{
    match step {
        Step::Dial { peer } => {
            if !m.has_peer(peer@) {
                lemma_connect_valid(m, peer);
            }
        },
        Step::AcceptCall { peer, remote_sdp } => {
            if !m.has_peer(peer@) {
                lemma_connect_valid(m, peer);
            }
        },
        Step::HangUp { peer } => {
            lemma_hang_up_valid(m, peer@);
        },
        Step::AddMediaSource { source, codec } => {
            if !m.has_source(source@) {
                lemma_add_source_valid(m, source, codec);
            }
        },
        Step::RemoveMediaSource { source } => {
            lemma_remove_source_valid(m, source@);
        },
        Step::Deinit => {
            assert(m.without_peers().peer_ids() =~= Seq::empty());
        },
        Step::Report { event } => {
            lemma_event_valid(m, event);
            match event {
                TransportEvent::AnswerCreated { peer, sdp } => {
                    lemma_set_state_valid(m, peer@, PeerState::WaitingForIce);
                },
                TransportEvent::Failed { peer } => {
                    lemma_hang_up_valid(m, peer@);
                },
                _ => {},
            }
        },
    }
}

/// The fan-out law. Start from a controller without peers and sources and
/// let media sources be added and removed and peers be dialled, accepted and
/// hung up in any order. As long as no transport refused a track, the model
/// is valid and every peer has the senders of exactly the registered
/// sources.
pub proof fn law_fan_out_complete(id: PeerId, steps: Seq<Step>)
    requires
        forall|i: int| 0 <= i < steps.len() ==> !(#[trigger] steps[i]).is_refused_attach(),
    ensures
        Model::empty(id).run(steps).wf(),
        Model::empty(id).run(steps).fanned_out(),
    decreases steps.len(),
{
    if steps.len() == 0 {
        assert(Model::empty(id).peer_ids() =~= Seq::empty());
        assert(Model::empty(id).source_ids() =~= Seq::empty());
    } else {
        let before = steps.drop_last();
        assert forall|i: int| 0 <= i < before.len() implies !(#[trigger] before[i]).is_refused_attach() by {
            assert(before[i] == steps[i]);
        }
        law_fan_out_complete(id, before);
        lemma_step_valid(Model::empty(id).run(before), steps.last());
    }
}

/// Whatever the steps, refused attaches included, the model stays valid: no
/// peer and no source is registered twice, and every sender belongs to a
/// registered source, at most one sender for each.
pub proof fn law_always_valid(id: PeerId, steps: Seq<Step>)
    ensures
        Model::empty(id).run(steps).wf(),
    decreases steps.len(),
{
    if steps.len() == 0 {
        assert(Model::empty(id).peer_ids() =~= Seq::empty());
        assert(Model::empty(id).source_ids() =~= Seq::empty());
    } else {
        law_always_valid(id, steps.drop_last());
        lemma_step_valid(Model::empty(id).run(steps.drop_last()), steps.last());
    }
}

/// Where the fan-out is complete, a peer has exactly one sender for each
/// registered source and none for anything else: its `k`-th sender belongs to
/// the `k`-th source, and no other sender of the peer does.
pub proof fn law_exactly_one_sender(m: Model, i: int, k: int)
    requires
        m.wf(),
        m.fanned_out(),
        0 <= i < m.peers.len(),
        0 <= k < m.sources.len(),
    ensures
        m.peers[i].senders.len() == m.sources.len(),
        m.peers[i].senders[k]@ == m.sources[k].id@,
        forall|j: int|
            0 <= j < m.peers[i].senders.len() && j != k ==> (#[trigger] m.peers[i].senders[j])@
                != m.sources[k].id@,
{
    let ids = texts(m.peers[i].senders);
    assert(ids == m.source_ids());
    assert(ids[k] == m.peers[i].senders[k]@);
    assert(m.source_ids()[k] == m.sources[k].id@);
    assert forall|j: int| 0 <= j < m.peers[i].senders.len() && j != k implies (
    #[trigger] m.peers[i].senders[j])@ != m.sources[k].id@ by {
        assert(ids[j] == m.peers[i].senders[j]@);
        if j < k {
            assert(ids[j] != ids[k]);
        } else {
            assert(ids[k] != ids[j]);
        }
    }
}

/// Hanging up on a peer that has no session changes nothing and asks nothing
/// of the driver.
pub proof fn law_hang_up_unknown_peer(m: Model, peer: PeerId)
    requires
        !m.has_peer(peer@),
    ensures
        m.hang_up(peer@) == m,
        m.hang_up_actions(peer) == Seq::<Action>::empty(),
{
}

/// Hanging up on one peer leaves every other peer as it was.
pub proof fn law_hang_up_leaves_others(m: Model, peer: Seq<char>, other: Seq<char>)
    requires
        m.wf(),
        other != peer,
    ensures
        m.hang_up(peer).has_peer(other) == m.has_peer(other),
        m.has_peer(other) ==> m.hang_up(peer).peer(other) == m.peer(other),
{
    let ids = m.peer_ids();
    let after = m.hang_up(peer);
    lemma_position_means(ids, peer);
    lemma_position_means(ids, other);
    match position(ids, peer) {
        Some(i) => {
            let rest = after.peer_ids();
            assert(rest =~= ids.remove(i));
            match position(ids, other) {
                Some(k) => {
                    let k1 = if k < i { k } else { k - 1 };
                    assert(rest[k1] == ids[k]);
                    assert forall|j: int| 0 <= j < k1 implies rest[j] != other by {
                        let j0 = if j < i { j } else { j + 1 };
                        assert(rest[j] == ids[j0]);
                        if j0 >= k {
                            assert(ids[k] != ids[j0]);
                        }
                    }
                    assert(is_first(rest, other, k1));
                    lemma_position_found(rest, other, k1);
                    assert(after.peers[k1] == m.peers[k]);
                },
                None => {
                    assert forall|j: int| 0 <= j < rest.len() implies rest[j] != other by {
                        let j0 = if j < i { j } else { j + 1 };
                        assert(rest[j] == ids[j0]);
                    }
                    lemma_position_absent(rest, other);
                },
            }
        },
        None => {},
    }
}

/// Removing a source a second time changes nothing and asks nothing of the
/// driver.
pub proof fn law_remove_source_twice(m: Model, source: MediaSourceId)
    requires
        m.wf(),
    ensures
        m.remove_source(source@).remove_source(source@) == m.remove_source(source@),
        m.remove_source(source@).remove_source_actions(source) == Seq::<Action>::empty(),
{
    let once = m.remove_source(source@);
    let twice = once.remove_source(source@);
    lemma_remove_source_valid(m, source@);
    assert(once.peers.len() == m.peers.len());
    assert forall|i: int| 0 <= i < once.peers.len() implies #[trigger] twice.peers[i]
        == once.peers[i] by {
        assert(!once.peers[i].sends(source@));
        lemma_position_means(texts(once.peers[i].senders), source@);
        if position(texts(once.peers[i].senders), source@) is Some {
            let k = position(texts(once.peers[i].senders), source@).unwrap();
            assert(texts(once.peers[i].senders).contains(texts(once.peers[i].senders)[k]));
        }
    }
    assert(twice.peers =~= once.peers);
    lemma_no_detach(once, source, once.peers.len() as int);
}

/// Where no peer has a sender for a source, nothing is to be detached.
proof fn lemma_no_detach(m: Model, source: MediaSourceId, n: int)
    requires
        forall|i: int| 0 <= i < m.peers.len() ==> !(#[trigger] m.peers[i]).sends(source@),
    ensures
        m.detach_actions(source, n) == Seq::<Action>::empty(),
    decreases n,
{
    if n > 0 {
        lemma_no_detach(m, source, n - 1);
    }
}

/// Removing one source leaves every other source registered, with its codec,
/// and leaves every peer's sender for it attached.
pub proof fn law_remove_source_leaves_others(m: Model, source: Seq<char>, other: Seq<char>)
    requires
        m.wf(),
        other != source,
    ensures
        m.remove_source(source).has_source(other) == m.has_source(other),
        m.has_source(other) ==> m.remove_source(source).sources[position(
            m.remove_source(source).source_ids(),
            other,
        ).unwrap()] == m.sources[position(m.source_ids(), other).unwrap()],
        forall|i: int|
            0 <= i < m.peers.len() ==> (#[trigger] m.remove_source(source).peers[i]).sends(other)
                == m.peers[i].sends(other),
{
    let ids = m.source_ids();
    let after = m.remove_source(source);
    lemma_position_means(ids, source);
    lemma_position_means(ids, other);
    match position(ids, source) {
        Some(i) => {
            let rest = after.source_ids();
            assert(rest =~= ids.remove(i));
            match position(ids, other) {
                Some(k) => {
                    let k1 = if k < i { k } else { k - 1 };
                    assert(rest[k1] == ids[k]);
                    assert forall|j: int| 0 <= j < k1 implies rest[j] != other by {
                        let j0 = if j < i { j } else { j + 1 };
                        assert(rest[j] == ids[j0]);
                        if j0 >= k {
                            assert(ids[k] != ids[j0]);
                        }
                    }
                    assert(is_first(rest, other, k1));
                    lemma_position_found(rest, other, k1);
                    assert(after.sources[k1] == m.sources[k]);
                },
                None => {
                    assert forall|j: int| 0 <= j < rest.len() implies rest[j] != other by {
                        let j0 = if j < i { j } else { j + 1 };
                        assert(rest[j] == ids[j0]);
                    }
                    lemma_position_absent(rest, other);
                },
            }
        },
        None => {},
    }
    assert forall|a: int| 0 <= a < m.peers.len() implies (#[trigger] after.peers[a]).sends(other)
        == m.peers[a].sends(other) by {
        let held = m.peers[a].senders;
        assert(after.peers[a] == m.peers[a].without_sender(source));
        assert(distinct(texts(held)));
        lemma_without_distinct(held, source);
        let left = without(held, source);
        if texts(held).contains(other) {
            let k = choose|k: int| 0 <= k < held.len() && texts(held)[k] == other;
            assert(held[k]@ == other);
            assert(texts(left).contains(held[k]@));
        }
        if texts(left).contains(other) {
            let k = choose|k: int| 0 <= k < left.len() && texts(left)[k] == other;
            assert(left[k]@ == other);
            assert(texts(held).contains(left[k]@));
        }
    }
}

/// A dialled call attaches before it offers: the steps create the
/// transport, then attach every registered source in the order of
/// registration, and only then ask for the offer, which therefore describes
/// every source.
pub proof fn law_dial_attaches_before_offer(m: Model, peer: PeerId, k: int)
    requires
        0 <= k < m.sources.len(),
    ensures
        m.connect_actions(peer).len() == m.sources.len() + 1,
        m.connect_actions(peer)[0] == (Action::CreateTransport { peer }),
        m.connect_actions(peer)[k + 1] == (Action::AttachTrack { peer, source: m.sources[k].id }),
        m.connect_actions(peer).push(Action::CreateOffer { peer }).last() == (Action::CreateOffer {
            peer,
        }),
{
}

/// A dialled call is announced exactly once. When the transport of a peer
/// that was just dialled reports its offer, the offer becomes the local
/// description and one `CallInitiated` with that offer is emitted for the
/// peer, which stays in state `WaitingForSdp`.
pub proof fn law_dial_emits_call_initiated(m: Model, peer: PeerId, sdp: SessionDescription)
    requires
        m.wf(),
        !m.has_peer(peer@),
    ensures
        m.connect(peer).event_actions(TransportEvent::OfferCreated { peer, sdp }) == seq![
            Action::SetLocalDescription { peer, sdp },
            Action::Emit { event: EmittedEvents::CallInitiated { dest: peer, sdp } },
        ],
        m.connect(peer).after_event(TransportEvent::OfferCreated { peer, sdp }) == m.connect(peer),
        m.connect(peer).peer(peer@).state == PeerState::WaitingForSdp,
{
    lemma_connect_valid(m, peer);
}

/// An accepted call is answered exactly once. When the transport of a peer
/// whose call was just accepted reports its answer, the answer becomes the
/// local description, one `Sdp` with that answer is emitted for the peer,
/// and the peer moves to state `WaitingForIce`.
pub proof fn law_accept_emits_answer(m: Model, peer: PeerId, sdp: SessionDescription)
    requires
        m.wf(),
        !m.has_peer(peer@),
    ensures
        m.connect(peer).event_actions(TransportEvent::AnswerCreated { peer, sdp }) == seq![
            Action::SetLocalDescription { peer, sdp },
            Action::Emit { event: EmittedEvents::Sdp { dest: peer, sdp } },
        ],
        m.connect(peer).after_event(TransportEvent::AnswerCreated { peer, sdp }).has_peer(peer@),
        m.connect(peer).after_event(TransportEvent::AnswerCreated { peer, sdp }).peer(
            peer@,
        ).state == PeerState::WaitingForIce,
{
    lemma_connect_valid(m, peer);
    let joined = m.connect(peer);
    let after = joined.set_state(peer@, PeerState::WaitingForIce);
    lemma_set_state_valid(joined, peer@, PeerState::WaitingForIce);
    lemma_position_means(joined.peer_ids(), peer@);
}

/// A call that fails leaves no peer behind: when the transport of a peer
/// reports that its negotiation failed, the peer has no session afterwards.
pub proof fn law_failed_call_leaves_no_peer(m: Model, peer: PeerId)
    requires
        m.wf(),
    ensures
        !m.after_event(TransportEvent::Failed { peer }).has_peer(peer@),
        m.after_event(TransportEvent::Failed { peer }).sources == m.sources,
{
    lemma_hang_up_valid(m, peer@);
}

} // verus!
