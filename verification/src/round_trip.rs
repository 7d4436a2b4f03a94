//! The round trip of a stream through the jitter buffer: when every packet
//! of a stream arrives exactly once, in an order in which no packet comes
//! more than `max_late` places behind one that came before it, the frames
//! leave the buffer complete and in their original order.

use vstd::prelude::*;
use crate::jitter::{
    lemma_place_shaped, lemma_release_one_shaped, offset, seq_at, JitterModel, MAX_LATE_LIMIT,
};
use crate::packetizer::{PacketizerModel, RtpPacket, HEADER_SIZE};

verus! {

/// The packets carry consecutive sequence numbers, the first one `first`.
pub open spec fn consecutive(packets: Seq<RtpPacket>, first: u16) -> bool {
    forall|k: int|
        0 <= k < packets.len() ==> (#[trigger] packets[k]).sequence_number == seq_at(first, k)
}

/// Whether the packet with index `k` is among the first `t` arrivals.
pub open spec fn arrived(order: Seq<int>, t: int, k: int) -> bool {
    exists|s: int| 0 <= s < t && #[trigger] order[s] == k
}

/// `order` lists the indices of `n` packets in the order of their arrival,
/// each index exactly once.
pub open spec fn each_arrives_once(order: Seq<int>, n: int) -> bool {
    &&& order.len() == n
    &&& forall|s: int| 0 <= s < n ==> 0 <= #[trigger] order[s] < n
    &&& forall|s1: int, s2: int|
        0 <= s1 < s2 < n ==> #[trigger] order[s1] != #[trigger] order[s2]
    &&& forall|k: int| 0 <= k < n ==> #[trigger] arrived(order, n, k)
}

/// No packet arrives more than `max_late` places behind a packet that
/// arrived before it.
pub open spec fn bounded_lateness(order: Seq<int>, max_late: int) -> bool {
    forall|s1: int, s2: int|
        0 <= s1 < s2 < order.len() ==> #[trigger] order[s1] - #[trigger] order[s2] <= max_late
}

/// The buffer after the first `t` packets of `order` arrived.
pub open spec fn fed(m: JitterModel, packets: Seq<RtpPacket>, order: Seq<int>, t: int) -> JitterModel
    decreases t,
{
    if t <= 0 {
        m
    } else {
        fed(m, packets, order, t - 1).push(packets[order[t - 1]])
    }
}

/// The buffer follows the stream: after `t` arrivals its window starts at
/// the packet with index `e` and ends at the one with index `h`, the highest
/// that arrived; a slot holds its packet exactly if the packet arrived; and
/// the packets before the window have all arrived and left, in order.
pub open spec fn tracks(
    m: JitterModel,
    packets: Seq<RtpPacket>,
    first: u16,
    order: Seq<int>,
    t: int,
    e: int,
    h: int,
) -> bool {
    &&& m.shaped()
    &&& m.started
    &&& m.next == seq_at(first, e)
    &&& e + m.slots.len() - 1 == h
    &&& 0 <= h < packets.len()
    &&& -(m.max_late as int) <= e
    &&& arrived(order, t, h)
    &&& forall|s: int| 0 <= s < t ==> #[trigger] order[s] <= h
    &&& forall|i: int|
        0 <= i < m.slots.len() ==> #[trigger] m.slots[i] == if arrived(order, t, e + i) {
            Some(packets[e + i])
        } else {
            None::<RtpPacket>
        }
    &&& m.ready == packets.take(
        if e > 0 {
            e
        } else {
            0
        },
    )
    &&& forall|k: int| 0 <= k < e ==> #[trigger] arrived(order, t, k)
}

/// A packet that has not arrived among the first `t` arrives later.
proof fn lemma_arrives_later(order: Seq<int>, n: int, t: int, k: int) -> (s: int)
    requires
        each_arrives_once(order, n),
        0 <= k < n,
        0 <= t <= n,
        !arrived(order, t, k),
    ensures
        t <= s < n,
        order[s] == k,
{
    assert(arrived(order, n, k));
    let s = choose|s: int| 0 <= s < n && #[trigger] order[s] == k;
    if s < t {
        assert(arrived(order, t, k));
    }
    s
}

/// What arrived among the first `t + 1` is what arrived among the first `t`
/// and the packet that came then.
proof fn lemma_arrived_step(order: Seq<int>, t: int, k: int)
    requires
        0 <= t < order.len(),
    ensures
        arrived(order, t + 1, k) == (arrived(order, t, k) || order[t] == k),
{
    if arrived(order, t, k) {
        let s = choose|s: int| 0 <= s < t && #[trigger] order[s] == k;
        assert(0 <= s < t + 1 && order[s] == k);
    }
    if order[t] == k {
        assert(0 <= t < t + 1 && order[t] == k);
    }
    if arrived(order, t + 1, k) {
        let s = choose|s: int| 0 <= s < t + 1 && #[trigger] order[s] == k;
        if s < t {
            assert(arrived(order, t, k));
        }
    }
}

/// Counting from the packet with index `e` to the one with index `k` gives
/// `k - e`, as long as that is less than a full circle.
proof fn lemma_offset_exact(first: u16, e: int, k: int)
    requires
        0 <= k - e < 0x1_0000,
    ensures
        offset(seq_at(first, e), seq_at(first, k)) == k - e,
{
}

/// The packet that arrives next has not arrived before, and what has
/// arrived afterwards is what had arrived and this packet.
proof fn lemma_next_arrival(order: Seq<int>, n: int, t: int)
    requires
        each_arrives_once(order, n),
        1 <= t < n,
    ensures
        !arrived(order, t, order[t]),
        forall|j: int| arrived(order, t + 1, j) == (arrived(order, t, j) || j == order[t]),
{
    let k = order[t];
    if arrived(order, t, k) {
        let s = choose|s: int| 0 <= s < t && #[trigger] order[s] == k;
        assert(order[s] != order[t]);
    }
    assert forall|j: int| arrived(order, t + 1, j) == (arrived(order, t, j) || j == k) by {
        lemma_arrived_step(order, t, j);
    }
}

/// A packet that arrives ahead of the highest one so far is at most
/// `max_late + 1` places ahead of it.
proof fn lemma_ahead_bound(order: Seq<int>, n: int, max_late: int, t: int, h: int)
    requires
        each_arrives_once(order, n),
        bounded_lateness(order, max_late),
        0 <= max_late,
        1 <= t < n,
        0 <= h,
        order[t] > h,
        forall|s: int| 0 <= s < t ==> #[trigger] order[s] <= h,
    ensures
        order[t] - h <= max_late + 1,
{
    let k = order[t];
    if k > h + 1 {
        assert(!arrived(order, t + 1, h + 1)) by {
            if arrived(order, t + 1, h + 1) {
                let s = choose|s: int| 0 <= s < t + 1 && #[trigger] order[s] == h + 1;
                if s < t {
                    assert(order[s] <= h);
                }
            }
        }
        let s = lemma_arrives_later(order, n, t + 1, h + 1);
        assert(order[t] - order[s] <= max_late);
    }
}

/// The next packet of the order is ahead of the window: the buffer takes it,
/// the window reaches up to it, and the buffer still follows the stream.
proof fn lemma_place_ahead(
    m: JitterModel,
    packets: Seq<RtpPacket>,
    first: u16,
    order: Seq<int>,
    t: int,
    e: int,
    h: int,
)
    requires
        consecutive(packets, first),
        each_arrives_once(order, packets.len() as int),
        bounded_lateness(order, m.max_late as int),
        1 <= t < packets.len(),
        m.wf(),
        tracks(m, packets, first, order, t, e, h),
        order[t] > h,
    ensures
        tracks(m.place(packets[order[t]]), packets, first, order, t + 1, e, order[t]),
        m.place(packets[order[t]]).max_late == m.max_late,
{
    let n = packets.len() as int;
    let k = order[t];
    let p = packets[k];
    let len = m.slots.len() as int;
    let after = m.place(p);
    lemma_place_shaped(m, p);
    lemma_next_arrival(order, n, t);
    lemma_ahead_bound(order, n, m.max_late as int, t, h);
    assert(p.sequence_number == seq_at(first, k));
    lemma_offset_exact(first, e, k);
    let off = offset(m.next, p.sequence_number);
    assert(off == k - e);
    assert(off >= len);
    assert(off - len < 0x7FFF);
    assert(m.accepts(p));
    let gap = Seq::new((off - len) as nat, |i: int| None::<RtpPacket>);
    assert(after.slots == (m.slots + gap).push(Some(p)));
    assert(after.slots.len() == k - e + 1);
    assert(after.ready == m.ready);
    assert(after.next == m.next);
    assert forall|i: int| 0 <= i < after.slots.len() implies #[trigger] after.slots[i]
        == if arrived(order, t + 1, e + i) {
        Some(packets[e + i])
    } else {
        None::<RtpPacket>
    } by {
        if i < len {
            assert(after.slots[i] == m.slots[i]);
        } else if i < k - e {
            assert(after.slots[i] == gap[i - len]);
            if arrived(order, t, e + i) {
                let s = choose|s: int| 0 <= s < t && #[trigger] order[s] == e + i;
                assert(order[s] <= h);
            }
        } else {
            assert(after.slots[i] == Some(p));
        }
    }
    assert(arrived(order, t + 1, k));
    assert forall|s: int| 0 <= s < t + 1 implies #[trigger] order[s] <= k by {
        if s < t {
            assert(order[s] <= h);
        }
    }
    assert forall|j: int| 0 <= j < e implies #[trigger] arrived(order, t + 1, j) by {
        assert(arrived(order, t, j));
    }
}

/// The next packet of the order belongs into the window: its slot is empty,
/// the buffer takes it, and the buffer still follows the stream.
proof fn lemma_place_within(
    m: JitterModel,
    packets: Seq<RtpPacket>,
    first: u16,
    order: Seq<int>,
    t: int,
    e: int,
    h: int,
)
    requires
        consecutive(packets, first),
        each_arrives_once(order, packets.len() as int),
        bounded_lateness(order, m.max_late as int),
        1 <= t < packets.len(),
        m.wf(),
        tracks(m, packets, first, order, t, e, h),
        order[t] <= h,
    ensures
        tracks(m.place(packets[order[t]]), packets, first, order, t + 1, e, h),
        m.place(packets[order[t]]).max_late == m.max_late,
{
    let n = packets.len() as int;
    let k = order[t];
    let p = packets[k];
    let len = m.slots.len() as int;
    let after = m.place(p);
    lemma_place_shaped(m, p);
    lemma_next_arrival(order, n, t);
    assert(p.sequence_number == seq_at(first, k));
    assert(k >= e) by {
        if k < e {
            assert(arrived(order, t, k));
        }
    }
    assert(0 <= k - e < len);
    lemma_offset_exact(first, e, k);
    let off = offset(m.next, p.sequence_number);
    assert(off == k - e);
    assert(m.slots[off] == if arrived(order, t, e + off) {
        Some(packets[e + off])
    } else {
        None::<RtpPacket>
    });
    assert(m.slots[off] is None);
    assert(m.accepts(p));
    assert(after.slots == m.slots.update(off, Some(p)));
    assert(after.ready == m.ready);
    assert(after.next == m.next);
    assert forall|i: int| 0 <= i < after.slots.len() implies #[trigger] after.slots[i]
        == if arrived(order, t + 1, e + i) {
        Some(packets[e + i])
    } else {
        None::<RtpPacket>
    } by {
        if i != off {
            assert(after.slots[i] == m.slots[i]);
        }
    }
    assert(arrived(order, t + 1, h));
    assert forall|s: int| 0 <= s < t + 1 implies #[trigger] order[s] <= h by {
        if s < t {
            assert(order[s] <= h);
        }
    }
    assert forall|j: int| 0 <= j < e implies #[trigger] arrived(order, t + 1, j) by {
        assert(arrived(order, t, j));
    }
}

/// Putting the next packet of the order in its slot: the buffer takes it and
/// still follows the stream, with the window reaching up to it if it is the
/// highest so far.
proof fn lemma_place_tracks(
    m: JitterModel,
    packets: Seq<RtpPacket>,
    first: u16,
    order: Seq<int>,
    t: int,
    e: int,
    h: int,
) -> (h2: int)
    requires
        consecutive(packets, first),
        each_arrives_once(order, packets.len() as int),
        bounded_lateness(order, m.max_late as int),
        1 <= t < packets.len(),
        m.wf(),
        tracks(m, packets, first, order, t, e, h),
    ensures
        tracks(m.place(packets[order[t]]), packets, first, order, t + 1, e, h2),
        m.place(packets[order[t]]).max_late == m.max_late,
{
    if order[t] > h {
        lemma_place_ahead(m, packets, first, order, t, e, h);
        order[t]
    } else {
        lemma_place_within(m, packets, first, order, t, e, h);
        h
    }
}

/// Letting the slots leave that can: no packet of the stream is skipped,
/// and the buffer still follows the stream.
proof fn lemma_release_tracks(
    m: JitterModel,
    packets: Seq<RtpPacket>,
    first: u16,
    order: Seq<int>,
    t: int,
    e: int,
    h: int,
) -> (e2: int)
    requires
        each_arrives_once(order, packets.len() as int),
        bounded_lateness(order, m.max_late as int),
        1 <= t <= packets.len(),
        tracks(m, packets, first, order, t, e, h),
    ensures
        tracks(m.release(), packets, first, order, t, e2, h),
        m.release().wf(),
        m.release().max_late == m.max_late,
    decreases m.slots.len(),
{
    let n = packets.len() as int;
    if m.releasable() {
        let after = m.release_one();
        lemma_release_one_shaped(m);
        lemma_head_leaves(m, packets, first, order, t, e, h);
        lemma_release_tracks(after, packets, first, order, t, e + 1, h)
    } else {
        e
    }
}

/// When the first slot leaves the window, with its packet or because it fell
/// behind, the buffer still follows the stream: a slot that falls behind is
/// one from before the stream began.
proof fn lemma_head_leaves(
    m: JitterModel,
    packets: Seq<RtpPacket>,
    first: u16,
    order: Seq<int>,
    t: int,
    e: int,
    h: int,
)
    requires
        each_arrives_once(order, packets.len() as int),
        bounded_lateness(order, m.max_late as int),
        1 <= t <= packets.len(),
        tracks(m, packets, first, order, t, e, h),
        m.slots.len() > 0,
        m.slots[0] is Some || m.slots.len() > m.max_late + 1 || t == packets.len(),
    ensures
        tracks(m.release_one(), packets, first, order, t, e + 1, h),
{
    let n = packets.len() as int;
    let after = m.release_one();
    lemma_release_one_shaped(m);
    assert(after.next == seq_at(first, e + 1));
    assert forall|i: int| 0 <= i < after.slots.len() implies #[trigger] after.slots[i]
        == if arrived(order, t, e + 1 + i) {
        Some(packets[e + 1 + i])
    } else {
        None::<RtpPacket>
    } by {
        assert(after.slots[i] == m.slots[i + 1]);
    }
    assert(m.slots[0] == if arrived(order, t, e + 0) {
        Some(packets[e + 0])
    } else {
        None::<RtpPacket>
    });
    if m.slots[0] is Some {
        assert(arrived(order, t, e));
        let s = choose|s: int| 0 <= s < t && #[trigger] order[s] == e;
        assert(0 <= order[s]);
        assert(after.ready == packets.take(e).push(packets[e]));
        assert(packets.take(e).push(packets[e]) =~= packets.take(e + 1));
    } else {
        assert(!arrived(order, t, e));
        if e >= 0 {
            if t == n {
                assert(arrived(order, n, e));
            } else {
                let s = lemma_arrives_later(order, n, t, e);
                let sh = choose|sh: int| 0 <= sh < t && #[trigger] order[sh] == h;
                assert(order[sh] - order[s] <= m.max_late);
            }
        }
        assert(e < 0);
    }
    assert forall|k: int| 0 <= k < e + 1 implies #[trigger] arrived(order, t, k) by {
        if k < e {
            assert(arrived(order, t, k));
        }
    }
}

/// After the first `t` packets of the order arrived, the buffer is valid
/// and follows the stream.
proof fn lemma_fed_tracks(
    max_late: u16,
    packets: Seq<RtpPacket>,
    first: u16,
    order: Seq<int>,
    t: int,
) -> (eh: (int, int))
    requires
        max_late <= MAX_LATE_LIMIT,
        consecutive(packets, first),
        each_arrives_once(order, packets.len() as int),
        bounded_lateness(order, max_late as int),
        1 <= t <= packets.len(),
    ensures
        tracks(fed(JitterModel::start(max_late), packets, order, t), packets, first, order, t, eh.0, eh.1),
        fed(JitterModel::start(max_late), packets, order, t).wf(),
        fed(JitterModel::start(max_late), packets, order, t).max_late == max_late,
    decreases t,
{
    let n = packets.len() as int;
    let start = JitterModel::start(max_late);
    if t == 1 {
        let k = order[0];
        let p = packets[k];
        let placed = start.place(p);
        assert(fed(start, packets, order, 0) == start);
        assert(fed(start, packets, order, 1) == placed.release());
        assert(start.wf());
        lemma_place_shaped(start, p);
        assert(p.sequence_number == seq_at(first, k));
        assert(arrived(order, 1, k)) by {
            assert(0 <= 0 < 1 && order[0] == k);
        }
        assert(k <= max_late) by {
            if k > 0 {
                assert(!arrived(order, 1, 0)) by {
                    if arrived(order, 1, 0) {
                        let s = choose|s: int| 0 <= s < 1 && #[trigger] order[s] == 0;
                    }
                }
                let s = lemma_arrives_later(order, n, 1, 0);
                assert(order[0] - order[s] <= max_late);
            }
        }
        let e = k - max_late;
        assert(placed.next == seq_at(first, e));
        assert(placed.slots.len() == max_late + 1);
        assert forall|i: int| 0 <= i < placed.slots.len() implies #[trigger] placed.slots[i]
            == if arrived(order, 1, e + i) {
            Some(packets[e + i])
        } else {
            None::<RtpPacket>
        } by {
            if i < max_late {
                assert(placed.slots[i] is None);
                if arrived(order, 1, e + i) {
                    let s = choose|s: int| 0 <= s < 1 && #[trigger] order[s] == e + i;
                }
            }
        }
        assert(placed.ready =~= packets.take(0));
        assert(tracks(placed, packets, first, order, 1, e, k));
        let e2 = lemma_release_tracks(placed, packets, first, order, 1, e, k);
        (e2, k)
    } else {
        let (e, h) = lemma_fed_tracks(max_late, packets, first, order, t - 1);
        let before = fed(start, packets, order, t - 1);
        let p = packets[order[t - 1]];
        let h2 = lemma_place_tracks(before, packets, first, order, t - 1, e, h);
        let e2 = lemma_release_tracks(before.place(p), packets, first, order, t, e, h2);
        (e2, h2)
    }
}

/// Once every packet has arrived, ending the stream lets them all leave.
proof fn lemma_flush_tracks(
    m: JitterModel,
    packets: Seq<RtpPacket>,
    first: u16,
    order: Seq<int>,
    e: int,
    h: int,
)
    requires
        each_arrives_once(order, packets.len() as int),
        bounded_lateness(order, m.max_late as int),
        1 <= packets.len(),
        tracks(m, packets, first, order, packets.len() as int, e, h),
    ensures
        m.flush().ready == packets,
    decreases m.slots.len(),
{
    let n = packets.len() as int;
    if m.slots.len() > 0 {
        lemma_head_leaves(m, packets, first, order, n, e, h);
        lemma_flush_tracks(m.release_one(), packets, first, order, e + 1, h);
    } else {
        assert(e == h + 1);
        assert(h == n - 1) by {
            if h < n - 1 {
                assert(arrived(order, n, n - 1));
                let s = choose|s: int| 0 <= s < n && #[trigger] order[s] == n - 1;
                assert(order[s] <= h);
            }
        }
        assert(packets.take(n) =~= packets);
    }
}

/// The round-trip law. Let a stream of packets with consecutive sequence
/// numbers arrive at a new buffer, each packet exactly once, in an order in
/// which no packet comes more than the buffer's bound behind one that came
/// before it. The bound is `max_late`, or `MAX_LATE_LIMIT` if that is less. When the stream has ended, the frames that left the buffer are
/// the packets of the stream, all of them, in their original order, whatever
/// the permutation was.
pub proof fn law_round_trip(max_late: u16, packets: Seq<RtpPacket>, first: u16, order: Seq<int>)
    requires
        consecutive(packets, first),
        each_arrives_once(order, packets.len() as int),
        bounded_lateness(order, JitterModel::start(max_late).max_late as int),
    ensures
        fed(JitterModel::start(max_late), packets, order, packets.len() as int).flush().ready
            == packets,
{
    let bound = JitterModel::start(max_late).max_late;
    assert(JitterModel::start(bound) == JitterModel::start(max_late));
    lemma_round_trip_within_limit(bound, packets, first, order);
}

/// The round trip for a bound that the buffer takes as it is.
proof fn lemma_round_trip_within_limit(
    max_late: u16,
    packets: Seq<RtpPacket>,
    first: u16,
    order: Seq<int>,
)
    requires
        max_late <= MAX_LATE_LIMIT,
        consecutive(packets, first),
        each_arrives_once(order, packets.len() as int),
        bounded_lateness(order, max_late as int),
    ensures
        fed(JitterModel::start(max_late), packets, order, packets.len() as int).flush().ready
            == packets,
{
    let n = packets.len() as int;
    let start = JitterModel::start(max_late);
    if n == 0 {
        assert(fed(start, packets, order, 0) == start);
        assert(start.flush() == start);
        assert(start.ready =~= packets);
    } else {
        let (e, h) = lemma_fed_tracks(max_late, packets, first, order, n);
        lemma_flush_tracks(fed(start, packets, order, n), packets, first, order, e, h);
    }
}

/// The payloads of the packets, in order.
pub open spec fn payloads(packets: Seq<RtpPacket>) -> Seq<Vec<u8>> {
    packets.map_values(|p: RtpPacket| p.payload)
}

/// The stream law of the packetizer. Frames of at least one byte leave as
/// one packet each, in order, where the MTU leaves room behind the header.
/// The packets carry the frames, the source identifier of the stream, and
/// consecutive sequence numbers that start at the packetizer's next one;
/// from one packet to the next the timestamp advances by the samples of a
/// frame.
pub proof fn law_stream_is_consecutive(p: PacketizerModel, frames: Seq<Vec<u8>>, samples: u32)
    requires
        p.mtu > HEADER_SIZE,
        forall|k: int| 0 <= k < frames.len() ==> (#[trigger] frames[k])@.len() > 0,
    ensures
        p.stream(frames, samples).len() == frames.len(),
        consecutive(p.stream(frames, samples), p.next_sequence),
        payloads(p.stream(frames, samples)) == frames,
        p.after_all(frames, samples).next_sequence == seq_at(p.next_sequence, frames.len() as int),
        p.after_all(frames, samples).mtu == p.mtu,
        p.after_all(frames, samples).ssrc == p.ssrc,
        forall|k: int|
            0 <= k < frames.len() ==> (#[trigger] p.stream(frames, samples)[k]).source_id
                == p.ssrc,
        forall|k: int|
            0 <= k < frames.len() - 1 ==> (#[trigger] p.stream(frames, samples)[k + 1]).timestamp
                == p.stream(frames, samples)[k].timestamp.wrapping_add(samples),
    decreases frames.len(),
{
    let n = frames.len() as int;
    if n > 0 {
        let before = frames.drop_last();
        let q = p.after_all(before, samples);
        let head = p.stream(before, samples);
        let all = p.stream(frames, samples);
        assert forall|k: int| 0 <= k < before.len() implies (#[trigger] before[k])@.len() > 0 by {
            assert(before[k] == frames[k]);
        }
        law_stream_is_consecutive(p, before, samples);
        assert(q.carries(frames.last()@));
        assert(all == head + seq![q.packet_for(frames.last())]);
        assert(all.len() == n);
        assert forall|k: int| 0 <= k < n implies (#[trigger] all[k]).sequence_number == seq_at(
            p.next_sequence,
            k,
        ) && all[k].source_id == p.ssrc by {
            if k < n - 1 {
                assert(all[k] == head[k]);
            }
        }
        assert(payloads(all) =~= frames) by {
            assert forall|k: int| 0 <= k < n implies payloads(all)[k] == frames[k] by {
                if k < n - 1 {
                    assert(all[k] == head[k]);
                    assert(payloads(head)[k] == before[k]);
                }
            }
        }
        assert forall|k: int| 0 <= k < n - 1 implies (#[trigger] all[k + 1]).timestamp
            == all[k].timestamp.wrapping_add(samples) by {
            assert(all[k] == head[k]);
            if k < n - 2 {
                assert(all[k + 1] == head[k + 1]);
            } else {
                lemma_last_timestamp(p, before, samples);
            }
        }
    } else {
        assert(payloads(p.stream(frames, samples)) =~= frames);
    }
}

/// After a stream of at least one frame the clock stands `samples` behind
/// the timestamp of the last packet.
proof fn lemma_last_timestamp(p: PacketizerModel, frames: Seq<Vec<u8>>, samples: u32)
    requires
        p.mtu > HEADER_SIZE,
        frames.len() > 0,
        forall|k: int| 0 <= k < frames.len() ==> (#[trigger] frames[k])@.len() > 0,
    ensures
        p.stream(frames, samples).len() == frames.len(),
        p.after_all(frames, samples).timestamp == p.stream(frames, samples).last().timestamp.wrapping_add(
            samples,
        ),
    decreases frames.len(),
{
    let before = frames.drop_last();
    assert forall|k: int| 0 <= k < before.len() implies (#[trigger] before[k])@.len() > 0 by {
        assert(before[k] == frames[k]);
    }
    law_stream_is_consecutive(p, before, samples);
    let q = p.after_all(before, samples);
    assert(q.carries(frames.last()@));
    assert(p.stream(frames, samples) == p.stream(before, samples) + seq![
        q.packet_for(frames.last()),
    ]);
}

/// The round trip from frames to frames. Packetize a sequence of frames of
/// at least one byte and let the packets arrive at a new jitter buffer,
/// each exactly once, in an order in which no packet comes more than the
/// buffer's bound behind one that came before it. When the stream has
/// ended, the payloads of the frames that left the buffer are the frames
/// that were packetized, all of them, in their original order.
pub proof fn law_frames_round_trip(
    p: PacketizerModel,
    frames: Seq<Vec<u8>>,
    samples: u32,
    max_late: u16,
    order: Seq<int>,
)
    requires
        p.mtu > HEADER_SIZE,
        forall|k: int| 0 <= k < frames.len() ==> (#[trigger] frames[k])@.len() > 0,
        each_arrives_once(order, frames.len() as int),
        bounded_lateness(order, JitterModel::start(max_late).max_late as int),
    ensures
        payloads(
            fed(
                JitterModel::start(max_late),
                p.stream(frames, samples),
                order,
                frames.len() as int,
            ).flush().ready,
        ) == frames,
{
    law_stream_is_consecutive(p, frames, samples);
    law_round_trip(max_late, p.stream(frames, samples), p.next_sequence, order);
}

} // verus!
