//! The jitter buffer of the receive path. Packets arrive in any order; frames
//! leave in the order of their sequence numbers. A packet is taken if it is
//! no more than `max_late` sequence numbers behind the newest one seen;
//! an older one is dropped. A frame leaves once every frame before it has
//! left or has fallen behind that bound, so a missing packet delays the
//! stream by at most `max_late` packets and never stops it.
//!
//! Sequence numbers count modulo 2^16. A number up to half the circle ahead
//! of the newest one counts as newer, the others as older.

use vstd::prelude::*;
use std::collections::VecDeque;
use crate::packetizer::RtpPacket;

verus! {

/// The largest lateness bound: with it a packet that is newer than the
/// newest one seen can still be told from one that is too late.
pub const MAX_LATE_LIMIT: u16 = 0x7FFE;

/// The sequence number `i` places after `next`, counting modulo 2^16.
pub open spec fn seq_at(next: u16, i: int) -> u16 {
    ((next + i) % 0x1_0000) as u16
}

/// The number of places from `next` forward to `seq`, counting modulo 2^16.
pub open spec fn offset(next: u16, seq: u16) -> int {
    (seq - next) % 0x1_0000
}

/// The state of a jitter buffer.
pub struct JitterModel {
    /// How many sequence numbers behind the newest a packet may arrive.
    pub max_late: u16,
    /// Whether a packet has arrived yet.
    pub started: bool,
    /// The sequence number of the first slot: the next frame to leave.
    pub next: u16,
    /// The window: slot `i` holds the packet with sequence number `next + i`
    /// once it has arrived. The last slot holds the newest packet seen.
    pub slots: Seq<Option<RtpPacket>>,
    /// The frames that have left the window and wait to be taken, in order.
    pub ready: Seq<RtpPacket>,
    /// The number of packets that were dropped on arrival.
    pub dropped: u64,
}

impl JitterModel {
    /// The state of a new buffer.
    pub open spec fn start(max_late: u16) -> JitterModel {
        JitterModel {
            max_late: if max_late <= MAX_LATE_LIMIT {
                max_late
            } else {
                MAX_LATE_LIMIT
            },
            started: false,
            next: 0,
            slots: Seq::empty(),
            ready: Seq::empty(),
            dropped: 0,
        }
    }

    /// What holds of the window at any time: it is no longer than the
    /// sequence numbers can tell apart, it ends with the newest packet, and
    /// every packet stands in the slot of its sequence number.
    pub open spec fn shaped(self) -> bool {
        &&& self.max_late <= MAX_LATE_LIMIT
        &&& (!self.started ==> self.slots.len() == 0)
        &&& self.slots.len() <= 0xFFFF
        &&& (self.slots.len() > 0 ==> self.slots.last() is Some)
        &&& forall|i: int|
            0 <= i < self.slots.len() ==> (#[trigger] self.slots[i] matches Some(p)
                ==> p.sequence_number == seq_at(self.next, i))
    }

    /// Validity, which holds between any two operations: the window spans at
    /// most `max_late + 1` sequence numbers, and its first slot waits for a
    /// packet.
    pub open spec fn wf(self) -> bool {
        &&& self.shaped()
        &&& self.slots.len() <= self.max_late + 1
        &&& (self.slots.len() > 0 ==> self.slots[0] is None)
    }

    /// The newest sequence number seen. Meaningful once a packet has arrived.
    pub open spec fn newest(self) -> u16 {
        seq_at(self.next, self.slots.len() - 1)
    }

    /// How many sequence numbers `seq` is behind the newest one seen,
    /// counting modulo 2^16.
    pub open spec fn lag(self, seq: u16) -> int {
        (self.newest() - seq) % 0x1_0000
    }

    /// Whether a packet with this sequence number comes too late: it is
    /// older than the newest one seen by more than `max_late`.
    pub open spec fn is_late(self, seq: u16) -> bool {
        self.started && self.max_late < self.lag(seq) <= 0x8000
    }

    /// Whether the packet is taken. The first packet always is. Later, a
    /// packet is taken if it is newer than the newest one seen, or if its
    /// slot in the window is still empty. A packet behind the window, or one
    /// whose slot is filled, is dropped.
    pub open spec fn accepts(self, packet: RtpPacket) -> bool {
        if !self.started {
            true
        } else {
            let off = offset(self.next, packet.sequence_number);
            if off < self.slots.len() {
                self.slots[off] is None
            } else {
                off - self.slots.len() < 0x7FFF
            }
        }
    }

    /// The state with one more dropped packet.
    pub open spec fn count_drop(self) -> JitterModel {
        JitterModel {
            dropped: if self.dropped < u64::MAX {
                (self.dropped + 1) as u64
            } else {
                self.dropped
            },
            ..self
        }
    }

    /// The state after the packet was put in its slot, before any frame
    /// leaves. The first packet opens a window that reaches `max_late`
    /// sequence numbers back, so that older packets that are still under way
    /// find their slots.
    pub open spec fn place(self, packet: RtpPacket) -> JitterModel {
        if !self.started {
            JitterModel {
                started: true,
                next: seq_at(packet.sequence_number, -(self.max_late as int)),
                slots: Seq::new(self.max_late as nat, |i: int| None::<RtpPacket>).push(
                    Some(packet),
                ),
                ..self
            }
        } else if !self.accepts(packet) {
            self.count_drop()
        } else {
            let off = offset(self.next, packet.sequence_number);
            if off < self.slots.len() {
                JitterModel { slots: self.slots.update(off, Some(packet)), ..self }
            } else {
                JitterModel {
                    slots: (self.slots + Seq::new(
                        (off - self.slots.len()) as nat,
                        |i: int| None::<RtpPacket>,
                    )).push(Some(packet)),
                    ..self
                }
            }
        }
    }

    /// Whether the first slot leaves the window now: its packet is there, or
    /// it has fallen more than `max_late` behind the newest one.
    pub open spec fn releasable(self) -> bool {
        self.slots.len() > 0 && (self.slots[0] is Some || self.slots.len() > self.max_late + 1)
    }

    /// The state after the first slot left the window. Its packet, if it
    /// arrived, joins the frames that wait to be taken.
    pub open spec fn release_one(self) -> JitterModel {
        JitterModel {
            next: seq_at(self.next, 1),
            slots: self.slots.drop_first(),
            ready: match self.slots[0] {
                Some(p) => self.ready.push(p),
                None => self.ready,
            },
            ..self
        }
    }

    /// The state after every slot that can leave has left.
    pub open spec fn release(self) -> JitterModel
        decreases self.slots.len(),
    {
        if self.releasable() {
            self.release_one().release()
        } else {
            self
        }
    }

    /// The state after a packet arrived.
    pub open spec fn push(self, packet: RtpPacket) -> JitterModel {
        self.place(packet).release()
    }

    /// The state after the stream ended: every slot has left the window, and
    /// the packets that had arrived wait to be taken, in order.
    pub open spec fn flush(self) -> JitterModel
        decreases self.slots.len(),
    {
        if self.slots.len() > 0 {
            self.release_one().flush()
        } else {
            self
        }
    }

    /// The state after the first waiting frame was taken.
    pub open spec fn pop(self) -> JitterModel {
        if self.ready.len() > 0 {
            JitterModel { ready: self.ready.drop_first(), ..self }
        } else {
            self
        }
    }
}

/// Placing a packet keeps the window in shape.
pub proof fn lemma_place_shaped(m: JitterModel, packet: RtpPacket)
    requires
        m.wf(),
    ensures
        m.place(packet).shaped(),
{
    let after = m.place(packet);
    if !m.started {
        assert(after.slots.len() == m.max_late + 1);
        assert(after.slots.last() == Some(packet));
        assert forall|i: int| 0 <= i < after.slots.len() implies (
        #[trigger] after.slots[i] matches Some(p) ==> p.sequence_number == seq_at(after.next, i)) by {
            if i < m.max_late {
                assert(after.slots[i] is None);
            }
        }
    } else if m.accepts(packet) {
        let off = offset(m.next, packet.sequence_number);
        if off < m.slots.len() {
            assert(after.slots.last() is Some);
        } else {
            assert(after.slots.len() == off + 1);
            assert(after.slots.last() == Some(packet));
            assert forall|i: int| 0 <= i < after.slots.len() implies (
            #[trigger] after.slots[i] matches Some(p) ==> p.sequence_number == seq_at(
                after.next,
                i,
            )) by {
                if i < m.slots.len() {
                    assert(after.slots[i] == m.slots[i]);
                } else if i < off {
                    assert(after.slots[i] is None);
                }
            }
        }
    }
}

/// Letting one slot leave keeps the window in shape.
pub proof fn lemma_release_one_shaped(m: JitterModel)
    requires
        m.shaped(),
        m.slots.len() > 0,
    ensures
        m.release_one().shaped(),
{
    let after = m.release_one();
    assert forall|i: int| 0 <= i < after.slots.len() implies (#[trigger] after.slots[i] matches Some(
        p,
    ) ==> p.sequence_number == seq_at(after.next, i)) by {
        assert(after.slots[i] == m.slots[i + 1]);
    }
    if after.slots.len() > 0 {
        assert(after.slots.last() == m.slots.last());
    }
}

/// After the slots that can leave have left, the buffer is valid.
pub proof fn lemma_release_valid(m: JitterModel)
    requires
        m.shaped(),
    ensures
        m.release().wf(),
        m.release().max_late == m.max_late,
        m.release().started == m.started,
        m.release().dropped == m.dropped,
    decreases m.slots.len(),
{
    if m.releasable() {
        lemma_release_one_shaped(m);
        lemma_release_valid(m.release_one());
    }
}

/// After the end of the stream the buffer is valid and its window is empty.
pub proof fn lemma_flush_valid(m: JitterModel)
    requires
        m.shaped(),
    ensures
        m.flush().wf(),
        m.flush().slots.len() == 0,
        m.flush().max_late == m.max_late,
    decreases m.slots.len(),
{
    if m.slots.len() > 0 {
        lemma_release_one_shaped(m);
        lemma_flush_valid(m.release_one());
    }
}

/// A packet keeps the buffer valid.
pub proof fn lemma_push_valid(m: JitterModel, packet: RtpPacket)
    requires
        m.wf(),
    ensures
        m.push(packet).wf(),
{
    lemma_place_shaped(m, packet);
    lemma_release_valid(m.place(packet));
}

/// The lateness law. A packet whose sequence number is older than the newest
/// one seen by more than `max_late` is dropped: it is counted, and neither
/// the window nor the frames that wait to be taken change, so it never
/// leaves the buffer.
pub proof fn law_late_packet_dropped(m: JitterModel, packet: RtpPacket)
    requires
        m.wf(),
        m.is_late(packet.sequence_number),
    ensures
        !m.accepts(packet),
        m.push(packet) == m.count_drop(),
        m.push(packet).slots == m.slots,
        m.push(packet).ready == m.ready,
        m.push(packet).next == m.next,
{
    let off = offset(m.next, packet.sequence_number);
    let len = m.slots.len() as int;
    assert(m.lag(packet.sequence_number) == (len - 1 - off) % 0x1_0000) by {
        assert(m.newest() == (m.next + len - 1) % 0x1_0000);
    }
    assert(!m.accepts(packet));
    assert(!m.count_drop().releasable());
}

/// A buffer for one incoming stream.
pub struct JitterBuffer {
    max_late: u16,
    started: bool,
    next: u16,
    slots: VecDeque<Option<RtpPacket>>,
    ready: VecDeque<RtpPacket>,
    dropped: u64,
}

impl View for JitterBuffer {
    type V = JitterModel;

    closed spec fn view(&self) -> JitterModel {
        JitterModel {
            max_late: self.max_late,
            started: self.started,
            next: self.next,
            slots: self.slots@,
            ready: self.ready@,
            dropped: self.dropped,
        }
    }
}

impl JitterBuffer {
    /// A buffer that has seen no packet. A bound above `MAX_LATE_LIMIT` is
    /// lowered to it.
    pub fn new(max_late: u16) -> (buffer: JitterBuffer)
        ensures
            buffer@ == JitterModel::start(max_late),
            buffer@.wf(),
    {
        JitterBuffer {
            max_late: if max_late <= MAX_LATE_LIMIT {
                max_late
            } else {
                MAX_LATE_LIMIT
            },
            started: false,
            next: 0,
            slots: VecDeque::new(),
            ready: VecDeque::new(),
            dropped: 0,
        }
    }

    /// The lateness bound of the buffer.
    pub fn max_late(&self) -> (bound: u16)
        ensures
            bound == self@.max_late,
    {
        self.max_late
    }

    /// The number of packets that were dropped on arrival.
    pub fn dropped(&self) -> (count: u64)
        ensures
            count == self@.dropped,
    {
        self.dropped
    }

    /// The number of frames that wait to be taken.
    pub fn ready_len(&self) -> (count: usize)
        ensures
            count == self@.ready.len(),
    {
        self.ready.len()
    }

    /// Adds `count` empty slots at the end of the window.
    fn extend_window(&mut self, count: usize)
        ensures
            final(self)@ == (JitterModel {
                slots: old(self)@.slots + Seq::new(count as nat, |i: int| None::<RtpPacket>),
                ..old(self)@
            }),
    {
        let mut k: usize = 0;
        assert(self@.slots =~= old(self)@.slots + Seq::new(0, |i: int| None::<RtpPacket>));
        while k < count
            invariant
                k <= count,
                self@ == (JitterModel {
                    slots: old(self)@.slots + Seq::new(k as nat, |i: int| None::<RtpPacket>),
                    ..old(self)@
                }),
            decreases count - k,
        {
            self.slots.push_back(None);
            assert(self@.slots =~= old(self)@.slots + Seq::new(
                (k + 1) as nat,
                |i: int| None::<RtpPacket>,
            ));
            k += 1;
        }
    }

    /// Lets slots leave the window from its start: all of them if
    /// `everything` is set, and otherwise as long as the first one can leave.
    fn drain(&mut self, everything: bool)
        requires
            old(self)@.shaped(),
        ensures
            final(self)@ == if everything {
                old(self)@.flush()
            } else {
                old(self)@.release()
            },
    {
        while self.slots.len() > 0 && (everything || self.slots[0].is_some() || self.slots.len()
            > self.max_late as usize + 1)
            invariant
                self@.shaped(),
                everything ==> self@.flush() == old(self)@.flush(),
                !everything ==> self@.release() == old(self)@.release(),
            decreases self.slots.len(),
        {
            proof {
                lemma_release_one_shaped(self@);
            }
            let ghost before = self@;
            let head = self.slots.pop_front();
            self.next = self.next.wrapping_add(1);
            match head {
                Some(Some(packet)) => {
                    self.ready.push_back(packet);
                },
                _ => {},
            }
            assert(self@.slots =~= before.slots.drop_first());
            assert(self@ == before.release_one());
        }
    }

    /// Opens the window for the first packet: `max_late` empty slots and the
    /// packet behind them.
    fn open_window(&mut self, packet: RtpPacket)
        requires
            old(self)@.wf(),
            !old(self)@.started,
        ensures
            final(self)@ == old(self)@.place(packet),
    {
        let ghost before = self@;
        self.started = true;
        self.next = packet.sequence_number.wrapping_sub(self.max_late);
        self.extend_window(self.max_late as usize);
        self.slots.push_back(Some(packet));
        assert(self@.slots =~= before.place(packet).slots);
    }

    /// Puts a packet into its empty slot inside the window.
    fn fill_slot(&mut self, off: usize, packet: RtpPacket)
        requires
            off < old(self)@.slots.len(),
        ensures
            final(self)@ == (JitterModel {
                slots: old(self)@.slots.update(off as int, Some(packet)),
                ..old(self)@
            }),
    {
        let ghost before = self@;
        self.slots.remove(off);
        self.slots.insert(off, Some(packet));
        assert(self@.slots =~= before.slots.update(off as int, Some(packet)));
    }

    /// Puts a packet beyond the end of the window, behind `gap` empty slots.
    fn append_slot(&mut self, gap: usize, packet: RtpPacket)
        ensures
            final(self)@ == (JitterModel {
                slots: (old(self)@.slots + Seq::new(gap as nat, |i: int| None::<RtpPacket>)).push(
                    Some(packet),
                ),
                ..old(self)@
            }),
    {
        self.extend_window(gap);
        self.slots.push_back(Some(packet));
    }

    /// Puts a packet in its slot, or drops it.
    fn place(&mut self, packet: RtpPacket) -> (accepted: bool)
        requires
            old(self)@.wf(),
        ensures
            final(self)@ == old(self)@.place(packet),
            accepted == old(self)@.accepts(packet),
    {
        if !self.started {
            self.open_window(packet);
            return true;
        }
        let off = packet.sequence_number.wrapping_sub(self.next) as usize;
        let len = self.slots.len();
        assert(off == offset(self@.next, packet.sequence_number));
        if off < len {
            if self.slots[off].is_none() {
                self.fill_slot(off, packet);
                true
            } else {
                self.count_drop();
                false
            }
        } else if off - len < 0x7FFF {
            self.append_slot(off - len, packet);
            true
        } else {
            self.count_drop();
            false
        }
    }

    /// Takes a packet that arrived and tells whether it was taken or
    /// dropped. The frames that it lets leave the window wait to be taken
    /// with `pop`: none, one, or several.
    pub fn push(&mut self, packet: RtpPacket) -> (accepted: bool)
        requires
            old(self)@.wf(),
        ensures
            final(self)@.wf(),
            final(self)@ == old(self)@.push(packet),
            accepted == old(self)@.accepts(packet),
    {
        proof {
            lemma_place_shaped(self@, packet);
            lemma_release_valid(self@.place(packet));
        }
        let accepted = self.place(packet);
        self.drain(false);
        accepted
    }

    /// Counts one more dropped packet; the count stops at its largest value.
    fn count_drop(&mut self)
        ensures
            final(self)@ == old(self)@.count_drop(),
    {
        if self.dropped < u64::MAX {
            self.dropped = self.dropped + 1;
        }
    }

    /// Takes the next frame that left the window, if one waits.
    pub fn pop(&mut self) -> (frame: Option<RtpPacket>)
        requires
            old(self)@.wf(),
        ensures
            final(self)@.wf(),
            final(self)@ == old(self)@.pop(),
            frame == if old(self)@.ready.len() > 0 {
                Some(old(self)@.ready[0])
            } else {
                None
            },
    {
        let frame = self.ready.pop_front();
        assert(self@.ready =~= old(self)@.pop().ready);
        frame
    }

    /// Takes a packet that arrived and returns the frames that it lets
    /// leave, in order, together with any that still waited.
    pub fn receive(&mut self, packet: RtpPacket) -> (frames: Vec<RtpPacket>)
        requires
            old(self)@.wf(),
        ensures
            final(self)@.wf(),
            final(self)@ == (JitterModel { ready: Seq::empty(), ..old(self)@.push(packet) }),
            frames@ == old(self)@.push(packet).ready,
    {
        self.push(packet);
        self.take_ready()
    }

    /// Takes every frame that waits, in order.
    pub fn take_ready(&mut self) -> (frames: Vec<RtpPacket>)
        requires
            old(self)@.wf(),
        ensures
            final(self)@.wf(),
            final(self)@ == (JitterModel { ready: Seq::empty(), ..old(self)@ }),
            frames@ == old(self)@.ready,
    {
        let mut frames: Vec<RtpPacket> = Vec::new();
        while self.ready.len() > 0
            invariant
                self@.wf(),
                self@ == (JitterModel { ready: self@.ready, ..old(self)@ }),
                frames@ + self@.ready == old(self)@.ready,
            decreases self.ready.len(),
        {
            let ghost waiting = self@.ready;
            match self.ready.pop_front() {
                Some(frame) => {
                    frames.push(frame);
                    assert(self@.ready =~= waiting.drop_first());
                    assert(frames@ + self@.ready =~= old(self)@.ready);
                },
                None => {},
            }
        }
        assert(self@.ready =~= Seq::empty());
        assert(frames@ =~= old(self)@.ready);
        frames
    }

    /// Ends the stream: every packet that is still in the window leaves it
    /// and waits to be taken, in order; the gaps are skipped.
    pub fn flush(&mut self)
        requires
            old(self)@.wf(),
        ensures
            final(self)@.wf(),
            final(self)@ == old(self)@.flush(),
    {
        proof {
            lemma_flush_valid(self@);
        }
        self.drain(true);
    }
}

} // verus!
