//! The hand-off between the decoder and the playback device: a bounded queue
//! of decoded samples. Neither side ever waits. When the queue is full the
//! newest samples are dropped; when it runs dry the device gets silence.

use vstd::prelude::*;
use std::collections::VecDeque;
use crate::error::Error;

verus! {

/// The samples that one call of the decoder produced. The decoder writes
/// into `buffer` and reports how many samples it wrote, or fails; a count
/// beyond the buffer means the whole buffer. A failed frame has no samples:
/// it is skipped, and the stream goes on with the next frame.
pub open spec fn decoded_samples(outcome: Result<usize, Error>, buffer: Seq<i16>) -> Seq<i16> {
    match outcome {
        Ok(count) => if count <= buffer.len() {
            buffer.take(count as int)
        } else {
            buffer
        },
        Err(_) => Seq::empty(),
    }
}

/// What the playback device is given when it asks for `count` samples of a
/// queue that holds `waiting`: the waiting samples as far as they reach, and
/// silence after them.
pub open spec fn rendered(waiting: Seq<i16>, count: nat) -> Seq<i16> {
    Seq::new(
        count,
        |i: int|
            if i < waiting.len() {
                waiting[i]
            } else {
                0i16
            },
    )
}

/// A bounded queue of decoded samples.
pub struct SampleQueue {
    capacity: usize,
    samples: VecDeque<i16>,
}

impl SampleQueue {
    /// The most samples that the queue holds.
    pub closed spec fn spec_capacity(&self) -> nat {
        self.capacity as nat
    }

    /// The samples that wait for the device, oldest first.
    pub closed spec fn waiting(&self) -> Seq<i16> {
        self.samples@
    }

    /// Validity: the queue holds no more than its capacity.
    pub open spec fn wf(&self) -> bool {
        self.waiting().len() <= self.spec_capacity()
    }

    /// An empty queue.
    pub fn new(capacity: usize) -> (queue: SampleQueue)
        ensures
            queue.wf(),
            queue.spec_capacity() == capacity,
            queue.waiting() == Seq::<i16>::empty(),
    {
        SampleQueue { capacity, samples: VecDeque::new() }
    }

    /// The number of samples that wait for the device.
    pub fn len(&self) -> (len: usize)
        ensures
            len == self.waiting().len(),
    {
        self.samples.len()
    }

    /// Queues the samples of one decoded frame, in order, as far as there is
    /// room, and returns how many were queued. The samples that find no room
    /// are dropped: the device is behind, and the newest samples give way.
    pub fn push_decoded(&mut self, outcome: Result<usize, Error>, buffer: &[i16]) -> (queued: usize)
        requires
            old(self).wf(),
        ensures
            final(self).wf(),
            final(self).spec_capacity() == old(self).spec_capacity(),
            queued == vstd::math::min(
                decoded_samples(outcome, buffer@).len() as int,
                old(self).spec_capacity() - old(self).waiting().len(),
            ),
            final(self).waiting() == old(self).waiting() + decoded_samples(outcome, buffer@).take(
                queued as int,
            ),
    {
        let count = match outcome {
            Ok(count) => if count <= buffer.len() {
                count
            } else {
                buffer.len()
            },
            Err(_) => 0,
        };
        let ghost decoded = decoded_samples(outcome, buffer@);
        assert(decoded =~= buffer@.take(count as int));
        let mut queued: usize = 0;
        assert(self.waiting() =~= old(self).waiting() + decoded.take(0));
        while queued < count && self.samples.len() < self.capacity
            invariant
                queued <= count <= buffer@.len(),
                self.wf(),
                self.spec_capacity() == old(self).spec_capacity(),
                decoded == buffer@.take(count as int),
                self.waiting() == old(self).waiting() + decoded.take(queued as int),
            decreases count - queued,
        {
            self.samples.push_back(buffer[queued]);
            assert(self.waiting() =~= old(self).waiting() + decoded.take(queued + 1));
            queued += 1;
        }
        queued
    }

    /// Hands the device its next `count` samples: the oldest waiting ones,
    /// which leave the queue, followed by silence if fewer than `count`
    /// wait. The flag tells whether silence was needed, which means that the
    /// stream fell behind the device.
    pub fn render(&mut self, count: usize) -> (out: (Vec<i16>, bool))
        requires
            old(self).wf(),
        ensures
            final(self).wf(),
            final(self).spec_capacity() == old(self).spec_capacity(),
            out.0@ == rendered(old(self).waiting(), count as nat),
            out.1 == (count > old(self).waiting().len()),
            final(self).waiting() == old(self).waiting().skip(
                vstd::math::min(count as int, old(self).waiting().len() as int),
            ),
    {
        let mut out: Vec<i16> = Vec::new();
        let mut fell_behind = false;
        let mut i: usize = 0;
        assert(self.waiting() =~= old(self).waiting().skip(0));
        while i < count
            invariant
                i <= count,
                self.spec_capacity() == old(self).spec_capacity(),
                out@ == rendered(old(self).waiting(), i as nat),
                fell_behind == (i > old(self).waiting().len()),
                self.waiting() == old(self).waiting().skip(
                    vstd::math::min(i as int, old(self).waiting().len() as int),
                ),
            decreases count - i,
        {
            let sample = match self.samples.pop_front() {
                Some(sample) => sample,
                None => {
                    fell_behind = true;
                    0
                },
            };
            out.push(sample);
            assert(out@ =~= rendered(old(self).waiting(), (i + 1) as nat));
            assert(self.waiting() =~= old(self).waiting().skip(
                vstd::math::min(i + 1, old(self).waiting().len() as int),
            ));
            i += 1;
        }
        (out, fell_behind)
    }
}

} // verus!
