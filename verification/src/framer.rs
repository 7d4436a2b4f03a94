//! The frame assembler of the send path: raw samples arrive one at a time
//! from the capture device and leave as frames of a fixed number of samples,
//! ready for the encoder. Samples that do not fill a frame stay behind; a
//! partial frame is never handed out.

use vstd::prelude::*;
use crate::error::Error;

verus! {

/// Collects raw samples into frames of `frame_size` samples.
pub struct OpusFramer {
    /// The samples of the frame that is being filled.
    raw_samples: Vec<i16>,
    /// The number of samples in a frame.
    frame_size: usize,
}

/// The samples of each frame of a list.
pub open spec fn frame_views(frames: Seq<Vec<i16>>) -> Seq<Seq<i16>> {
    frames.map_values(|f: Vec<i16>| f@)
}

impl OpusFramer {
    /// The number of samples in a frame.
    pub closed spec fn spec_frame_size(&self) -> nat {
        self.frame_size as nat
    }

    /// The samples that wait for their frame to fill.
    pub closed spec fn pending(&self) -> Seq<i16> {
        self.raw_samples@
    }

    /// Validity: fewer samples wait than make a frame. With a frame size of
    /// zero no frame ever fills and nothing waits.
    pub open spec fn wf(&self) -> bool {
        if self.spec_frame_size() == 0 {
            self.pending().len() == 0
        } else {
            self.pending().len() < self.spec_frame_size()
        }
    }

    /// An assembler for frames of `frame_size` samples, with nothing pending.
    pub fn init(frame_size: usize) -> (framer: OpusFramer)
        ensures
            framer.wf(),
            framer.spec_frame_size() == frame_size,
            framer.pending() == Seq::<i16>::empty(),
    {
        OpusFramer { raw_samples: Vec::new(), frame_size }
    }

    /// The number of samples in a frame.
    pub fn frame_size(&self) -> (size: usize)
        ensures
            size == self.spec_frame_size(),
    {
        self.frame_size
    }

    /// The number of samples that wait for their frame to fill.
    pub fn pending_len(&self) -> (len: usize)
        ensures
            len == self.pending().len(),
    {
        self.raw_samples.len()
    }

    /// Takes one sample. When it completes a frame, the frame is returned,
    /// made of the pending samples and this one, and nothing is pending
    /// afterwards. Otherwise the sample joins the pending ones. A frame that
    /// was handed out is not kept: if the encoder fails on it, it is lost.
    pub fn frame(&mut self, sample: i16) -> (full: Option<Vec<i16>>)
        requires
            old(self).wf(),
        ensures
            final(self).wf(),
            final(self).spec_frame_size() == old(self).spec_frame_size(),
            match full {
                Some(samples) => {
                    &&& old(self).pending().len() + 1 == old(self).spec_frame_size()
                    &&& samples@ == old(self).pending().push(sample)
                    &&& final(self).pending() == Seq::<i16>::empty()
                },
                None => {
                    &&& old(self).pending().len() + 1 != old(self).spec_frame_size()
                    &&& final(self).pending() == if old(self).spec_frame_size() == 0 {
                        Seq::<i16>::empty()
                    } else {
                        old(self).pending().push(sample)
                    }
                },
            },
    {
        if self.frame_size == 0 {
            return None;
        }
        self.raw_samples.push(sample);
        if self.raw_samples.len() == self.frame_size {
            let mut full: Vec<i16> = Vec::new();
            core::mem::swap(&mut full, &mut self.raw_samples);
            Some(full)
        } else {
            None
        }
    }

    /// Takes the samples of one capture callback, in order, and returns the
    /// frames that they complete. Together with what stays pending the
    /// frames hold exactly the samples that were pending before followed by
    /// `data`, and each frame has `frame_size` samples.
    pub fn frames(&mut self, data: &[i16]) -> (full: Vec<Vec<i16>>)
        requires
            old(self).wf(),
        ensures
            final(self).wf(),
            final(self).spec_frame_size() == old(self).spec_frame_size(),
            forall|k: int| 0 <= k < full.len() ==> (#[trigger] full@[k]).len() == old(self).spec_frame_size(),
            old(self).spec_frame_size() > 0 ==> frame_views(full@).flatten() + final(self).pending()
                == old(self).pending() + data@,
            old(self).spec_frame_size() > 0 ==> full.len() * old(self).spec_frame_size()
                + final(self).pending().len() == old(self).pending().len() + data@.len(),
            old(self).spec_frame_size() == 0 ==> full@.len() == 0,
    {
        let mut full: Vec<Vec<i16>> = Vec::new();
        let mut i: usize = 0;
        proof {
            assert(frame_views(full@) =~= Seq::<Seq<i16>>::empty());
            assert(frame_views(full@).flatten() =~= Seq::<i16>::empty());
            assert(data@.take(0) =~= Seq::<i16>::empty());
            assert(self.pending() + data@.take(0) =~= self.pending());
            assert(0 * (self.spec_frame_size() as int) == 0) by (nonlinear_arith);
        }
        while i < data.len()
            invariant
                i <= data.len(),
                self.wf(),
                self.spec_frame_size() == old(self).spec_frame_size(),
                forall|k: int|
                    0 <= k < full.len() ==> (#[trigger] full@[k]).len() == old(self).spec_frame_size(),
                old(self).spec_frame_size() > 0 ==> frame_views(full@).flatten() + self.pending()
                    == old(self).pending() + data@.take(i as int),
                old(self).spec_frame_size() > 0 ==> full.len() * old(self).spec_frame_size()
                    + self.pending().len() == old(self).pending().len() + i,
                old(self).spec_frame_size() == 0 ==> full@.len() == 0,
            decreases data.len() - i,
        {
            let ghost done = frame_views(full@);
            let ghost waiting = self.pending();
            let ghost count = full.len() as int;
            let ghost size = old(self).spec_frame_size() as int;
            let sample = data[i];
            proof {
                assert(data@.take(i + 1) =~= data@.take(i as int).push(sample));
            }
            match self.frame(sample) {
                Some(samples) => {
                    full.push(samples);
                    proof {
                        assert((count + 1) * size == count * size + size) by (nonlinear_arith);
                        assert(frame_views(full@) =~= done.push(samples@));
                        done.lemma_flatten_push(samples@);
                        assert(done.flatten() + samples@ + self.pending() =~= done.flatten()
                            + waiting.push(sample));
                        assert(done.flatten() + waiting.push(sample) =~= (done.flatten()
                            + waiting).push(sample));
                    }
                },
                None => {
                    proof {
                        if old(self).spec_frame_size() > 0 {
                            assert(done.flatten() + waiting.push(sample) =~= (done.flatten()
                                + waiting).push(sample));
                        }
                    }
                },
            }
            i += 1;
        }
        proof {
            assert(data@.take(data.len() as int) =~= data@);
        }
        full
    }
}

/// What the encoder made of one frame. The encoder writes into `buffer` and
/// reports the number of bytes it wrote, or fails. The compressed frame is
/// that many bytes from the start of the buffer. A failed frame, or a count
/// that the buffer cannot hold, gives nothing: the frame is dropped and the
/// stream goes on with the next one.
pub fn encoded_frame(outcome: Result<usize, Error>, buffer: &[u8]) -> (frame: Option<Vec<u8>>)
    ensures
        match frame {
            Some(bytes) => outcome matches Ok(size) && size <= buffer@.len() && bytes@
                == buffer@.take(size as int),
            None => match outcome {
                Ok(size) => size > buffer@.len(),
                Err(_) => true,
            },
        },
{
    match outcome {
        Ok(size) => {
            if size > buffer.len() {
                return None;
            }
            let mut bytes: Vec<u8> = Vec::new();
            let mut i: usize = 0;
            while i < size
                invariant
                    i <= size <= buffer@.len(),
                    bytes@ == buffer@.take(i as int),
                decreases size - i,
            {
                bytes.push(buffer[i]);
                assert(buffer@.take(i + 1) =~= buffer@.take(i as int).push(buffer@[i as int]));
                i += 1;
            }
            Some(bytes)
        },
        Err(_) => None,
    }
}

} // verus!
