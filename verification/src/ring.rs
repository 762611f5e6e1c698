//! The ring accumulator: a circular buffer of twice the window size that
//! receives samples one by one and hands out the most recent window in the
//! order in which the samples came.

use vstd::prelude::*;

verus! {

/// `index` brought back into `0..len`, for an index below `2 * len`.
pub open spec fn wrapped(index: int, len: int) -> int {
    if index < len {
        index
    } else {
        index - len
    }
}

/// A history after one more sample: the oldest sample leaves, `sample` enters
/// as the newest.
pub open spec fn shifted<T>(history: Seq<T>, sample: T) -> Seq<T> {
    history.drop_first().push(sample)
}

/// A history after `samples` were pushed, the first of them first.
pub open spec fn shifted_by<T>(history: Seq<T>, samples: Seq<T>) -> Seq<T>
    decreases samples.len(),
{
    if samples.len() == 0 {
        history
    } else {
        shifted(shifted_by(history, samples.drop_last()), samples.last())
    }
}

/// The number of samples since the last analysis after one more sample. The
/// count goes on past the hop and is held only at the machine's limit.
pub open spec fn counted(pending: int) -> int {
    if pending < usize::MAX {
        pending + 1
    } else {
        usize::MAX as int
    }
}

/// The number of samples since the last analysis after `n` more samples,
/// held only at the machine's limit.
pub open spec fn counted_by(pending: int, n: int) -> int {
    if pending + n < usize::MAX {
        pending + n
    } else {
        usize::MAX as int
    }
}

/// A fixed-capacity circular buffer of samples with a counter that says when
/// the next analysis is due.
pub struct RingAccumulator<T> {
    buffer: Vec<T>,
    cursor: usize,
    window_size: usize,
    hop: usize,
    pending: usize,
}

impl<T: Copy> RingAccumulator<T> {
    /// The invariant: the buffer holds twice the window size, the cursor
    /// points into it and the hop is between one and the window size.
    pub closed spec fn wf(&self) -> bool {
        &&& 0 < self.hop <= self.window_size
        &&& self.buffer@.len() == 2 * self.window_size
        &&& self.cursor < self.buffer@.len()
    }

    /// The number of samples in one analysis window.
    pub closed spec fn window_len(&self) -> nat {
        self.window_size as nat
    }

    /// The number of new samples between two analyses.
    pub closed spec fn hop_len(&self) -> nat {
        self.hop as nat
    }

    /// The number of samples pushed since the last analysis.
    pub closed spec fn pending_len(&self) -> nat {
        self.pending as nat
    }

    /// The last `2 * window_len()` samples, the oldest first. Before that many
    /// were pushed, the fill value stands for what is missing.
    pub closed spec fn history(&self) -> Seq<T> {
        Seq::new(
            self.buffer@.len(),
            |k: int| self.buffer@[wrapped(self.cursor + k, self.buffer@.len() as int)],
        )
    }

    /// The last `window_len()` samples, the oldest first.
    pub open spec fn window(&self) -> Seq<T> {
        self.history().subrange(self.window_len() as int, 2 * self.window_len() as int)
    }

    /// Whether `hop_len()` samples have come since the last analysis.
    pub open spec fn due(&self) -> bool {
        self.pending_len() >= self.hop_len()
    }

    /// A well-formed ring holds a history of two windows, its hop lies
    /// between one sample and a window, and its count fits the machine.
    pub proof fn lemma_wf_bounds(&self)
        requires
            self.wf(),
        ensures
            self.history().len() == 2 * self.window_len(),
            self.window().len() == self.window_len(),
            0 < self.hop_len() <= self.window_len(),
            self.pending_len() <= usize::MAX,
    {
    }

    /// A ring for windows of `window_size` samples that asks for an analysis
    /// every `hop` samples, with `fill` standing for the samples that have
    /// not come yet.
    ///
    /// `None` when the hop is zero or longer than the window, or when twice
    /// the window size does not fit the machine.
    pub fn new(window_size: usize, hop: usize, fill: T) -> (ring: Option<Self>)
        ensures
            ring.is_some() <==> 0 < hop <= window_size && 2 * window_size <= usize::MAX,
            ring matches Some(r) ==> {
                &&& r.wf()
                &&& r.window_len() == window_size
                &&& r.hop_len() == hop
                &&& r.pending_len() == 0
                &&& r.history() == Seq::new(2 * window_size as nat, |k: int| fill)
            },
    {
        if hop == 0 || hop > window_size || window_size > usize::MAX / 2 {
            return None;
        }
        let capacity: usize = 2 * window_size;
        let mut buffer: Vec<T> = Vec::with_capacity(capacity);
        let mut i: usize = 0;
        while i < capacity
            invariant
                i <= capacity,
                buffer@.len() == i,
                forall|k: int| 0 <= k < i ==> buffer@[k] == fill,
            decreases capacity - i,
        {
            buffer.push(fill);
            i += 1;
        }
        let ring = RingAccumulator { buffer, cursor: 0, window_size, hop, pending: 0 };
        assert(ring.history() =~= Seq::new(2 * window_size as nat, |k: int| fill));
        Some(ring)
    }

    /// The number of samples in one analysis window.
    pub fn window_size(&self) -> (n: usize)
        requires
            self.wf(),
        ensures
            n == self.window_len(),
            n > 0,
            2 * n <= usize::MAX,
    {
        let capacity: usize = self.buffer.len();
        assert(capacity == 2 * self.window_size);
        self.window_size
    }

    /// The number of new samples between two analyses.
    pub fn hop_size(&self) -> (n: usize)
        requires
            self.wf(),
        ensures
            n == self.hop_len(),
            0 < n <= self.window_len(),
    {
        self.hop
    }

    /// Takes one sample in: constant time, no allocation.
    pub fn push(&mut self, sample: T)
        requires
            old(self).wf(),
        ensures
            final(self).wf(),
            final(self).window_len() == old(self).window_len(),
            final(self).hop_len() == old(self).hop_len(),
            final(self).history() == shifted(old(self).history(), sample),
            final(self).pending_len() == counted(old(self).pending_len() as int),
    {
        let capacity: usize = self.buffer.len();
        self.buffer.set(self.cursor, sample);
        self.cursor = if self.cursor + 1 < capacity {
            self.cursor + 1
        } else {
            0
        };
        if self.pending < usize::MAX {
            self.pending = self.pending + 1;
        }
        assert(self.history() =~= shifted(old(self).history(), sample));
    }

    /// Takes a block of samples in, the first of them first.
    pub fn extend(&mut self, samples: &[T])
        requires
            old(self).wf(),
        ensures
            final(self).wf(),
            final(self).window_len() == old(self).window_len(),
            final(self).hop_len() == old(self).hop_len(),
            final(self).history() == shifted_by(old(self).history(), samples@),
            final(self).pending_len() == counted_by(
                old(self).pending_len() as int,
                samples@.len() as int,
            ),
    {
        let mut i: usize = 0;
        while i < samples.len()
            invariant
                i <= samples@.len(),
                self.wf(),
                self.window_len() == old(self).window_len(),
                self.hop_len() == old(self).hop_len(),
                self.history() == shifted_by(old(self).history(), samples@.take(i as int)),
                self.pending_len() == counted_by(old(self).pending_len() as int, i as int),
            decreases samples@.len() - i,
        {
            proof {
                let next = samples@.take(i + 1);
                assert(next.drop_last() =~= samples@.take(i as int));
                assert(next.last() == samples@[i as int]);
            }
            self.push(samples[i]);
            i += 1;
        }
        assert(samples@.take(i as int) =~= samples@);
    }

    /// The number of samples pushed since the last analysis.
    pub fn samples_since_analysis(&self) -> (n: usize)
        ensures
            n == self.pending_len(),
    {
        self.pending
    }

    /// Whether `hop_len()` samples have come since the last analysis.
    pub fn analysis_due(&self) -> (due: bool)
        requires
            self.wf(),
        ensures
            due == self.due(),
    {
        self.pending >= self.hop
    }

    /// Starts counting towards the next analysis anew. The samples stay.
    pub fn restart_hop(&mut self)
        requires
            old(self).wf(),
        ensures
            final(self).wf(),
            final(self).window_len() == old(self).window_len(),
            final(self).hop_len() == old(self).hop_len(),
            final(self).history() == old(self).history(),
            final(self).pending_len() == 0,
    {
        self.pending = 0;
    }

    /// Writes the most recent window into `out`, the oldest sample first,
    /// whatever the cursor's place in the ring. `out` is emptied first and
    /// keeps its allocation.
    pub fn snapshot(&self, out: &mut Vec<T>)
        requires
            self.wf(),
        ensures
            final(out)@ == self.window(),
            final(out)@.len() == self.window_len(),
    {
        let capacity: usize = self.buffer.len();
        let start: usize = if self.cursor >= self.window_size {
            self.cursor - self.window_size
        } else {
            capacity - (self.window_size - self.cursor)
        };
        out.clear();
        let mut i: usize = 0;
        while i < self.window_size
            invariant
                self.wf(),
                capacity == self.buffer@.len(),
                start < capacity,
                start == wrapped(self.cursor + self.window_size, capacity as int),
                i <= self.window_size,
                out@.len() == i,
                forall|k: int| 0 <= k < i ==> out@[k] == self.window()[k],
            decreases self.window_size - i,
        {
            let index: usize = if i < capacity - start {
                start + i
            } else {
                i - (capacity - start)
            };
            out.push(self.buffer[index]);
            i += 1;
        }
        assert(out@ =~= self.window());
    }
}

/// Pushing exactly one window of samples and then taking a snapshot gives
/// those samples back in the order in which they were pushed, whatever the
/// ring held before.
pub proof fn lemma_window_round_trip<T>(history: Seq<T>, samples: Seq<T>)
    requires
        samples.len() > 0,
        history.len() == 2 * samples.len(),
    ensures
        shifted_by(history, samples).len() == history.len(),
        shifted_by(history, samples).subrange(samples.len() as int, 2 * samples.len() as int)
            == samples,
{
    lemma_shifted_by_tail(history, samples);
    let after = shifted_by(history, samples);
    let n = samples.len() as int;
    assert forall|k: int| 0 <= k < n implies after.subrange(n, 2 * n)[k] == samples[k] by {
        assert(after[history.len() - samples.len() + k] == samples[k]);
    }
    assert(after.subrange(n, 2 * n) =~= samples);
}

/// After pushing no more samples than a history holds, the history has kept
/// its length and ends with those samples.
pub proof fn lemma_shifted_by_tail<T>(history: Seq<T>, samples: Seq<T>)
    requires
        samples.len() <= history.len(),
    ensures
        shifted_by(history, samples).len() == history.len(),
        forall|k: int|
            0 <= k < samples.len() ==> #[trigger] shifted_by(history, samples)[history.len()
                - samples.len() + k] == samples[k],
        forall|k: int|
            0 <= k < history.len() - samples.len() ==> #[trigger] shifted_by(
                history,
                samples,
            )[k] == history[k + samples.len()],
    decreases samples.len(),
{
    if samples.len() > 0 {
        lemma_shifted_by_tail(history, samples.drop_last());
        let before = shifted_by(history, samples.drop_last());
        let after = shifted_by(history, samples);
        assert(after == shifted(before, samples.last()));
        assert forall|k: int| 0 <= k < samples.len() implies #[trigger] after[history.len()
            - samples.len() + k] == samples[k] by {
            if k < samples.len() - 1 {
                assert(before[history.len() - samples.drop_last().len() + k]
                    == samples.drop_last()[k]);
            }
        }
        assert forall|k: int| 0 <= k < history.len() - samples.len() implies #[trigger] after[k]
            == history[k + samples.len()] by {
            assert(before[k + 1] == history[k + 1 + samples.drop_last().len()]);
        }
    }
}

} // verus!
