use vstd::prelude::*;

verus! {

/// Drift monitor: a bounded history of drift scores (f32 bits) and a threshold (f32 bits).
pub struct DriftMonitor {
    history: Vec<u32>,
    max_history: usize,
    drift_threshold_bits: u32,
}

/// The history after one more score: the oldest goes when the history is full.
pub open spec fn recorded(h: Seq<u32>, max: usize, score: u32) -> Seq<u32> {
    if h.len() == max {
        h.drop_first().push(score)
    } else {
        h.push(score)
    }
}

impl DriftMonitor {
    pub closed spec fn history(&self) -> Seq<u32> {
        self.history@
    }

    pub closed spec fn max_history(&self) -> usize {
        self.max_history
    }

    pub closed spec fn threshold_bits(&self) -> u32 {
        self.drift_threshold_bits
    }

    /// The history never exceeds its positive bound.
    pub closed spec fn wf(&self) -> bool {
        0 < self.max_history && self.history@.len() <= self.max_history
    }

    /// Empty history of at most 64 scores; threshold 0.05.
    pub fn new() -> (d: Self)
        ensures
            d.wf(),
            d.history() == Seq::<u32>::empty(),
            d.max_history() == 64,
            d.threshold_bits() == 0x3d4c_cccdu32,
    {
        DriftMonitor {
            history: Vec::with_capacity(64),
            max_history: 64,
            drift_threshold_bits: 0x3d4c_cccdu32,
        }
    }

    /// Appends a score, dropping the oldest when the history is full.
    pub fn record_drift(&mut self, score_bits: u32)
        requires
            old(self).wf(),
        ensures
            final(self).wf(),
            final(self).history() == recorded(old(self).history(), old(self).max_history(), score_bits),
            final(self).max_history() == old(self).max_history(),
            final(self).threshold_bits() == old(self).threshold_bits(),
    {
        if self.history.len() == self.max_history {
            self.history.remove(0);
        }
        self.history.push(score_bits);
        assert(self.history@ =~= recorded(old(self).history@, self.max_history, score_bits));
    }

    /// The scores the moving average is taken over: the last (at most) 16, oldest first.
    pub fn recent_window(&self) -> (w: Vec<u32>)
        ensures
            w@ == self.history().skip(self.history().len() - if self.history().len() <= 16 {
                self.history().len() as int
            } else {
                16
            }),
    {
        let len = self.history.len();
        let window = if len <= 16 {
            len
        } else {
            16
        };
        let start = len - window;
        let mut w: Vec<u32> = Vec::new();
        let mut i: usize = start;
        while i < len
            invariant
                start <= i <= len,
                len == self.history@.len(),
                w@ == self.history@.subrange(start as int, i as int),
            decreases len - i,
        {
            w.push(self.history[i]);
            i = i + 1;
            assert(w@ =~= self.history@.subrange(start as int, i as int));
        }
        assert(self.history@.skip(start as int) =~= self.history@.subrange(start as int, len as int));
        w
    }

    /// The drift threshold (f32 bits).
    pub fn drift_threshold_bits(&self) -> (b: u32)
        ensures
            b == self.threshold_bits(),
    {
        self.drift_threshold_bits
    }
}

/// The history is bounded and keeps the newest scores in order: after recording, the
/// last score is the new one and the length is at most the bound.
pub proof fn law_drift_history_bounded(h: Seq<u32>, max: usize, score: u32)
    requires
        0 < max,
        h.len() <= max,
    ensures
        recorded(h, max, score).len() <= max,
        recorded(h, max, score).last() == score,
        h.len() < max ==> recorded(h, max, score).drop_last() == h,
        h.len() == max ==> recorded(h, max, score).drop_last() == h.drop_first(),
{
    assert(h.push(score).drop_last() =~= h);
    assert(h.drop_first().push(score).drop_last() =~= h.drop_first());
}

} // verus!
