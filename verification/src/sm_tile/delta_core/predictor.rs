use vstd::prelude::*;
use vstd::wrapping::usize_specs;
use super::flags::PerfFlags;

verus! {

/// First multiplier of the range hash.
pub open spec fn hash_mul_a() -> usize {
    0x9E3779B97F4A7C15u64 as usize
}

/// Second multiplier of the range hash.
pub open spec fn hash_mul_b() -> usize {
    0x85EBCA6Bu32 as usize
}

/// The counter slot that the range `(start, len)` hashes to.
pub open spec fn hot_slot(start: usize, len: usize, mask: usize) -> usize {
    usize_specs::wrapping_mul(usize_specs::wrapping_mul(start, hash_mul_a()) ^ len, hash_mul_b())
        & mask
}

/// The second counter slot of the range, used for the non-zero prediction.
pub open spec fn nonzero_slot(start: usize, len: usize, mask: usize) -> usize {
    (hot_slot(start, len, mask) ^ 0x5555usize) & mask
}

/// A two-bit saturating counter moved one step up or down.
pub open spec fn bump(c: u8, up: bool) -> u8 {
    if up {
        if c < 3 {
            (c + 1) as u8
        } else {
            c
        }
    } else {
        if c > 0 {
            (c - 1) as u8
        } else {
            c
        }
    }
}

/// The table after bumping slot `i`.
pub open spec fn bump_at(t: Seq<u8>, i: int, up: bool) -> Seq<u8> {
    t.update(i, bump(t[i], up))
}

proof fn lemma_and_mask_le(x: usize, m: usize)
    ensures
        x & m <= m,
{
    assert(x & m <= m) by (bit_vector);
}

/// Two-bit saturating counters, indexed by a hash of a sample range, that predict whether
/// the range is hot and whether a delta applied to it is non-zero.
#[derive(Debug)]
pub struct StatePredictor {
    table: Vec<u8>,
    mask: usize,
}

impl StatePredictor {
    /// The table has `mask + 1` counters, each in `0..=3`.
    pub closed spec fn wf(&self) -> bool {
        &&& self.table@.len() == self.mask + 1
        &&& forall|i: int| 0 <= i < self.table@.len() ==> #[trigger] self.table@[i] <= 3
    }

    /// The counters.
    pub closed spec fn counters(&self) -> Seq<u8> {
        self.table@
    }

    /// The index mask (table length minus one).
    pub closed spec fn mask(&self) -> usize {
        self.mask
    }

    /// A table of `2^size_pow2` counters, all starting at one ("weakly not hot").
    pub fn new(size_pow2: usize) -> (p: Self)
        requires
            size_pow2 < usize::BITS,
        ensures
            p.wf(),
            p.counters().len() == p.mask() + 1,
            p.mask() + 1 == vstd::arithmetic::power2::pow2(size_pow2 as nat),
            size_pow2 >= 1 ==> p.mask() % 2 == 1,
            forall|i: int| 0 <= i < p.counters().len() ==> #[trigger] p.counters()[i] == 1,
    {
        let size = 1usize << size_pow2;
        proof {
            vstd::bits::lemma_usize_pow2_no_overflow(size_pow2 as nat);
            vstd::bits::lemma_usize_shl_is_mul(1, size_pow2);
            if size_pow2 >= 1 {
                vstd::arithmetic::power2::lemma_pow2_unfold(size_pow2 as nat);
            }
        }
        let mut table: Vec<u8> = Vec::with_capacity(size);
        let mut i: usize = 0;
        while i < size
            invariant
                i <= size,
                table@.len() == i,
                forall|k: int| 0 <= k < i ==> #[trigger] table@[k] == 1,
            decreases size - i,
        {
            table.push(1);
            i = i + 1;
        }
        StatePredictor { table, mask: size - 1 }
    }

    fn idx(&self, start: usize, len: usize) -> (i: usize)
        requires
            self.wf(),
        ensures
            i == hot_slot(start, len, self.mask()),
            i < self.counters().len(),
    {
        let a = start.wrapping_mul(0x9E3779B97F4A7C15u64 as usize);
        let b = len;
        let i = (a ^ b).wrapping_mul(0x85EBCA6Bu32 as usize) & self.mask;
        proof {
            lemma_and_mask_le((a ^ b).wrapping_mul(0x85EBCA6Bu32 as usize), self.mask);
        }
        i
    }

    fn second_idx(&self, first: usize) -> (i: usize)
        requires
            self.wf(),
        ensures
            i == (first ^ 0x5555usize) & self.mask(),
            i < self.counters().len(),
    {
        proof {
            lemma_and_mask_le(first ^ 0x5555usize, self.mask);
        }
        (first ^ 0x5555) & self.mask
    }

    /// Whether the range is predicted hot: its counter is at least two.
    pub fn predict_hot(&self, start: usize, len: usize) -> (b: bool)
        requires
            self.wf(),
        ensures
            b == (self.counters()[hot_slot(start, len, self.mask()) as int] >= 2),
    {
        let i = self.idx(start, len);
        self.table[i] >= 2
    }

    /// Whether a delta over the range is predicted non-zero: its second counter is at
    /// least two.
    pub fn predict_nonzero(&self, start: usize, len: usize) -> (b: bool)
        requires
            self.wf(),
        ensures
            b == (self.counters()[nonzero_slot(start, len, self.mask()) as int] >= 2),
    {
        let i = self.second_idx(self.idx(start, len));
        self.table[i] >= 2
    }

    /// Trains both counters of the range: the hot counter on `was_hot`, then the non-zero
    /// counter on `was_nonzero`.
    pub fn update(&mut self, start: usize, len: usize, was_hot: bool, was_nonzero: bool)
        requires
            old(self).wf(),
        ensures
            final(self).wf(),
            final(self).mask() == old(self).mask(),
            final(self).counters() == bump_at(
                bump_at(old(self).counters(), hot_slot(start, len, old(self).mask()) as int, was_hot),
                nonzero_slot(start, len, old(self).mask()) as int,
                was_nonzero,
            ),
    {
        let i1 = self.idx(start, len);
        let i2 = self.second_idx(i1);
        let c1 = self.table[i1];
        let n1 = if was_hot {
            if c1 < 3 { c1 + 1 } else { c1 }
        } else {
            if c1 > 0 { c1 - 1 } else { c1 }
        };
        self.table.set(i1, n1);
        let c2 = self.table[i2];
        let n2 = if was_nonzero {
            if c2 < 3 { c2 + 1 } else { c2 }
        } else {
            if c2 > 0 { c2 - 1 } else { c2 }
        };
        self.table.set(i2, n2);
    }
}

/// A range trained hot and non-zero twice in a row is predicted both hot and non-zero,
/// whatever the counters held before.
pub proof fn law_predictor_learns_positive(t: Seq<u8>, i1: int, i2: int)
    requires
        0 <= i1 < t.len(),
        0 <= i2 < t.len(),
        forall|k: int| 0 <= k < t.len() ==> #[trigger] t[k] <= 3,
    ensures
        ({
            let once = bump_at(bump_at(t, i1, true), i2, true);
            let twice = bump_at(bump_at(once, i1, true), i2, true);
            twice[i1] >= 2 && twice[i2] >= 2
        }),
{
}

/// A range trained cold and zero twice in a row is predicted neither hot nor non-zero.
pub proof fn law_predictor_learns_negative(t: Seq<u8>, i1: int, i2: int)
    requires
        0 <= i1 < t.len(),
        0 <= i2 < t.len(),
        forall|k: int| 0 <= k < t.len() ==> #[trigger] t[k] <= 3,
    ensures
        ({
            let once = bump_at(bump_at(t, i1, false), i2, false);
            let twice = bump_at(bump_at(once, i1, false), i2, false);
            twice[i1] < 2 && twice[i2] < 2
        }),
{
}

/// Every counter of a well-formed predictor is a two-bit value, and there is one per
/// slot of the mask.
pub proof fn law_predictor_counters_two_bit(p: StatePredictor)
    requires
        p.wf(),
    ensures
        p.counters().len() == p.mask() + 1,
        forall|i: int| 0 <= i < p.counters().len() ==> #[trigger] p.counters()[i] <= 3,
{
}

/// A range's two slots lie in the table, and differ when the table has more than one
/// counter (an odd mask).
pub proof fn lemma_slots_in_table(start: usize, len: usize, mask: usize)
    ensures
        hot_slot(start, len, mask) <= mask,
        nonzero_slot(start, len, mask) <= mask,
        mask % 2 == 1 ==> hot_slot(start, len, mask) != nonzero_slot(start, len, mask),
{
    let y = usize_specs::wrapping_mul(usize_specs::wrapping_mul(start, hash_mul_a()) ^ len, hash_mul_b());
    let h = hot_slot(start, len, mask);
    assert(h == y & mask);
    lemma_and_mask_le(y, mask);
    lemma_and_mask_le(h ^ 0x5555usize, mask);
    if mask % 2 == 1 {
        assert(h != (h ^ 0x5555usize) & mask) by (bit_vector)
            requires
                h == y & mask,
                mask % 2 == 1,
        ;
    }
}

/// Two updates of a range with the same hot outcome make the range's hot prediction
/// follow that outcome, whatever the non-zero outcomes, when the table has more than one
/// counter.
pub proof fn law_predictor_learns_hot(
    p: StatePredictor,
    start: usize,
    len: usize,
    hot: bool,
    nz1: bool,
    nz2: bool,
)
    requires
        p.wf(),
        p.mask() % 2 == 1,
    ensures
        ({
            let i1 = hot_slot(start, len, p.mask()) as int;
            let i2 = nonzero_slot(start, len, p.mask()) as int;
            let once = bump_at(bump_at(p.counters(), i1, hot), i2, nz1);
            let twice = bump_at(bump_at(once, i1, hot), i2, nz2);
            (twice[i1] >= 2) == hot
        }),
{
    lemma_slots_in_table(start, len, p.mask());
    let i1 = hot_slot(start, len, p.mask()) as int;
    assert(p.counters()[i1] <= 3);
}

/// Two updates of a range with the same non-zero outcome make the range's non-zero
/// prediction follow that outcome, whatever the hot outcomes, when the table has more
/// than one counter.
pub proof fn law_predictor_learns_nonzero(
    p: StatePredictor,
    start: usize,
    len: usize,
    nz: bool,
    hot1: bool,
    hot2: bool,
)
    requires
        p.wf(),
        p.mask() % 2 == 1,
    ensures
        ({
            let i1 = hot_slot(start, len, p.mask()) as int;
            let i2 = nonzero_slot(start, len, p.mask()) as int;
            let once = bump_at(bump_at(p.counters(), i1, hot1), i2, nz);
            let twice = bump_at(bump_at(once, i1, hot2), i2, nz);
            (twice[i2] >= 2) == nz
        }),
{
    lemma_slots_in_table(start, len, p.mask());
    let i2 = nonzero_slot(start, len, p.mask()) as int;
    assert(p.counters()[i2] <= 3);
}

/// Rolling streaming-versus-reuse score that decides on non-temporal stores.
#[derive(Debug)]
pub struct AdaptiveNtHeuristic {
    pub counter: i8,
}

impl Default for AdaptiveNtHeuristic {
    fn default() -> (h: Self)
        ensures
            h.counter == 0,
    {
        AdaptiveNtHeuristic { counter: 0 }
    }
}

impl AdaptiveNtHeuristic {
    pub fn new() -> (h: Self)
        ensures
            h.counter == 0,
    {
        AdaptiveNtHeuristic { counter: 0 }
    }

    /// Streaming seen: the score rises by two while below 120.
    pub fn observe_streaming(&mut self)
        ensures
            final(self).counter == if old(self).counter < 120 {
                old(self).counter + 2
            } else {
                old(self).counter as int
            },
    {
        if self.counter < 120 {
            self.counter = self.counter + 2;
        }
    }

    /// Reuse seen: the score falls by one while above -120.
    pub fn observe_reuse(&mut self)
        ensures
            final(self).counter == if old(self).counter > -120 {
                old(self).counter - 1
            } else {
                old(self).counter as int
            },
    {
        if self.counter > -120 {
            self.counter = self.counter - 1;
        }
    }

    /// Whether a store of `len` samples should bypass the cache.
    pub fn should_use_nt(&self, len: usize, predictor_hint: bool, flags: PerfFlags) -> (b: bool)
        ensures
            b == (flags.non_temporal_stores && len >= 256 && (!flags.adaptive_nt_enabled || (
            if predictor_hint {
                self.counter >= 0
            } else {
                self.counter >= 2
            }))),
    {
        if !flags.non_temporal_stores {
            return false;
        }
        if len < 256 {
            return false;
        }
        if !flags.adaptive_nt_enabled {
            return true;
        }
        if predictor_hint {
            self.counter >= 0
        } else {
            self.counter >= 2
        }
    }
}

/// The score stays within `[-121, 121]` whatever the observations.
pub proof fn law_nt_score_bounded(c: i8)
    requires
        -121 <= c <= 121,
    ensures
        -121 <= (if c < 120 { c + 2 } else { c as int }) <= 121,
        -121 <= (if c > -120 { c - 1 } else { c as int }) <= 121,
{
}

} // verus!
