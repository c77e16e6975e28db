use vstd::prelude::*;
use super::region_table::Region;

verus! {

/// A delta for one region; `delta_bits` is the f32 delta as a bit pattern.
#[derive(Clone, Copy, Debug, PartialEq, Eq, Structural)]
pub struct DeltaCommand {
    pub region_id: usize,
    pub delta_bits: u32,
}

impl Default for DeltaCommand {
    fn default() -> (c: Self)
        ensures
            c.region_id == 0 && c.delta_bits == 0,
    {
        DeltaCommand { region_id: 0, delta_bits: 0 }
    }
}

/// Hotness of a region: its counter, or zero when it has none yet.
pub open spec fn hot_of(flags: Seq<u8>, id: usize) -> u8 {
    if id < flags.len() {
        flags[id as int]
    } else {
        0
    }
}

/// Scheduling order: hotter regions first, then lower ids.
pub open spec fn goes_before(flags: Seq<u8>, a: Region, b: Region) -> bool {
    hot_of(flags, a.id) > hot_of(flags, b.id) || (hot_of(flags, a.id) == hot_of(flags, b.id)
        && a.id < b.id)
}

/// The regions are in scheduling order.
pub open spec fn in_schedule_order(flags: Seq<u8>, s: Seq<Region>) -> bool {
    forall|i: int, j: int| 0 <= i < j < s.len() ==> !goes_before(flags, #[trigger] s[j], #[trigger] s[i])
}

/// A saturating two-bit hotness counter moved one step.
pub open spec fn step_hot(c: u8, hot: bool) -> u8 {
    if hot {
        if c + 1 <= 3 {
            (c + 1) as u8
        } else {
            3
        }
    } else {
        if c >= 1 {
            (c - 1) as u8
        } else {
            0
        }
    }
}

/// `s` grown with `fill` to hold index `id`.
pub open spec fn grown<T>(s: Seq<T>, id: usize, fill: T) -> Seq<T> {
    if s.len() <= id {
        s + Seq::new((id + 1 - s.len()) as nat, |i: int| fill)
    } else {
        s
    }
}

/// The warps over the ordered regions `idx..n`: consecutive ranges of `warp` regions,
/// the last one possibly shorter.
pub open spec fn warp_ranges(idx: nat, n: nat, warp: nat) -> Seq<(usize, usize)>
    decreases n - idx,
{
    if idx >= n || warp == 0 {
        Seq::empty()
    } else {
        let end = if idx + warp <= n {
            idx + warp
        } else {
            n
        };
        seq![(idx as usize, end as usize)] + warp_ranges(end, n, warp)
    }
}

/// Delta controller: per-region two-bit hotness counters and the last delta (f32 bits)
/// sent to each region, with warp size and tiny-overlay threshold.
pub struct DaxController {
    hot_flags: Vec<u8>,
    last_delta: Vec<u32>,
    warp_size: usize,
    tiny_threshold: usize,
}

impl DaxController {
    pub closed spec fn hotness(&self) -> Seq<u8> {
        self.hot_flags@
    }

    pub closed spec fn last_deltas(&self) -> Seq<u32> {
        self.last_delta@
    }

    pub closed spec fn warp_size(&self) -> usize {
        self.warp_size
    }

    pub closed spec fn tiny_threshold(&self) -> usize {
        self.tiny_threshold
    }

    /// Both tables cover the same ids, counters stay in `0..=3`, warps are non-empty.
    pub closed spec fn wf(&self) -> bool {
        &&& self.hot_flags@.len() == self.last_delta@.len()
        &&& forall|i: int| 0 <= i < self.hot_flags@.len() ==> #[trigger] self.hot_flags@[i] <= 3
        &&& self.warp_size > 0
    }

    /// No region tracked yet, warps of 8, overlays under 32 samples ignored.
    pub fn new() -> (c: Self)
        ensures
            c.wf(),
            c.hotness() == Seq::<u8>::empty(),
            c.last_deltas() == Seq::<u32>::empty(),
            c.warp_size() == 8,
            c.tiny_threshold() == 32,
    {
        DaxController { hot_flags: Vec::new(), last_delta: Vec::new(), warp_size: 8, tiny_threshold: 32 }
    }

    /// Grows both tables (counters at zero, deltas at `+0.0`) to cover `max_id`.
    pub fn ensure_capacity(&mut self, max_id: usize)
        requires
            old(self).wf(),
            max_id < usize::MAX,
        ensures
            final(self).wf(),
            final(self).hotness() == grown(old(self).hotness(), max_id, 0u8),
            final(self).last_deltas() == grown(old(self).last_deltas(), max_id, 0u32),
            final(self).warp_size() == old(self).warp_size(),
            final(self).tiny_threshold() == old(self).tiny_threshold(),
    {
        if self.hot_flags.len() <= max_id {
            let ghost h0 = self.hot_flags@;
            let ghost d0 = self.last_delta@;
            while self.hot_flags.len() <= max_id
                invariant
                    self.hot_flags@.len() == self.last_delta@.len(),
                    h0.len() <= self.hot_flags@.len() <= max_id + 1,
                    self.hot_flags@ == h0 + Seq::new((self.hot_flags@.len() - h0.len()) as nat, |i: int| 0u8),
                    self.last_delta@ == d0 + Seq::new((self.last_delta@.len() - d0.len()) as nat, |i: int| 0u32),
                    h0.len() == d0.len(),
                    self.warp_size == old(self).warp_size,
                    self.tiny_threshold == old(self).tiny_threshold,
                    old(self).wf(),
                    h0 == old(self).hot_flags@,
                decreases max_id + 1 - self.hot_flags@.len(),
            {
                self.hot_flags.push(0);
                self.last_delta.push(0);
                assert(self.hot_flags@ =~= h0 + Seq::new((self.hot_flags@.len() - h0.len()) as nat, |i: int| 0u8));
                assert(self.last_delta@ =~= d0 + Seq::new((self.last_delta@.len() - d0.len()) as nat, |i: int| 0u32));
            }
            assert(self.hot_flags@ =~= grown(h0, max_id, 0u8));
            assert(self.last_delta@ =~= grown(d0, max_id, 0u32));
        }
    }

    /// Whether an overlay of `len` samples counts for hotness (non-empty and at least the
    /// tiny threshold).
    /// The length below which an overlay is treated as noise.
    pub fn min_tracked_len(&self) -> (t: usize)
        ensures
            t == self.tiny_threshold(),
    {
        self.tiny_threshold
    }

    pub fn tracks_overlay(&self, len: usize) -> (b: bool)
        ensures
            b == (len != 0 && len >= self.tiny_threshold()),
    {
        len != 0 && len >= self.tiny_threshold
    }

    /// Moves the region's hotness counter up (hot) or down, saturating at 0 and 3.
    pub fn record_hotness(&mut self, region_id: usize, hot: bool)
        requires
            old(self).wf(),
            region_id < usize::MAX,
        ensures
            final(self).wf(),
            final(self).hotness() == grown(old(self).hotness(), region_id, 0u8).update(
                region_id as int,
                step_hot(hot_of(old(self).hotness(), region_id), hot),
            ),
            final(self).last_deltas() == grown(old(self).last_deltas(), region_id, 0u32),
            final(self).warp_size() == old(self).warp_size(),
            final(self).tiny_threshold() == old(self).tiny_threshold(),
    {
        self.ensure_capacity(region_id);
        let c = self.hot_flags[region_id];
        let n = if hot {
            if c + 1 <= 3 {
                c + 1
            } else {
                3
            }
        } else {
            if c >= 1 {
                c - 1
            } else {
                0
            }
        };
        self.hot_flags.set(region_id, n);
    }

    /// The region's hotness counter, or zero when it has none.
    pub fn hotness_of(&self, region_id: usize) -> (h: u8)
        ensures
            h == hot_of(self.hotness(), region_id),
    {
        if region_id < self.hot_flags.len() {
            self.hot_flags[region_id]
        } else {
            0
        }
    }

    fn before(&self, a: Region, b: Region) -> (r: bool)
        ensures
            r == goes_before(self.hotness(), a, b),
    {
        let ha = self.hotness_of(a.id);
        let hb = self.hotness_of(b.id);
        ha > hb || (ha == hb && a.id < b.id)
    }

    /// The regions in scheduling order: hotter first, then lower id.
    pub fn order_regions(&self, regions: &[Region]) -> (out: Vec<Region>)
        ensures
            out@.to_multiset() == regions@.to_multiset(),
            in_schedule_order(self.hotness(), out@),
    {
        let ghost flags = self.hotness();
        let mut out: Vec<Region> = Vec::new();
        let mut i: usize = 0;
        assert(regions@.take(0) =~= Seq::<Region>::empty());
        assert(out@ =~= Seq::<Region>::empty());
        while i < regions.len()
            invariant
                i <= regions@.len(),
                flags == self.hotness(),
                out@.to_multiset() == regions@.take(i as int).to_multiset(),
                in_schedule_order(flags, out@),
                out@.len() == i,
            decreases regions@.len() - i,
        {
            let r = regions[i];
            let mut pos: usize = 0;
            while pos < out.len() && !self.before(r, out[pos])
                invariant
                    pos <= out@.len(),
                    forall|k: int| 0 <= k < pos ==> !goes_before(flags, r, #[trigger] out@[k]),
                    flags == self.hotness(),
                decreases out@.len() - pos,
            {
                pos = pos + 1;
            }
            let ghost o0 = out@;
            out.insert(pos, r);
            proof {
                vstd::seq_lib::to_multiset_insert(o0, pos as int, r);
                vstd::seq_lib::to_multiset_build(regions@.take(i as int), r);
                assert(regions@.take(i as int + 1) =~= regions@.take(i as int).push(r));
                assert forall|a: int, b: int| 0 <= a < b < out@.len() implies !goes_before(
                    flags,
                    #[trigger] out@[b],
                    #[trigger] out@[a],
                ) by {
                    if pos < o0.len() {
                        assert(goes_before(flags, r, o0[pos as int]));
                    }
                    if a < pos && b == pos {
                        assert(!goes_before(flags, r, o0[a]));
                    } else if a < pos && b > pos {
                        assert(out@[b] == o0[b - 1]);
                        assert(out@[a] == o0[a]);
                    } else if a == pos && b > pos {
                        assert(out@[b] == o0[b - 1]);
                        if b - 1 > pos {
                            assert(!goes_before(flags, o0[b - 1], o0[pos as int]));
                        }
                    } else if a > pos {
                        assert(out@[a] == o0[a - 1]);
                        assert(out@[b] == o0[b - 1]);
                    } else {
                        assert(out@[a] == o0[a]);
                        assert(out@[b] == o0[b]);
                    }
                }
            }
            i = i + 1;
        }
        assert(regions@.take(regions@.len() as int) =~= regions@);
        out
    }

    /// The warps over `n` ordered regions.
    pub fn warps(&self, n: usize) -> (w: Vec<(usize, usize)>)
        requires
            self.wf(),
        ensures
            w@ == warp_ranges(0, n as nat, self.warp_size() as nat),
    {
        let mut w: Vec<(usize, usize)> = Vec::new();
        let mut idx: usize = 0;
        while idx < n
            invariant
                self.wf(),
                idx <= n,
                w@ + warp_ranges(idx as nat, n as nat, self.warp_size as nat) == warp_ranges(
                    0,
                    n as nat,
                    self.warp_size as nat,
                ),
            decreases n - idx,
        {
            let end = if n - idx > self.warp_size {
                idx + self.warp_size
            } else {
                n
            };
            let ghost w0 = w@;
            w.push((idx, end));
            assert(w0 + warp_ranges(idx as nat, n as nat, self.warp_size as nat) =~= w@
                + warp_ranges(end as nat, n as nat, self.warp_size as nat));
            idx = end;
        }
        assert(w@ + warp_ranges(idx as nat, n as nat, self.warp_size as nat) =~= w@);
        w
    }

    /// The last delta sent to the region (f32 bits), `+0.0` when none was.
    pub fn last_delta_of(&self, region_id: usize) -> (d: u32)
        ensures
            d == if region_id < self.last_deltas().len() {
                self.last_deltas()[region_id as int]
            } else {
                0u32
            },
    {
        if region_id < self.last_delta.len() {
            self.last_delta[region_id]
        } else {
            0
        }
    }

    /// Records the delta sent to the region, growing the tables to cover it.
    pub fn set_last_delta(&mut self, region_id: usize, delta_bits: u32)
        requires
            old(self).wf(),
            region_id < usize::MAX,
        ensures
            final(self).wf(),
            final(self).hotness() == grown(old(self).hotness(), region_id, 0u8),
            final(self).last_deltas() == grown(old(self).last_deltas(), region_id, 0u32).update(
                region_id as int,
                delta_bits,
            ),
            final(self).warp_size() == old(self).warp_size(),
            final(self).tiny_threshold() == old(self).tiny_threshold(),
    {
        self.ensure_capacity(region_id);
        self.last_delta.set(region_id, delta_bits);
    }
}

/// Every hotness flag of a well-formed controller is a two-bit counter, the two tables
/// have one entry per region id, and warps are never empty.
pub proof fn law_hotness_two_bit(c: DaxController)
    requires
        c.wf(),
    ensures
        forall|i: int| 0 <= i < c.hotness().len() ==> #[trigger] c.hotness()[i] <= 3,
        c.hotness().len() == c.last_deltas().len(),
        c.warp_size() > 0,
{
}

/// Hotness is a two-bit saturating counter: a hot observation moves it up by exactly one
/// and a cold one down by exactly one, stopping at 3 and 0; below saturation a cold
/// observation undoes a hot one, and above zero a hot one undoes a cold one.
pub proof fn law_hotness_counter_steps(c: u8)
    requires
        c <= 3,
    ensures
        step_hot(c, true) == (if c < 3 {
            c + 1
        } else {
            3
        }),
        step_hot(c, false) == (if c > 0 {
            c - 1
        } else {
            0
        }),
        step_hot(c, true) <= 3 && step_hot(c, false) <= 3,
        c < 3 ==> step_hot(step_hot(c, true), false) == c,
        c > 0 ==> step_hot(step_hot(c, false), true) == c,
{
}

/// Scheduling order puts every region at least as hot as the ones after it.
pub proof fn law_schedule_hottest_first(flags: Seq<u8>, s: Seq<Region>, i: int, j: int)
    requires
        in_schedule_order(flags, s),
        0 <= i < j < s.len(),
    ensures
        hot_of(flags, s[i].id) >= hot_of(flags, s[j].id),
{
    assert(!goes_before(flags, s[j], s[i]));
}

/// The warps cut the scheduled regions `[idx, n)` into consecutive, non-empty runs of at
/// most `warp` regions, from `idx` to `n`.
pub proof fn law_warps_tile_the_schedule(idx: nat, n: nat, warp: nat)
    requires
        warp > 0,
        idx <= n <= usize::MAX,
    ensures
        idx == n ==> warp_ranges(idx, n, warp).len() == 0,
        idx < n ==> {
            let w = warp_ranges(idx, n, warp);
            &&& w.len() > 0
            &&& w[0].0 == idx
            &&& w.last().1 == n
        },
        forall|k: int|
            0 <= k < warp_ranges(idx, n, warp).len() ==> {
                let r = #[trigger] warp_ranges(idx, n, warp)[k];
                r.0 < r.1 <= r.0 + warp
            },
        forall|k: int|
            0 <= k < warp_ranges(idx, n, warp).len() - 1 ==> (#[trigger] warp_ranges(
                idx,
                n,
                warp,
            )[k]).1 == warp_ranges(idx, n, warp)[k + 1].0,
    decreases n - idx,
{
    if idx < n {
        let end: nat = if idx + warp <= n {
            idx + warp
        } else {
            n
        };
        let w = warp_ranges(idx, n, warp);
        let rest = warp_ranges(end, n, warp);
        law_warps_tile_the_schedule(end, n, warp);
        assert(w == seq![(idx as usize, end as usize)] + rest);
        assert forall|k: int| 0 <= k < w.len() implies {
            let r = #[trigger] w[k];
            r.0 < r.1 <= r.0 + warp
        } by {
            if k > 0 {
                assert(w[k] == rest[k - 1]);
            }
        }
        assert forall|k: int| 0 <= k < w.len() - 1 implies (#[trigger] w[k]).1 == w[k + 1].0 by {
            assert(w[k + 1] == rest[k]);
            if k > 0 {
                assert(w[k] == rest[k - 1]);
            }
        }
        if end < n {
            assert(w.last() == rest.last());
        }
    }
}

} // verus!
