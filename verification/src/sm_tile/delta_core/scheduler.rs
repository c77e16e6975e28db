use vstd::prelude::*;
use super::cores::BlockDeltaCore;
use super::fiber::{
    fuse_fiber_list, fused_fibers, fusion_fits, priority_rank, with_state, FiberFusionConfig,
    FiberFusionController, MicroFiber, MicroFiberGroup, MicroFiberState,
};
use super::flags::PerfFlags;
use super::hardware::{dma_copy_all, HardwareParallelismConfig, WarpScratchpad};
use super::sm_unit::{is_fresh_sm, issue_state};
use super::strand::{
    complete_micro_fiber_strand, plan_micro_fiber_strand, strand_effects, strand_perf_fits,
    strand_plan, strand_span, written_back, StrandPlan, StrandWork,
};
use super::tables::cue_of;
use super::hardware::copy_prefix;
use crate::sm_tile::overlay_sram::OverlaySram;
use super::sm_unit::{ComputeChip, StreamingMultiprocessor};
use super::tables::{
    CueBuffer, CueEvent, DeltaIndexEntry, count_active, count_completed, lemma_counts_partition, FiberL0Cache, FiberPerfCounters,
    OccupancyTracker, Roundabout, TileRouteEntry, TileRoutingTable,
};

verus! {

// -----------------------------------------------------------------------------
// Priority grouping
// -----------------------------------------------------------------------------

/// Indices `i < k`, ascending, of the fibers whose priority has rank `r`.
pub open spec fn rank_indices(fs: Seq<MicroFiber>, r: nat, k: nat) -> Seq<usize>
    decreases k,
{
    if k == 0 {
        Seq::empty()
    } else {
        let p = rank_indices(fs, r, (k - 1) as nat);
        if priority_rank(fs[k - 1].priority) == r {
            p.push((k - 1) as usize)
        } else {
            p
        }
    }
}

/// All fiber indices in priority order; fibers of equal priority keep their order.
pub open spec fn priority_order(fs: Seq<MicroFiber>) -> Seq<usize> {
    rank_indices(fs, 0, fs.len()) + rank_indices(fs, 1, fs.len()) + rank_indices(fs, 2, fs.len())
}

/// Chunking state after the indices of `idx`: the closed groups and the open one. A new
/// group opens when the open one holds `size` indices.
pub open spec fn chunk_state(idx: Seq<usize>, size: usize) -> (Seq<Seq<usize>>, Seq<usize>)
    decreases idx.len(),
{
    if idx.len() == 0 {
        (Seq::empty(), Seq::empty())
    } else {
        let (gs, cur) = chunk_state(idx.drop_last(), size);
        if cur.len() == size {
            (gs.push(cur), seq![idx.last()])
        } else {
            (gs, cur.push(idx.last()))
        }
    }
}

/// The groups: the closed ones, then the open one unless it is empty.
pub open spec fn chunk_groups(idx: Seq<usize>, size: usize) -> Seq<Seq<usize>> {
    let (gs, cur) = chunk_state(idx, size);
    if cur.len() > 0 {
        gs.push(cur)
    } else {
        gs
    }
}

pub proof fn lemma_chunk_state_sizes(idx: Seq<usize>, size: usize)
    ensures
        chunk_state(idx, size).0.len() <= idx.len(),
        chunk_state(idx, size).1.len() <= idx.len(),
        idx.len() > 0 ==> chunk_state(idx, size).1.len() > 0,
    decreases idx.len(),
{
    if idx.len() > 0 {
        lemma_chunk_state_sizes(idx.drop_last(), size);
    }
}

/// Concatenation of the groups.
pub open spec fn flatten(gs: Seq<Seq<usize>>) -> Seq<usize>
    decreases gs.len(),
{
    if gs.len() == 0 {
        Seq::empty()
    } else {
        flatten(gs.drop_last()) + gs.last()
    }
}

pub proof fn lemma_rank_indices(fs: Seq<MicroFiber>, r: nat, k: nat)
    requires
        k <= fs.len(),
        fs.len() <= usize::MAX,
    ensures
        forall|j: int|
            0 <= j < rank_indices(fs, r, k).len() ==> #[trigger] rank_indices(fs, r, k)[j] < k
                && priority_rank(fs[rank_indices(fs, r, k)[j] as int].priority) == r,
        forall|a: int, b: int|
            0 <= a < b < rank_indices(fs, r, k).len() ==> #[trigger] rank_indices(fs, r, k)[a]
                < #[trigger] rank_indices(fs, r, k)[b],
        forall|i: int|
            0 <= i < k && priority_rank(#[trigger] fs[i].priority) == r ==> rank_indices(
                fs,
                r,
                k,
            ).contains(i as usize),
    decreases k,
{
    if k > 0 {
        lemma_rank_indices(fs, r, (k - 1) as nat);
        let p = rank_indices(fs, r, (k - 1) as nat);
        if priority_rank(fs[k - 1].priority) == r {
            let q = p.push((k - 1) as usize);
            assert(q[p.len() as int] == (k - 1) as usize);
            assert forall|i: int|
                0 <= i < k && priority_rank(#[trigger] fs[i].priority) == r implies q.contains(
                i as usize,
            ) by {
                if i < k - 1 {
                    let j = choose|j: int| 0 <= j < p.len() && p[j] == i as usize;
                    assert(q[j] == i as usize);
                }
            }
        }
    }
}

pub proof fn lemma_rank_indices_total(fs: Seq<MicroFiber>, k: nat)
    requires
        k <= fs.len(),
    ensures
        rank_indices(fs, 0, k).len() + rank_indices(fs, 1, k).len() + rank_indices(fs, 2, k).len()
            == k,
    decreases k,
{
    if k > 0 {
        lemma_rank_indices_total(fs, (k - 1) as nat);
    }
}

/// Grouping orders the fibers by priority, keeps the order of fibers of equal priority,
/// and lists every fiber exactly once.
pub proof fn law_priority_order(fs: Seq<MicroFiber>)
    requires
        fs.len() <= usize::MAX,
    ensures
        priority_order(fs).len() == fs.len(),
        forall|i: usize| i < fs.len() ==> #[trigger] priority_order(fs).contains(i),
        forall|a: int, b: int|
            #![trigger priority_order(fs)[a], priority_order(fs)[b]]
            0 <= a < b < priority_order(fs).len() ==> {
                let (x, y) = (priority_order(fs)[a], priority_order(fs)[b]);
                &&& x < fs.len()
                &&& priority_rank(fs[x as int].priority) <= priority_rank(fs[y as int].priority)
                &&& (priority_rank(fs[x as int].priority) == priority_rank(fs[y as int].priority)
                    ==> x < y)
            },
{
    let n = fs.len();
    lemma_rank_indices(fs, 0, n);
    lemma_rank_indices(fs, 1, n);
    lemma_rank_indices(fs, 2, n);
    lemma_rank_indices_total(fs, n);
    let r0 = rank_indices(fs, 0, n);
    let r1 = rank_indices(fs, 1, n);
    let r2 = rank_indices(fs, 2, n);
    let po = priority_order(fs);
    assert(po == r0 + r1 + r2);
    assert forall|i: usize| i < fs.len() implies #[trigger] po.contains(i) by {
        let rk = priority_rank(fs[i as int].priority);
        if rk == 0 {
            let j = choose|j: int| 0 <= j < r0.len() && r0[j] == i;
            assert(po[j] == i);
        } else if rk == 1 {
            let j = choose|j: int| 0 <= j < r1.len() && r1[j] == i;
            assert(po[r0.len() + j] == i);
        } else {
            let j = choose|j: int| 0 <= j < r2.len() && r2[j] == i;
            assert(po[r0.len() + r1.len() + j] == i);
        }
    }
    assert forall|a: int, b: int| #![trigger po[a], po[b]] 0 <= a < b < po.len() implies {
        let (x, y) = (po[a], po[b]);
        &&& x < fs.len()
        &&& priority_rank(fs[x as int].priority) <= priority_rank(fs[y as int].priority)
        &&& (priority_rank(fs[x as int].priority) == priority_rank(fs[y as int].priority) ==> x < y)
    } by {
        let l0 = r0.len() as int;
        let l1 = r1.len() as int;
        if a < l0 {
            assert(po[a] == r0[a]);
        } else if a < l0 + l1 {
            assert(po[a] == r1[a - l0]);
        } else {
            assert(po[a] == r2[a - l0 - l1]);
        }
        if b < l0 {
            assert(po[b] == r0[b]);
        } else if b < l0 + l1 {
            assert(po[b] == r1[b - l0]);
        } else {
            assert(po[b] == r2[b - l0 - l1]);
        }
    }
}

pub proof fn lemma_chunk_state_flatten(idx: Seq<usize>, size: usize)
    ensures
        flatten(chunk_state(idx, size).0) + chunk_state(idx, size).1 == idx,
        size > 0 ==> chunk_state(idx, size).1.len() <= size,
        forall|k: int|
            0 <= k < chunk_state(idx, size).0.len() ==> (#[trigger] chunk_state(idx, size).0[k]).len()
                == size,
    decreases idx.len(),
{
    if idx.len() > 0 {
        lemma_chunk_state_flatten(idx.drop_last(), size);
        let (gs, cur) = chunk_state(idx.drop_last(), size);
        if cur.len() == size {
            assert(gs.push(cur).drop_last() =~= gs);
            assert(idx.drop_last().push(idx.last()) =~= idx);
            assert(flatten(gs.push(cur)) + seq![idx.last()] =~= idx);
        } else {
            assert(idx.drop_last().push(idx.last()) =~= idx);
            assert(flatten(gs) + cur.push(idx.last()) =~= (flatten(gs) + cur).push(idx.last()));
        }
    } else {
        assert(flatten(Seq::<Seq<usize>>::empty()) + Seq::<usize>::empty() =~= idx);
    }
}

/// Grouping splits the ordered indices without losing or reordering any, and, for a
/// positive group size, into non-empty groups of at most `size` indices.
pub proof fn law_groups_partition(idx: Seq<usize>, size: usize)
    ensures
        flatten(chunk_groups(idx, size)) == idx,
        size > 0 ==> forall|k: int|
            0 <= k < chunk_groups(idx, size).len() ==> 1 <= (#[trigger] chunk_groups(
                idx,
                size,
            )[k]).len() <= size,
{
    lemma_chunk_state_flatten(idx, size);
    let (gs, cur) = chunk_state(idx, size);
    if cur.len() > 0 {
        assert(gs.push(cur).drop_last() =~= gs);
    } else {
        assert(flatten(gs) + cur =~= flatten(gs));
    }
}

/// With a positive group size, the first fiber of the first group has the highest
/// priority present (physics before generic before hybrid).
pub proof fn law_first_group_leads(fs: Seq<MicroFiber>, size: usize, i: usize)
    requires
        size > 0,
        i < fs.len(),
        fs.len() <= usize::MAX,
    ensures
        chunk_groups(priority_order(fs), size).len() > 0,
        chunk_groups(priority_order(fs), size)[0].len() > 0,
        priority_rank(fs[chunk_groups(priority_order(fs), size)[0][0] as int].priority)
            <= priority_rank(fs[i as int].priority),
{
    let po = priority_order(fs);
    law_priority_order(fs);
    law_groups_partition(po, size);
    let cg = chunk_groups(po, size);
    assert(po.contains(i));
    let j = choose|j: int| 0 <= j < po.len() && po[j] == i;
    lemma_chunk_state_sizes(po, size);
    assert(cg.len() > 0);
    lemma_flatten_first(cg);
    if j > 0 {
        assert(priority_rank(fs[po[0] as int].priority) <= priority_rank(fs[po[j] as int].priority));
    }
}

pub proof fn lemma_flatten_first(gs: Seq<Seq<usize>>)
    requires
        gs.len() > 0,
        gs[0].len() > 0,
    ensures
        flatten(gs).len() > 0,
        flatten(gs)[0] == gs[0][0],
    decreases gs.len(),
{
    if gs.len() == 1 {
        assert(gs.drop_last() =~= Seq::<Seq<usize>>::empty());
        assert(flatten(gs.drop_last()) == Seq::<usize>::empty());
        assert(flatten(gs) == flatten(gs.drop_last()) + gs.last());
        assert(flatten(gs) =~= gs[0]);
    } else {
        lemma_flatten_first(gs.drop_last());
    }
}

// -----------------------------------------------------------------------------
// Migration and stealing
// -----------------------------------------------------------------------------

/// A ready fiber that belongs to another tile migrates away.
pub open spec fn migrates(f: MicroFiber, local: usize) -> bool {
    f.tile_id != local && f.state == MicroFiberState::Ready
}

/// The fibers after a migration pass: migrating ones are completed.
pub open spec fn migrated(fs: Seq<MicroFiber>, local: usize) -> Seq<MicroFiber> {
    Seq::new(
        fs.len(),
        |i: int|
            if migrates(fs[i], local) {
                with_state(fs[i], MicroFiberState::Completed)
            } else {
                fs[i]
            },
    )
}

/// The routes a migration pass logs, in fiber order.
pub open spec fn migration_log(fs: Seq<MicroFiber>, local: usize) -> Seq<TileRouteEntry>
    decreases fs.len(),
{
    if fs.len() == 0 {
        Seq::empty()
    } else {
        let p = migration_log(fs.drop_last(), local);
        let f = fs.last();
        if migrates(f, local) {
            p.push(TileRouteEntry { fiber_id: f.id, from_tile: local, to_tile: f.tile_id })
        } else {
            p
        }
    }
}

/// A fiber another scheduler may hand over: ready and routed to `tile`.
pub open spec fn stealable(f: MicroFiber, tile: usize) -> bool {
    f.state == MicroFiberState::Ready && f.tile_id == tile
}

/// Split of a victim's fibers into (kept, stolen): the first `max` stealable ones are
/// stolen, in order.
pub open spec fn steal_state(fs: Seq<MicroFiber>, tile: usize, max: usize) -> (
    Seq<MicroFiber>,
    Seq<MicroFiber>,
)
    decreases fs.len(),
{
    if fs.len() == 0 {
        (Seq::empty(), Seq::empty())
    } else {
        let (keep, taken) = steal_state(fs.drop_last(), tile, max);
        let f = fs.last();
        if taken.len() < max && stealable(f, tile) {
            (keep, taken.push(f))
        } else {
            (keep.push(f), taken)
        }
    }
}

/// Stolen fibers as the thief appends them: last stolen first, moved to `tile`.
pub open spec fn arrivals(taken: Seq<MicroFiber>, tile: usize) -> Seq<MicroFiber> {
    Seq::new(
        taken.len(),
        |k: int| MicroFiber { tile_id: tile, ..taken[taken.len() - 1 - k] },
    )
}

/// A group as plain values: (id, fiber indices).
pub open spec fn group_view(g: MicroFiberGroup) -> (usize, Seq<usize>) {
    (g.id, g.fibers@)
}

// -----------------------------------------------------------------------------
// Scheduler
// -----------------------------------------------------------------------------

pub struct MicroFiberScheduler<'a> {
    pub fibers: Vec<MicroFiber>,
    pub groups: Vec<MicroFiberGroup>,
    pub cores: &'a mut [BlockDeltaCore],
    pub perf: FiberPerfCounters,
    pub tile_id: usize,
    pub scratchpad: WarpScratchpad,
    pub l0_cache: FiberL0Cache,
    pub routing: TileRoutingTable,
    pub occupancy: OccupancyTracker,
    pub roundabout: Roundabout,
    pub sm: StreamingMultiprocessor,
    pub fusion: FiberFusionController,
    pub chip: ComputeChip,
}

impl<'a> MicroFiberScheduler<'a> {
    pub open spec fn wf(&self) -> bool {
        self.sm.wf()
    }

    /// The parts no scheduler operation changes: the cores, the fusion settings and the chip.
    pub open spec fn keeps_engine(&self, other: &Self) -> bool {
        &&& (*self.cores)@ == (*other.cores)@
        &&& self.fusion.config == other.fusion.config
        &&& self.chip.tiles == other.chip.tiles
        &&& self.chip.sms@ == other.chip.sms@
    }

    /// The groups as plain values.
    pub open spec fn groups_view(&self) -> Seq<(usize, Seq<usize>)> {
        self.groups@.map_values(|g: MicroFiberGroup| group_view(g))
    }

    /// An empty scheduler for `tile_id` over the given cores, with a 256-sample
    /// scratchpad, default fusion and a four-tile chip.
    pub fn new(cores: &'a mut [BlockDeltaCore], tile_id: usize) -> (s: Self)
        ensures
            s.wf(),
            s.tile_id == tile_id,
            s.fibers@ == Seq::<MicroFiber>::empty(),
            s.groups@ == Seq::<MicroFiberGroup>::empty(),
            s.perf == FiberPerfCounters::default_spec(),
            is_fresh_sm(s.sm, tile_id),
            s.scratchpad.contents() == Seq::new(256, |i: int| 0u32),
            s.l0_cache.ranges() == Seq::<(usize, usize)>::empty(),
            s.routing.routes@ == Seq::<TileRouteEntry>::empty(),
            s.occupancy == (OccupancyTracker { active_fibers: 0, completed_fibers: 0, total_groups: 0 }),
            s.roundabout.cue_buffer.events@ == Seq::<CueEvent>::empty(),
            s.roundabout.delta_index.entries@ == Seq::<DeltaIndexEntry>::empty(),
            s.fusion.config.max_tiny_len == 32,
            s.fusion.config.min_fibers_to_fuse == 4,
            s.chip.tiles == 4,
            s.chip.sms@.len() == 80,
            forall|k: int| 0 <= k < s.chip.sms@.len() ==> is_fresh_sm(#[trigger] s.chip.sms@[k], k as usize),
            (*s.cores)@ == (*old(cores))@,
    {
        let parallelism = HardwareParallelismConfig::default();
        let mut sm = StreamingMultiprocessor::new(tile_id);
        sm.parallelism = parallelism;
        let chip = ComputeChip::new(parallelism, 4);
        MicroFiberScheduler {
            fibers: Vec::new(),
            groups: Vec::new(),
            cores,
            perf: FiberPerfCounters::default(),
            tile_id,
            scratchpad: WarpScratchpad::new(256),
            l0_cache: FiberL0Cache::new(),
            routing: TileRoutingTable::default(),
            occupancy: OccupancyTracker::default(),
            roundabout: Roundabout::default(),
            sm,
            fusion: FiberFusionController::new(FiberFusionConfig::default()),
            chip,
        }
    }

    pub fn add_fiber(&mut self, fiber: MicroFiber)
        ensures
            final(self).fibers@ == old(self).fibers@.push(fiber),
            final(self).groups_view() == old(self).groups_view(),
            final(self).tile_id == old(self).tile_id,
            final(self).sm == old(self).sm,
            final(self).wf() == old(self).wf(),
            final(self).keeps_engine(old(self)),
            final(self).perf == old(self).perf,
            final(self).scratchpad == old(self).scratchpad,
            final(self).l0_cache == old(self).l0_cache,
            final(self).routing == old(self).routing,
            final(self).occupancy == old(self).occupancy,
            final(self).roundabout == old(self).roundabout,
    {
        self.fibers.push(fiber);
    }

    /// Fuses runs of four tiny fibers (at most `max_len` samples each).
    pub fn fuse_tiny_fibers(&mut self, max_len: usize)
        requires
            fusion_fits(old(self).fibers@, max_len, 4),
        ensures
            final(self).fibers@ == fused_fibers(old(self).fibers@, max_len, 4),
            final(self).groups_view() == old(self).groups_view(),
            final(self).tile_id == old(self).tile_id,
            final(self).sm == old(self).sm,
            final(self).wf() == old(self).wf(),
            final(self).keeps_engine(old(self)),
            final(self).perf == old(self).perf,
            final(self).scratchpad == old(self).scratchpad,
            final(self).l0_cache == old(self).l0_cache,
            final(self).routing == old(self).routing,
            final(self).occupancy == old(self).occupancy,
            final(self).roundabout == old(self).roundabout,
    {
        let r = fuse_fiber_list(&self.fibers, max_len, 4);
        self.fibers = r;
    }

    fn indices_of_rank(&self, r: usize, out: &mut Vec<usize>)
        ensures
            final(out)@ == old(out)@ + rank_indices(self.fibers@, r as nat, self.fibers@.len()),
    {
        let ghost base = out@;
        let mut i: usize = 0;
        while i < self.fibers.len()
            invariant
                i <= self.fibers@.len(),
                out@ == base + rank_indices(self.fibers@, r as nat, i as nat),
            decreases self.fibers@.len() - i,
        {
            if self.fibers[i].priority.rank() == r {
                out.push(i);
            }
            i = i + 1;
            assert(out@ =~= base + rank_indices(self.fibers@, r as nat, i as nat));
        }
    }

    /// Regroups every fiber: indices in priority order (stable), cut into groups of
    /// `group_size`, numbered from zero; then recounts occupancy.
    pub fn build_groups(&mut self, group_size: usize)
        ensures
            final(self).groups_view().len() == chunk_groups(
                priority_order(old(self).fibers@),
                group_size,
            ).len(),
            forall|k: int|
                0 <= k < final(self).groups_view().len() ==> #[trigger] final(self).groups_view()[k]
                    == (k as usize, chunk_groups(priority_order(old(self).fibers@), group_size)[k]),
            final(self).fibers@ == old(self).fibers@,
            final(self).occupancy.total_groups == final(self).groups@.len(),
            final(self).occupancy.active_fibers == count_active(old(self).fibers@),
            final(self).occupancy.completed_fibers == count_completed(old(self).fibers@),
            final(self).tile_id == old(self).tile_id,
            final(self).sm == old(self).sm,
            final(self).wf() == old(self).wf(),
            final(self).keeps_engine(old(self)),
            final(self).perf == old(self).perf,
            final(self).scratchpad == old(self).scratchpad,
            final(self).l0_cache == old(self).l0_cache,
            final(self).routing == old(self).routing,
            final(self).roundabout == old(self).roundabout,
    {
        let mut indices: Vec<usize> = Vec::new();
        self.indices_of_rank(0, &mut indices);
        self.indices_of_rank(1, &mut indices);
        self.indices_of_rank(2, &mut indices);
        assert(indices@ =~= priority_order(self.fibers@));
        let ghost idx = indices@;
        let mut groups: Vec<MicroFiberGroup> = Vec::new();
        let mut current = MicroFiberGroup::new(0);
        let mut group_id: usize = 0;
        let mut count: usize = 0;
        let mut i: usize = 0;
        while i < indices.len()
            invariant
                indices@ == idx,
                i <= idx.len(),
                ({
                    let (gs, cur) = chunk_state(idx.take(i as int), group_size);
                    &&& groups@.len() == gs.len()
                    &&& forall|k: int| 0 <= k < gs.len() ==> (#[trigger] groups@[k]).id == k
                        && groups@[k].fibers@ == gs[k]
                    &&& current.fibers@ == cur
                    &&& count == cur.len()
                    &&& current.id == gs.len()
                    &&& group_id == gs.len()
                    &&& gs.len() <= i
                    &&& cur.len() <= i
                }),
            decreases idx.len() - i,
        {
            proof {
                assert(idx.take(i as int + 1).drop_last() =~= idx.take(i as int));
                lemma_chunk_state_sizes(idx.take(i as int), group_size);
            }
            if count == group_size {
                let done = current;
                groups.push(done);
                group_id = group_id + 1;
                current = MicroFiberGroup::new(group_id);
                count = 0;
            }
            current.add_fiber_index(indices[i]);
            count = count + 1;
            i = i + 1;
            proof {
                let (gs, cur) = chunk_state(idx.take(i as int), group_size);
                assert(current.fibers@ =~= cur);
            }
        }
        assert(idx.take(idx.len() as int) =~= idx);
        if current.fibers.len() > 0 {
            groups.push(current);
        }
        proof {
            let cg = chunk_groups(idx, group_size);
            let gv = groups@.map_values(|g: MicroFiberGroup| group_view(g));
            assert(gv.len() == cg.len());
            assert forall|k: int| 0 <= k < gv.len() implies #[trigger] gv[k] == (k as usize, cg[k]) by {
                assert(gv[k] == group_view(groups@[k]));
            }
        }
        self.groups = groups;
        self.occupancy.update(self.fibers.as_slice(), self.groups.as_slice());
    }
}


impl<'a> MicroFiberScheduler<'a> {
    /// Every ready fiber routed to another tile is logged as a migration from
    /// `local_tile_id` and marked completed here.
    pub fn migrate_fibers_between_tiles(&mut self, local_tile_id: usize)
        ensures
            final(self).fibers@ == migrated(old(self).fibers@, local_tile_id),
            final(self).routing.routes@ == old(self).routing.routes@ + migration_log(
                old(self).fibers@,
                local_tile_id,
            ),
            final(self).groups_view() == old(self).groups_view(),
            final(self).tile_id == old(self).tile_id,
            final(self).sm == old(self).sm,
            final(self).wf() == old(self).wf(),
            final(self).perf == old(self).perf,
            final(self).fusion.config == old(self).fusion.config,
            final(self).keeps_engine(old(self)),
            final(self).scratchpad == old(self).scratchpad,
            final(self).l0_cache == old(self).l0_cache,
            final(self).occupancy == old(self).occupancy,
            final(self).roundabout == old(self).roundabout,
    {
        let ghost f0 = self.fibers@;
        let ghost r0 = self.routing.routes@;
        let mut i: usize = 0;
        while i < self.fibers.len()
            invariant
                self.fibers@.len() == f0.len(),
                i <= f0.len(),
                forall|k: int|
                    0 <= k < i ==> #[trigger] self.fibers@[k] == migrated(f0, local_tile_id)[k],
                forall|k: int| i <= k < f0.len() ==> #[trigger] self.fibers@[k] == f0[k],
                self.routing.routes@ == r0 + migration_log(f0.take(i as int), local_tile_id),
                self.perf == old(self).perf,
                self.fusion.config == old(self).fusion.config,
                self.groups_view() == old(self).groups_view(),
                self.tile_id == old(self).tile_id,
                self.sm == old(self).sm,
                self.keeps_engine(old(self)),
                self.scratchpad == old(self).scratchpad,
                self.l0_cache == old(self).l0_cache,
                self.occupancy == old(self).occupancy,
                self.roundabout == old(self).roundabout,
            decreases f0.len() - i,
        {
            assert(f0.take(i as int + 1).drop_last() =~= f0.take(i as int));
            let f = self.fibers[i];
            if f.tile_id != local_tile_id && f.is_ready() {
                self.routing.record_migration(f.id, local_tile_id, f.tile_id);
                let mut g = f;
                g.mark_completed();
                self.fibers.set(i, g);
            }
            i = i + 1;
            assert(self.routing.routes@ =~= r0 + migration_log(f0.take(i as int), local_tile_id));
        }
        assert(f0.take(f0.len() as int) =~= f0);
        assert(self.fibers@ =~= migrated(f0, local_tile_id));
    }

    /// Takes over up to `max_steal` ready fibers of `other` that are routed to this
    /// scheduler's tile. They leave `other` (whose remaining fibers keep their order) and
    /// are appended here last-first, with this tile's id. Both occupancies are recounted.
    pub fn steal_fibers_from(&mut self, other: &mut MicroFiberScheduler<'a>, max_steal: usize)
        ensures
            ({
                let (keep, taken) = steal_state(old(other).fibers@, old(self).tile_id, max_steal);
                &&& final(other).fibers@ == keep
                &&& final(self).fibers@ == old(self).fibers@ + arrivals(taken, old(self).tile_id)
            }),
            final(self).occupancy.active_fibers == count_active(final(self).fibers@),
            final(self).occupancy.completed_fibers == count_completed(final(self).fibers@),
            final(self).occupancy.total_groups == final(self).groups@.len(),
            final(other).occupancy.active_fibers == count_active(final(other).fibers@),
            final(other).occupancy.completed_fibers == count_completed(final(other).fibers@),
            final(other).occupancy.total_groups == final(other).groups@.len(),
            final(self).groups_view() == old(self).groups_view(),
            final(other).groups_view() == old(other).groups_view(),
            final(self).tile_id == old(self).tile_id,
            final(other).tile_id == old(other).tile_id,
            final(self).sm == old(self).sm,
            final(other).sm == old(other).sm,
            final(self).wf() == old(self).wf(),
            final(other).wf() == old(other).wf(),
            final(self).keeps_engine(old(self)),
            final(other).keeps_engine(old(other)),
            final(self).perf == old(self).perf,
            final(other).perf == old(other).perf,
            final(self).scratchpad == old(self).scratchpad,
            final(other).scratchpad == old(other).scratchpad,
            final(self).l0_cache == old(self).l0_cache,
            final(other).l0_cache == old(other).l0_cache,
            final(self).routing == old(self).routing,
            final(other).routing == old(other).routing,
            final(self).roundabout == old(self).roundabout,
            final(other).roundabout == old(other).roundabout,
    {
        let tile = self.tile_id;
        let ghost src = other.fibers@;
        let mut keep: Vec<MicroFiber> = Vec::new();
        let mut taken: Vec<MicroFiber> = Vec::new();
        let mut i: usize = 0;
        while i < other.fibers.len()
            invariant
                other.fibers@ == src,
                i <= src.len(),
                (keep@, taken@) == steal_state(src.take(i as int), tile, max_steal),
                self.fibers@ == old(self).fibers@,
                self.groups_view() == old(self).groups_view(),
                self.sm == old(self).sm,
                self.tile_id == tile,
                other.groups_view() == old(other).groups_view(),
                other.sm == old(other).sm,
                other.tile_id == old(other).tile_id,
            decreases src.len() - i,
        {
            assert(src.take(i as int + 1).drop_last() =~= src.take(i as int));
            let f = other.fibers[i];
            if taken.len() < max_steal && f.is_ready() && f.tile_id == tile {
                taken.push(f);
            } else {
                keep.push(f);
            }
            i = i + 1;
        }
        assert(src.take(src.len() as int) =~= src);
        other.fibers = keep;
        let ghost base = self.fibers@;
        let ghost t = taken@;
        let mut j: usize = taken.len();
        while j > 0
            invariant
                taken@ == t,
                j <= t.len(),
                self.fibers@ == base + arrivals(t, tile).take(t.len() - j),
                self.tile_id == tile,
                self.groups_view() == old(self).groups_view(),
                self.sm == old(self).sm,
                self.keeps_engine(old(self)),
                self.perf == old(self).perf,
                self.scratchpad == old(self).scratchpad,
                self.l0_cache == old(self).l0_cache,
                self.routing == old(self).routing,
                self.roundabout == old(self).roundabout,
            decreases j,
        {
            j = j - 1;
            let mut f = taken[j];
            f.tile_id = tile;
            self.fibers.push(f);
            assert(self.fibers@ =~= base + arrivals(t, tile).take(t.len() - j));
        }
        assert(arrivals(t, tile).take(t.len() as int) =~= arrivals(t, tile));
        self.occupancy.update(self.fibers.as_slice(), self.groups.as_slice());
        other.occupancy.update(other.fibers.as_slice(), other.groups.as_slice());
    }
}

/// Stealing neither creates nor loses fibers, and takes at most `max` of them.
pub proof fn law_steal_conserves(fs: Seq<MicroFiber>, tile: usize, max: usize)
    ensures
        steal_state(fs, tile, max).0.len() + steal_state(fs, tile, max).1.len() == fs.len(),
        steal_state(fs, tile, max).1.len() <= max,
        forall|k: int|
            0 <= k < steal_state(fs, tile, max).1.len() ==> stealable(
                #[trigger] steal_state(fs, tile, max).1[k],
                tile,
            ),
    decreases fs.len(),
{
    if fs.len() > 0 {
        law_steal_conserves(fs.drop_last(), tile, max);
    }
}

/// A migration pass completes exactly the ready fibers routed elsewhere, logs one route
/// per such fiber, and leaves every other fiber as it was.
pub proof fn law_migration_log_matches(fs: Seq<MicroFiber>, local: usize)
    ensures
        migration_log(fs, local).len() == count_migrating(fs, local),
        forall|i: int|
            0 <= i < fs.len() && !migrates(fs[i], local) ==> #[trigger] migrated(fs, local)[i]
                == fs[i],
        forall|i: int|
            0 <= i < fs.len() && migrates(fs[i], local) ==> (#[trigger] migrated(fs, local)[i]).state
                == MicroFiberState::Completed,
    decreases fs.len(),
{
    if fs.len() > 0 {
        law_migration_log_matches(fs.drop_last(), local);
    }
}

/// Number of fibers that a migration pass moves away.
pub open spec fn count_migrating(fs: Seq<MicroFiber>, local: usize) -> nat
    decreases fs.len(),
{
    if fs.len() == 0 {
        0
    } else {
        count_migrating(fs.drop_last(), local) + if migrates(fs.last(), local) {
            1nat
        } else {
            0nat
        }
    }
}


/// The fibers after the opening of a run: fusion, then issue (when the non-blocking
/// roundabout is on); migration follows.
pub open spec fn issued_after_fusion(
    fs: Seq<MicroFiber>,
    max_tiny: usize,
    min_fuse: usize,
    nb: bool,
    max_issue: usize,
) -> Seq<MicroFiber> {
    let fused = fused_fibers(fs, max_tiny, min_fuse);
    if nb {
        issue_state(fused, max_issue).0
    } else {
        fused
    }
}

impl<'a> MicroFiberScheduler<'a> {
    /// Opens a run: fuses tiny fibers, issues ready ones to the SM, and migrates the ones
    /// routed to other tiles.
    pub fn begin_run(&mut self)
        requires
            fusion_fits(
                old(self).fibers@,
                old(self).fusion.config.max_tiny_len,
                old(self).fusion.config.min_fibers_to_fuse,
            ),
        ensures
            ({
                let cfg = old(self).fusion.config;
                let ws = old(self).sm.warp_sched;
                let fused = fused_fibers(old(self).fibers@, cfg.max_tiny_len, cfg.min_fibers_to_fuse);
                let issued = issued_after_fusion(
                    old(self).fibers@,
                    cfg.max_tiny_len,
                    cfg.min_fibers_to_fuse,
                    ws.non_blocking_roundabout,
                    ws.warps_issued_per_cycle_max,
                );
                &&& final(self).fibers@ == migrated(issued, old(self).tile_id)
                &&& final(self).routing.routes@ == old(self).routing.routes@ + migration_log(
                    issued,
                    old(self).tile_id,
                )
                &&& final(self).sm.cue_buffer.entries@ == old(self).sm.cue_buffer.entries@ + (
                if ws.non_blocking_roundabout {
                    issue_state(fused, ws.warps_issued_per_cycle_max).1
                } else {
                    Seq::empty()
                })
            }),
            final(self).groups_view() == old(self).groups_view(),
            final(self).tile_id == old(self).tile_id,
            final(self).fusion.config == old(self).fusion.config,
            final(self).wf() == old(self).wf(),
            final(self).sm.predictor == old(self).sm.predictor,
            final(self).sm.delta_table.entries@ == old(self).sm.delta_table.entries@,
            final(self).sm.dma.queue@ == old(self).sm.dma.queue@,
            final(self).perf == old(self).perf,
            final(self).keeps_engine(old(self)),
            final(self).sm == (StreamingMultiprocessor { cue_buffer: final(self).sm.cue_buffer, ..old(self).sm }),
            final(self).scratchpad == old(self).scratchpad,
            final(self).l0_cache == old(self).l0_cache,
            final(self).occupancy == old(self).occupancy,
            final(self).roundabout == old(self).roundabout,
    {
        self.fusion.fuse_fibers(&mut self.fibers);
        self.sm.issue_warps_non_blocking(&mut self.fibers);
        let local = self.tile_id;
        self.migrate_fibers_between_tiles(local);
    }

    /// Dispatches the `local`-th fiber of group `group`. A fiber that is neither ready nor
    /// running is passed over (`None`). Otherwise its range is recorded in the L0 cache,
    /// it is queued on the roundabout, and its strand is planned; the result names the
    /// fiber, the core (`local` modulo the number of cores) and the plan.
    pub fn dispatch_fiber(
        &mut self,
        group: usize,
        local: usize,
        sram: &OverlaySram,
        flags: PerfFlags,
    ) -> (r: Option<(usize, usize, StrandPlan)>)
        requires
            old(self).wf(),
            group < old(self).groups@.len(),
            local < old(self).groups@[group as int].fibers@.len(),
            old(self).groups@[group as int].fibers@[local as int] < old(self).fibers@.len(),
            ({
                let f = old(self).fibers@[old(self).groups@[group as int].fibers@[local as int] as int];
                f.state != MicroFiberState::Completed ==> {
                    &&& (*old(self).cores)@.len() > 0
                    &&& strand_span(f, sram.data@.len()).0 + f.len <= usize::MAX
                    &&& strand_perf_fits(
                        old(self).perf,
                        strand_plan(
                            f,
                            sram.data@.len(),
                            old(self).scratchpad.contents().len(),
                            old(self).roundabout.delta_index.entries@,
                            old(self).sm,
                            flags,
                        ),
                    )
                }
            }),
        ensures
            final(self).wf(),
            final(self).groups_view() == old(self).groups_view(),
            final(self).tile_id == old(self).tile_id,
            final(self).fibers@.len() == old(self).fibers@.len(),
            ({
                let fi = old(self).groups@[group as int].fibers@[local as int];
                let f = old(self).fibers@[fi as int];
                if f.state == MicroFiberState::Completed {
                    &&& r is None
                    &&& final(self).fibers@ == old(self).fibers@
                    &&& final(self).perf == old(self).perf
                    &&& final(self).l0_cache.ranges() == old(self).l0_cache.ranges()
                } else {
                    let plan = strand_plan(
                        f,
                        sram.data@.len(),
                        old(self).scratchpad.contents().len(),
                        old(self).roundabout.delta_index.entries@,
                        old(self).sm,
                        flags,
                    );
                    &&& r == Some((fi, (local as int % (*old(self).cores)@.len() as int) as usize, plan))
                    &&& final(self).l0_cache.ranges() == old(self).l0_cache.ranges().push(
                        (f.start, f.len),
                    )
                    &&& forall|k: int|
                        0 <= k < old(self).fibers@.len() && k != fi
                            ==> #[trigger] final(self).fibers@[k] == old(self).fibers@[k]
                    &&& strand_effects(
                        f,
                        final(self).fibers@[fi as int],
                        sram.data@,
                        old(self).perf,
                        final(self).perf,
                        old(self).roundabout.cue_buffer.events@.push(cue_of(f)),
                        final(self).roundabout.cue_buffer.events@,
                        old(self).roundabout.delta_index.entries@,
                        final(self).roundabout.delta_index.entries@,
                        old(self).sm,
                        final(self).sm,
                        flags,
                        plan,
                    )
                }
            }),
            final(self).keeps_engine(old(self)),
            final(self).scratchpad == old(self).scratchpad,
            final(self).routing == old(self).routing,
            final(self).occupancy == old(self).occupancy,
    {
        let fi = self.groups[group].fibers[local];
        let mut fiber = self.fibers[fi];
        if !fiber.is_ready() && fiber.state != MicroFiberState::Running {
            return None;
        }
        let core_count = self.cores.len();
        let core_idx = local % core_count;
        self.l0_cache.record_range(fiber.start, fiber.len);
        self.roundabout.enqueue_fiber(&fiber);
        let plan = plan_micro_fiber_strand(
            &mut fiber,
            sram,
            &mut self.perf,
            &self.scratchpad,
            &mut self.roundabout,
            &mut self.sm,
            flags,
        );
        self.fibers.set(fi, fiber);
        Some((fi, core_idx, plan))
    }

    /// Finishes a dispatched fiber once its sample work and scratchpad passes are done
    /// (see `complete_micro_fiber_strand`).
    pub fn finish_fiber(&mut self, fiber_idx: usize, plan: &StrandPlan, sram: &mut OverlaySram)
        requires
            fiber_idx < old(self).fibers@.len(),
            plan.work != StrandWork::Empty ==> plan.start <= plan.end <= old(sram).data@.len(),
        ensures
            final(self).fibers@ == old(self).fibers@.update(
                fiber_idx as int,
                with_state(old(self).fibers@[fiber_idx as int], MicroFiberState::Completed),
            ),
            final(sram).data@ == written_back(old(sram).data@, old(self).scratchpad.contents(), *plan),
            final(self).groups_view() == old(self).groups_view(),
            final(self).tile_id == old(self).tile_id,
            final(self).sm == old(self).sm,
            final(self).perf == old(self).perf,
            final(self).wf() == old(self).wf(),
            final(self).keeps_engine(old(self)),
            final(self).scratchpad == old(self).scratchpad,
            final(self).l0_cache == old(self).l0_cache,
            final(self).routing == old(self).routing,
            final(self).occupancy == old(self).occupancy,
            final(self).roundabout == old(self).roundabout,
    {
        let mut fiber = self.fibers[fiber_idx];
        complete_micro_fiber_strand(&mut fiber, sram, &self.scratchpad, plan);
        self.fibers.set(fiber_idx, fiber);
    }

    /// Closes a run: performs the queued DMA copies and recounts occupancy.
    pub fn end_run(&mut self, sram: &mut OverlaySram)
        ensures
            final(sram).data@ == dma_copy_all(old(sram).data@, old(self).sm.dma.queue@),
            final(self).sm.dma.queue@ == Seq::<super::hardware::DmaRequest>::empty(),
            final(self).fibers@ == old(self).fibers@,
            final(self).occupancy.total_groups == old(self).groups@.len(),
            final(self).occupancy.active_fibers == count_active(old(self).fibers@),
            final(self).occupancy.completed_fibers == count_completed(old(self).fibers@),
            final(self).groups_view() == old(self).groups_view(),
            final(self).tile_id == old(self).tile_id,
            final(self).sm.predictor == old(self).sm.predictor,
            final(self).wf() == old(self).wf(),
            final(self).perf == old(self).perf,
            final(self).keeps_engine(old(self)),
            final(self).sm == (StreamingMultiprocessor { dma: final(self).sm.dma, ..old(self).sm }),
            final(self).scratchpad == old(self).scratchpad,
            final(self).l0_cache == old(self).l0_cache,
            final(self).routing == old(self).routing,
            final(self).roundabout == old(self).roundabout,
    {
        self.sm.dma.process_all(sram);
        self.occupancy.update(self.fibers.as_slice(), self.groups.as_slice());
    }
}
} // verus!
