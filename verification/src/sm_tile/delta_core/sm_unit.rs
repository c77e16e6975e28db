use vstd::prelude::*;
use super::flags::PerfFlags;
use super::fiber::{with_state, MicroFiber, MicroFiberMode, MicroFiberState};
use super::hardware::{
    AluCapabilities, AsyncDmaEngine, AttentionUnitConfig, DmaRequest, HardwareParallelismConfig,
    MemoryFabricConfig, QuantMode, ScratchpadConfig, TensorCoreConfig, WarpSchedulerConfig,
};
use super::predictor::{AdaptiveNtHeuristic, StatePredictor};
use super::tables::{
    hw_kind_of, table_has_hot, DeltaIndexTable, DeltaIndexTableEntry, HardwareCueBuffer,
    HardwareCueEntry, HardwareCueKind,
};
use crate::sm_tile::overlay_sram::OverlaySram;

verus! {

// -----------------------------------------------------------------------------
// Speculative execution + rollback
// -----------------------------------------------------------------------------

/// A saved copy of the samples `[start, start + len)`.
#[derive(Debug)]
pub struct SpeculativeSnapshot {
    pub start: usize,
    pub len: usize,
    pub data: Vec<u32>,
}

/// A snapshot as plain values: (start, len, samples).
pub open spec fn snap_view(s: SpeculativeSnapshot) -> (usize, usize, Seq<u32>) {
    (s.start, s.len, s.data@)
}

/// The snapshot taken of `[start, start + len)` cut to the buffer, or none if that is empty.
pub open spec fn snapshot_of(data: Seq<u32>, start: usize, len: usize) -> Option<
    (usize, usize, Seq<u32>),
> {
    let n = data.len() as int;
    let s = if start <= n {
        start as int
    } else {
        n
    };
    let e = if start + len <= n {
        start + len
    } else {
        n
    };
    if s >= e {
        None
    } else {
        Some((s as usize, (e - s) as usize, data.subrange(s, e)))
    }
}

/// The buffer with one snapshot written back over its range (cut to the buffer).
pub open spec fn rollback_one(data: Seq<u32>, snap: (usize, usize, Seq<u32>)) -> Seq<u32> {
    let n = data.len() as int;
    let (start, len, saved) = snap;
    let end = if start + len <= n {
        start + len
    } else {
        n
    };
    if end <= start {
        data
    } else {
        let m = if end - start <= saved.len() {
            end - start
        } else {
            saved.len() as int
        };
        Seq::new(
            data.len(),
            |i: int| if start <= i < start + m { saved[i - start] } else { data[i] },
        )
    }
}

/// The buffer with the snapshots written back in the order they were taken.
pub open spec fn rollback_seq(data: Seq<u32>, snaps: Seq<(usize, usize, Seq<u32>)>) -> Seq<u32>
    decreases snaps.len(),
{
    if snaps.len() == 0 {
        data
    } else {
        rollback_one(rollback_seq(data, snaps.drop_last()), snaps.last())
    }
}

#[derive(Debug)]
pub struct SpeculativeEngine {
    pub snapshots: Vec<SpeculativeSnapshot>,
}

impl SpeculativeEngine {
    /// The snapshots as plain values, oldest first.
    pub open spec fn snaps(&self) -> Seq<(usize, usize, Seq<u32>)> {
        self.snapshots@.map_values(|s: SpeculativeSnapshot| snap_view(s))
    }

    pub fn new() -> (e: Self)
        ensures
            e.snaps() == Seq::<(usize, usize, Seq<u32>)>::empty(),
    {
        SpeculativeEngine { snapshots: Vec::new() }
    }

    /// Saves the samples `[start, start + len)`, cut to the buffer; saves nothing if
    /// that range is empty.
    pub fn snapshot_region(&mut self, sram: &OverlaySram, start: usize, len: usize)
        requires
            start + len <= usize::MAX,
        ensures
            final(self).snaps() == match snapshot_of(sram.data@, start, len) {
                Some(s) => old(self).snaps().push(s),
                None => old(self).snaps(),
            },
    {
        let n = sram.data.len();
        let s = if start <= n {
            start
        } else {
            n
        };
        let e = if start + len <= n {
            start + len
        } else {
            n
        };
        if s >= e {
            return;
        }
        let mut saved: Vec<u32> = Vec::with_capacity(e - s);
        let mut i: usize = s;
        while i < e
            invariant
                s <= i <= e <= sram.data@.len(),
                saved@ == sram.data@.subrange(s as int, i as int),
            decreases e - i,
        {
            saved.push(sram.data[i]);
            i = i + 1;
            assert(saved@ =~= sram.data@.subrange(s as int, i as int));
        }
        self.snapshots.push(SpeculativeSnapshot { start: s, len: e - s, data: saved });
        assert(self.snaps() =~= old(self).snaps().push((s, (e - s) as usize, sram.data@.subrange(s as int, e as int))));
    }

    fn rollback_snapshot(data: &mut Vec<u32>, snap: &SpeculativeSnapshot)
        requires
            snap.start + snap.len <= usize::MAX,
        ensures
            final(data)@ == rollback_one(old(data)@, snap_view(*snap)),
    {
        let n = data.len();
        let end = if snap.start + snap.len <= n {
            snap.start + snap.len
        } else {
            n
        };
        if end <= snap.start {
            return;
        }
        let m = if end - snap.start <= snap.data.len() {
            end - snap.start
        } else {
            snap.data.len()
        };
        let ghost d0 = old(data)@;
        let mut j: usize = 0;
        while j < m
            invariant
                snap.start + m <= n,
                m <= snap.data@.len(),
                n == d0.len(),
                data@.len() == n,
                j <= m,
                forall|k: int|
                    0 <= k < n ==> #[trigger] data@[k] == if snap.start <= k < snap.start + j {
                        snap.data@[k - snap.start]
                    } else {
                        d0[k]
                    },
            decreases m - j,
        {
            data.set(snap.start + j, snap.data[j]);
            j = j + 1;
        }
        assert(data@ =~= rollback_one(d0, snap_view(*snap)));
    }

    /// Writes every snapshot back, oldest first, and forgets them.
    pub fn rollback_all(&mut self, sram: &mut OverlaySram)
        requires
            forall|k: int|
                0 <= k < old(self).snapshots@.len() ==> #[trigger] old(self).snapshots@[k].start
                    + old(self).snapshots@[k].len <= usize::MAX,
        ensures
            final(sram).data@ == rollback_seq(old(sram).data@, old(self).snaps()),
            final(self).snaps() == Seq::<(usize, usize, Seq<u32>)>::empty(),
            final(sram).incoming@ == old(sram).incoming@,
            final(sram).outgoing@ == old(sram).outgoing@,
            final(sram).heatmap_short@ == old(sram).heatmap_short@,
            final(sram).heatmap_mid@ == old(sram).heatmap_mid@,
            final(sram).heatmap_long@ == old(sram).heatmap_long@,
            final(sram).active_chunks@ == old(sram).active_chunks@,
            final(sram).chunk_size == old(sram).chunk_size,
    {
        let ghost ss = self.snaps();
        let mut i: usize = 0;
        while i < self.snapshots.len()
            invariant
                self.snapshots@ == old(self).snapshots@,
                ss == self.snaps(),
                i <= ss.len(),
                forall|k: int|
                    0 <= k < self.snapshots@.len() ==> #[trigger] self.snapshots@[k].start
                        + self.snapshots@[k].len <= usize::MAX,
                sram.data@ == rollback_seq(old(sram).data@, ss.take(i as int)),
                sram.incoming@ == old(sram).incoming@,
                sram.outgoing@ == old(sram).outgoing@,
                sram.heatmap_short@ == old(sram).heatmap_short@,
                sram.heatmap_mid@ == old(sram).heatmap_mid@,
                sram.heatmap_long@ == old(sram).heatmap_long@,
                sram.active_chunks@ == old(sram).active_chunks@,
                sram.chunk_size == old(sram).chunk_size,
            decreases ss.len() - i,
        {
            Self::rollback_snapshot(&mut sram.data, &self.snapshots[i]);
            assert(ss.take(i as int + 1).drop_last() =~= ss.take(i as int));
            assert(ss[i as int] == snap_view(self.snapshots@[i as int]));
            i = i + 1;
        }
        assert(ss.take(ss.len() as int) =~= ss);
        self.snapshots = Vec::new();
        assert(self.snaps() =~= Seq::<(usize, usize, Seq<u32>)>::empty());
    }
}

/// Snapshot, then any change that keeps the buffer's length, then rollback: the
/// snapshotted range holds its samples again and the rest keeps the changes.
pub proof fn law_rollback_restores_snapshot(
    before: Seq<u32>,
    after: Seq<u32>,
    start: usize,
    len: usize,
    i: int,
)
    requires
        start + len <= usize::MAX,
        after.len() == before.len(),
        snapshot_of(before, start, len) is Some,
        0 <= i < before.len(),
    ensures
        ({
            let snap = snapshot_of(before, start, len)->0;
            let restored = rollback_one(after, snap);
            &&& restored.len() == before.len()
            &&& (snap.0 <= i < snap.0 + snap.1 ==> restored[i] == before[i])
            &&& (!(snap.0 <= i < snap.0 + snap.1) ==> restored[i] == after[i])
        }),
{
}

// -----------------------------------------------------------------------------
// Streaming multiprocessor
// -----------------------------------------------------------------------------

/// The hardware cue entry a fiber is issued as (ids and ranges truncated to 32 bits).
pub open spec fn issue_entry(f: MicroFiber) -> HardwareCueEntry {
    HardwareCueEntry {
        fiber_id: #[verifier::truncate] (f.id as u32),
        kind: hw_kind_of(f.mode),
        start: #[verifier::truncate] (f.start as u32),
        len: #[verifier::truncate] (f.len as u32),
        delta_bits: f.delta_bits,
    }
}

/// Issuing over the fibers of `s`: the first `max` ready fibers become running, each
/// with one cue entry, in fiber order.
pub open spec fn issue_state(s: Seq<MicroFiber>, max: usize) -> (Seq<MicroFiber>, Seq<
    HardwareCueEntry,
>)
    decreases s.len(),
{
    if s.len() == 0 {
        (Seq::empty(), Seq::empty())
    } else {
        let (fs, cs) = issue_state(s.drop_last(), max);
        let f = s.last();
        if cs.len() < max && f.state == MicroFiberState::Ready {
            (fs.push(with_state(f, MicroFiberState::Running)), cs.push(issue_entry(f)))
        } else {
            (fs.push(f), cs)
        }
    }
}

/// An SM as `StreamingMultiprocessor::new` builds it: the default configuration,
/// unquantized, empty tables and queues, a streaming score of zero and a predictor of 256
/// counters that all start at one.
pub open spec fn is_fresh_sm(sm: StreamingMultiprocessor, id: usize) -> bool {
    &&& sm.wf()
    &&& sm.id == id
    &&& sm.parallelism == (HardwareParallelismConfig {
        fibers_per_warp: 64,
        warps_per_sm: 64,
        sms_per_chip: 80,
    })
    &&& sm.scratchpad == (ScratchpadConfig { bytes_per_sm: 65536, single_cycle_access: true })
    &&& sm.alu_caps == (AluCapabilities {
        has_integer: true,
        has_fp32: true,
        has_fp16: true,
        has_bf16: true,
        has_tensor_ops: true,
    })
    &&& sm.warp_sched == (WarpSchedulerConfig {
        warps_issued_per_cycle_min: 4,
        warps_issued_per_cycle_max: 8,
        non_blocking_roundabout: true,
    })
    &&& sm.fabric == (MemoryFabricConfig {
        bandwidth_bits: 0x4275_d3ef_7980_0000u64,
        region_aware_addressing: true,
    })
    &&& sm.tensor_cfg == (TensorCoreConfig { lanes: 256, fma_per_cycle: 1024, enabled: true })
    &&& sm.attention_cfg == (AttentionUnitConfig { enabled: true, max_heads: 8, max_seq_len: 1024 })
    &&& sm.quant_mode == QuantMode::Unquantized
    &&& sm.delta_table.entries@ == Seq::<DeltaIndexTableEntry>::empty()
    &&& sm.cue_buffer.entries@ == Seq::<HardwareCueEntry>::empty()
    &&& sm.dma.queue@ == Seq::<DmaRequest>::empty()
    &&& sm.speculative.snaps() == Seq::<(usize, usize, Seq<u32>)>::empty()
    &&& sm.predictor.counters() == Seq::new(256, |i: int| 1u8)
    &&& sm.adaptive_nt.counter == 0
}

#[derive(Debug)]
pub struct StreamingMultiprocessor {
    pub id: usize,
    pub parallelism: HardwareParallelismConfig,
    pub scratchpad: ScratchpadConfig,
    pub alu_caps: AluCapabilities,
    pub warp_sched: WarpSchedulerConfig,
    pub fabric: MemoryFabricConfig,
    pub delta_table: DeltaIndexTable,
    pub cue_buffer: HardwareCueBuffer,
    pub tensor_cfg: TensorCoreConfig,
    pub attention_cfg: AttentionUnitConfig,
    pub dma: AsyncDmaEngine,
    pub speculative: SpeculativeEngine,
    pub quant_mode: QuantMode,
    pub predictor: StatePredictor,
    pub adaptive_nt: AdaptiveNtHeuristic,
}

impl StreamingMultiprocessor {
    pub open spec fn wf(&self) -> bool {
        self.predictor.wf()
    }

    /// An SM with default configuration, empty tables and queues, and a predictor of
    /// 256 counters.
    pub fn new(id: usize) -> (sm: Self)
        ensures
            is_fresh_sm(sm, id),
    {
        let p = StatePredictor::new(8);
        proof {
            vstd::arithmetic::power2::lemma2_to64();
            assert(p.counters() =~= Seq::new(256, |i: int| 1u8));
        }
        StreamingMultiprocessor {
            id,
            parallelism: HardwareParallelismConfig::default(),
            scratchpad: ScratchpadConfig::default(),
            alu_caps: AluCapabilities::default(),
            warp_sched: WarpSchedulerConfig::default(),
            fabric: MemoryFabricConfig::default(),
            delta_table: DeltaIndexTable::new(1024),
            cue_buffer: HardwareCueBuffer::new(1024),
            tensor_cfg: TensorCoreConfig::default(),
            attention_cfg: AttentionUnitConfig::default(),
            dma: AsyncDmaEngine::new(),
            speculative: SpeculativeEngine::new(),
            quant_mode: QuantMode::Unquantized,
            predictor: p,
            adaptive_nt: AdaptiveNtHeuristic::new(),
        }
    }

    /// Issues up to `warps_issued_per_cycle_max` ready fibers, in order: each becomes
    /// running and gets a hardware cue entry. Nothing happens when the non-blocking
    /// roundabout is off.
    pub fn issue_warps_non_blocking(&mut self, fibers: &mut Vec<MicroFiber>)
        ensures
            *final(self) == (StreamingMultiprocessor { cue_buffer: final(self).cue_buffer, ..*old(self) }),
            final(self).delta_table.entries@ == old(self).delta_table.entries@,
            final(self).predictor == old(self).predictor,
            final(self).adaptive_nt == old(self).adaptive_nt,
            final(self).warp_sched == old(self).warp_sched,
            final(self).speculative.snaps() == old(self).speculative.snaps(),
            final(self).dma.queue@ == old(self).dma.queue@,
            final(self).id == old(self).id,
            final(self).tensor_cfg == old(self).tensor_cfg,
            final(self).attention_cfg == old(self).attention_cfg,
            final(self).quant_mode == old(self).quant_mode,
            old(self).warp_sched.non_blocking_roundabout ==> {
                let (fs, cs) = issue_state(old(fibers)@, old(self).warp_sched.warps_issued_per_cycle_max);
                &&& final(fibers)@ == fs
                &&& final(self).cue_buffer.entries@ == old(self).cue_buffer.entries@ + cs
            },
            !old(self).warp_sched.non_blocking_roundabout ==> {
                &&& final(fibers)@ == old(fibers)@
                &&& final(self).cue_buffer.entries@ == old(self).cue_buffer.entries@
            },
    {
        if !self.warp_sched.non_blocking_roundabout {
            return;
        }
        let max_issue = self.warp_sched.warps_issued_per_cycle_max;
        let ghost f0 = fibers@;
        let ghost c0 = self.cue_buffer.entries@;
        let mut issued: usize = 0;
        let mut i: usize = 0;
        while i < fibers.len()
            invariant
                fibers@.len() == f0.len(),
                i <= f0.len(),
                max_issue == old(self).warp_sched.warps_issued_per_cycle_max,
                ({
                    let (fs, cs) = issue_state(f0.take(i as int), max_issue);
                    &&& fibers@.take(i as int) == fs
                    &&& self.cue_buffer.entries@ == c0 + cs
                    &&& issued == cs.len()
                }),
                forall|k: int| i <= k < f0.len() ==> fibers@[k] == f0[k],
                *self == (StreamingMultiprocessor { cue_buffer: self.cue_buffer, ..*old(self) }),
                self.delta_table.entries@ == old(self).delta_table.entries@,
                self.predictor == old(self).predictor,
                self.adaptive_nt == old(self).adaptive_nt,
                self.warp_sched == old(self).warp_sched,
                self.speculative.snaps() == old(self).speculative.snaps(),
                self.dma.queue@ == old(self).dma.queue@,
                self.id == old(self).id,
                self.tensor_cfg == old(self).tensor_cfg,
                self.attention_cfg == old(self).attention_cfg,
                self.quant_mode == old(self).quant_mode,
            decreases f0.len() - i,
        {
            let ghost pre = fibers@;
            let f = fibers[i];
            proof {
                assert(f0.take(i as int + 1).drop_last() =~= f0.take(i as int));
            }
            if issued < max_issue && f.is_ready() {
                let kind = match f.mode {
                    MicroFiberMode::Generic => HardwareCueKind::Delta,
                    MicroFiberMode::Physics => HardwareCueKind::Physics,
                    MicroFiberMode::Hybrid => HardwareCueKind::Hybrid,
                };
                self.cue_buffer.push(
                    HardwareCueEntry {
                        fiber_id: #[verifier::truncate] (f.id as u32),
                        kind,
                        start: #[verifier::truncate] (f.start as u32),
                        len: #[verifier::truncate] (f.len as u32),
                        delta_bits: f.delta_bits,
                    },
                );
                let mut g = f;
                g.mark_running();
                fibers.set(i, g);
                issued = issued + 1;
            }
            i = i + 1;
            proof {
                let (fs, cs) = issue_state(f0.take(i as int), max_issue);
                assert(fibers@.take(i as int) =~= fs);
                assert(self.cue_buffer.entries@ =~= c0 + cs);
            }
        }
        assert(f0.take(f0.len() as int) =~= f0);
        assert(fibers@.take(f0.len() as int) =~= fibers@);
    }

    pub fn update_delta_table_for_slice(&mut self, start: usize, len: usize, magnitude_bits: u32)
        ensures
            *final(self) == (StreamingMultiprocessor { delta_table: final(self).delta_table, ..*old(self) }),
            final(self).delta_table.entries@ == old(self).delta_table.entries@.push(
                DeltaIndexTableEntry { start: start as u32, len: len as u32, magnitude_bits },
            ),
            final(self).predictor == old(self).predictor,
            final(self).adaptive_nt == old(self).adaptive_nt,
            final(self).warp_sched == old(self).warp_sched,
            final(self).cue_buffer.entries@ == old(self).cue_buffer.entries@,
            final(self).speculative.snaps() == old(self).speculative.snaps(),
            final(self).dma.queue@ == old(self).dma.queue@,
            final(self).id == old(self).id,
            final(self).tensor_cfg == old(self).tensor_cfg,
            final(self).attention_cfg == old(self).attention_cfg,
            final(self).quant_mode == old(self).quant_mode,
    {
        self.delta_table.record(start, len, magnitude_bits);
    }

    pub fn is_hot_region(&self, start: usize, len: usize) -> (b: bool)
        ensures
            b == table_has_hot(self.delta_table.entries@, start, len),
    {
        self.delta_table.is_hot_region(start, len)
    }

    /// Whether the attention unit runs over a scratchpad of `len` samples.
    pub fn attention_applies(&self, flags: PerfFlags, len: usize) -> (b: bool)
        ensures
            b == (!flags.zero_cost_mode && self.attention_cfg.enabled && !(
            flags.skip_scratchpad_for_small && len < 16)),
    {
        if flags.zero_cost_mode {
            return false;
        }
        if !self.attention_cfg.enabled {
            return false;
        }
        if flags.skip_scratchpad_for_small && len < 16 {
            return false;
        }
        true
    }

    /// Where the tensor core splits a scratchpad of `len` samples into `a = [0, mid)`,
    /// `b = [mid, 2 mid)` and `c = [2 mid, len)`, or none when it does not run: zero-cost
    /// mode, tensor core off, fewer than 32 samples, or an empty `c` (even `len`).
    pub fn tensor_core_split(&self, flags: PerfFlags, len: usize) -> (r: Option<usize>)
        ensures
            r == if !flags.zero_cost_mode && self.tensor_cfg.enabled && len >= 32 && len % 2 == 1 {
                Some(len / 2)
            } else {
                None::<usize>
            },
    {
        if flags.zero_cost_mode {
            return None;
        }
        if !self.tensor_cfg.enabled {
            return None;
        }
        if len < 32 {
            return None;
        }
        let mid = len / 2;
        let rest = len - mid;
        let b_len = if mid <= rest {
            mid
        } else {
            rest
        };
        let c_len = rest - b_len;
        if c_len == 0 {
            return None;
        }
        Some(mid)
    }
}

/// Issuing marks at most `max` fibers running, one cue entry each, and leaves the count
/// of fibers unchanged.
pub proof fn law_issue_bounded(s: Seq<MicroFiber>, max: usize)
    ensures
        issue_state(s, max).1.len() <= max,
        issue_state(s, max).0.len() == s.len(),
    decreases s.len(),
{
    if s.len() > 0 {
        law_issue_bounded(s.drop_last(), max);
    }
}

// -----------------------------------------------------------------------------
// Compute chip
// -----------------------------------------------------------------------------

/// Index of the SM that serves fiber `fiber_id` among `n` SMs.
pub open spec fn sm_index(fiber_id: usize, n: nat) -> int {
    fiber_id as int % n as int
}

/// The tile a fiber with this id is routed to among `tiles` tiles (at least one).
pub open spec fn tile_for(id: usize, tiles: usize) -> usize {
    (id % if tiles >= 1 {
        tiles
    } else {
        1
    }) as usize
}

#[derive(Debug)]
pub struct ComputeChip {
    pub sms: Vec<StreamingMultiprocessor>,
    pub tiles: usize,
}

impl ComputeChip {
    /// One SM per `sms_per_chip`, with ids `0..sms_per_chip`.
    pub fn new(parallelism: HardwareParallelismConfig, tiles: usize) -> (c: Self)
        ensures
            c.tiles == tiles,
            c.sms@.len() == parallelism.sms_per_chip,
            forall|k: int| 0 <= k < c.sms@.len() ==> is_fresh_sm(#[trigger] c.sms@[k], k as usize),
    {
        let mut sms: Vec<StreamingMultiprocessor> = Vec::with_capacity(parallelism.sms_per_chip);
        let mut id: usize = 0;
        while id < parallelism.sms_per_chip
            invariant
                id <= parallelism.sms_per_chip,
                sms@.len() == id,
                forall|k: int| 0 <= k < id ==> is_fresh_sm(#[trigger] sms@[k], k as usize),
            decreases parallelism.sms_per_chip - id,
        {
            sms.push(StreamingMultiprocessor::new(id));
            id = id + 1;
        }
        ComputeChip { sms, tiles }
    }

    /// The SM that serves a fiber: `fiber_id` modulo the number of SMs.
    pub fn select_sm_for_fiber(&mut self, fiber_id: usize) -> (sm: &mut StreamingMultiprocessor)
        requires
            old(self).sms@.len() > 0,
        ensures
            *sm == old(self).sms@[sm_index(fiber_id, old(self).sms@.len())],
            final(self).sms@ == old(self).sms@.update(
                sm_index(fiber_id, old(self).sms@.len()),
                *final(sm),
            ),
            final(self).tiles == old(self).tiles,
    {
        let idx = fiber_id % self.sms.len();
        &mut self.sms[idx]
    }

    /// Assigns the fiber to tile `id % tiles` (`tiles` taken as at least one).
    pub fn route_fiber_to_tile(&self, fiber: &mut MicroFiber)
        ensures
            *final(fiber) == (MicroFiber { tile_id: tile_for(old(fiber).id, self.tiles), ..*old(fiber) }),
    {
        let t = if self.tiles >= 1 {
            self.tiles
        } else {
            1
        };
        fiber.tile_id = fiber.id % t;
    }
}

} // verus!
