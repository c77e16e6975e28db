use vstd::prelude::*;
use crate::float_bits::{is_zero, is_zero_spec};
use crate::sm_tile::overlay_sram::OverlaySram;
use super::fiber::{with_state, MicroFiber, MicroFiberMode, MicroFiberState};
use super::flags::PerfFlags;
use super::hardware::{copy_prefix, WarpScratchpad};
use super::predictor::{bump_at, hot_slot, nonzero_slot};
use super::sm_unit::{snapshot_of, StreamingMultiprocessor};
use super::tables::{
    index_has_hot, table_has_hot, CueEvent, DeltaIndexEntry, DeltaIndexTableEntry, FiberPerfCounters,
    Roundabout,
};

verus! {

/// The sample work a strand leaves to the caller once its control state is updated.
#[derive(Clone, Copy, Debug, PartialEq, Eq, Structural)]
pub enum StrandWork {
    /// The fiber's range is empty once cut to the buffer: no work.
    Empty,
    /// Generic fiber whose delta is zero and predicted zero: no work.
    GenericSkipped,
    /// Generic fiber: the core's accumulator takes `delta * len`; when `write` (the delta
    /// is non-zero) the delta is also added to every sample of the range.
    Generic { write: bool },
    /// A physics block step over the range with time step `delta`.
    Physics,
    /// A physics block step, then the bridge callback, then `delta * len` into the
    /// core's accumulator.
    Hybrid,
}

/// What a strand decided: the range `[start, end)` of the unified buffer, the delta (f32
/// bits), whether the scratchpad mirrors the range, whether the range is hot, whether the
/// attention unit and the tensor core run over the scratchpad (the latter split at the
/// given midpoint), and the sample work.
#[derive(Clone, Copy, Debug, PartialEq, Eq, Structural)]
pub struct StrandPlan {
    pub start: usize,
    pub end: usize,
    pub delta_bits: u32,
    pub use_scratchpad: bool,
    pub hot: bool,
    pub apply_attention: bool,
    pub tensor_split: Option<usize>,
    pub work: StrandWork,
}

/// The fiber's range cut to a buffer of `n` samples.
pub open spec fn strand_span(f: MicroFiber, n: nat) -> (int, int) {
    let s = if f.start <= n {
        f.start as int
    } else {
        n as int
    };
    let e = if s + f.len <= n {
        s + f.len
    } else {
        n as int
    };
    (s, e)
}

/// The strand's decisions, from the fiber, the buffer length, the scratchpad length, the
/// roundabout's delta index, the SM's state and the switches.
pub open spec fn strand_plan(
    f: MicroFiber,
    n: nat,
    sp_len: nat,
    rb: Seq<DeltaIndexEntry>,
    sm: StreamingMultiprocessor,
    flags: PerfFlags,
) -> StrandPlan {
    let (s, e) = strand_span(f, n);
    let len = (e - s) as usize;
    if s >= e {
        StrandPlan {
            start: s as usize,
            end: e as usize,
            delta_bits: f.delta_bits,
            use_scratchpad: false,
            hot: false,
            apply_attention: false,
            tensor_split: None,
            work: StrandWork::Empty,
        }
    } else {
        let mask = sm.predictor.mask();
        let predicted_hot = sm.predictor.counters()[hot_slot(s as usize, len, mask) as int] >= 2;
        let predicted_nonzero = sm.predictor.counters()[nonzero_slot(s as usize, len, mask) as int]
            >= 2;
        let use_sp = !flags.skip_scratchpad_for_small || len >= 32;
        let zc = flags.zero_cost_mode;
        let hot = !zc && (table_has_hot(sm.delta_table.entries@, s as usize, len) || index_has_hot(
            rb,
            s as usize,
            len,
        ) || predicted_hot);
        let work = match f.mode {
            MicroFiberMode::Generic => if is_zero_spec(f.delta_bits) && !predicted_nonzero {
                StrandWork::GenericSkipped
            } else {
                StrandWork::Generic { write: !is_zero_spec(f.delta_bits) }
            },
            MicroFiberMode::Physics => StrandWork::Physics,
            MicroFiberMode::Hybrid => StrandWork::Hybrid,
        };
        StrandPlan {
            start: s as usize,
            end: e as usize,
            delta_bits: f.delta_bits,
            use_scratchpad: use_sp,
            hot,
            apply_attention: use_sp && hot && sm.attention_cfg.enabled && !(
            flags.skip_scratchpad_for_small && sp_len < 16),
            tensor_split: if use_sp && hot && sm.tensor_cfg.enabled && sp_len >= 32 && sp_len % 2
                == 1 {
                Some((sp_len / 2) as usize)
            } else {
                None
            },
            work,
        }
    }
}

/// Whether the strand saw a non-zero delta, as the predictor is trained.
pub open spec fn observed_nonzero(w: StrandWork) -> bool {
    match w {
        StrandWork::GenericSkipped => false,
        StrandWork::Generic { write } => write,
        _ => true,
    }
}

/// Whether the work counts as a step and is recorded in the delta indexes.
pub open spec fn is_step(w: StrandWork) -> bool {
    !(w == StrandWork::Empty || w == StrandWork::GenericSkipped)
}

/// The perf counters after the strand.
pub open spec fn strand_perf(p: FiberPerfCounters, plan: StrandPlan) -> FiberPerfCounters {
    if plan.work == StrandWork::Empty {
        p
    } else {
        FiberPerfCounters {
            total_elements_touched: (p.total_elements_touched + (plan.end - plan.start)) as u64,
            generic_steps: if plan.work is Generic {
                (p.generic_steps + 1) as u64
            } else {
                p.generic_steps
            },
            physics_steps: if plan.work == StrandWork::Physics {
                (p.physics_steps + 1) as u64
            } else {
                p.physics_steps
            },
            hybrid_steps: if plan.work == StrandWork::Hybrid {
                (p.hybrid_steps + 1) as u64
            } else {
                p.hybrid_steps
            },
        }
    }
}

/// The counters do not overflow on this strand.
pub open spec fn strand_perf_fits(p: FiberPerfCounters, plan: StrandPlan) -> bool {
    plan.work != StrandWork::Empty ==> {
        &&& p.total_elements_touched + (plan.end - plan.start) <= u64::MAX
        &&& plan.work is Generic ==> p.generic_steps < u64::MAX
        &&& plan.work == StrandWork::Physics ==> p.physics_steps < u64::MAX
        &&& plan.work == StrandWork::Hybrid ==> p.hybrid_steps < u64::MAX
    }
}

/// The scratchpad once a strand's range is staged into it: cleared, then holding the
/// range's samples (as many as fit), when the plan mirrors the range; as it was otherwise.
pub open spec fn staged(sp: Seq<u32>, data: Seq<u32>, plan: StrandPlan) -> Seq<u32> {
    if plan.work != StrandWork::Empty && plan.use_scratchpad {
        copy_prefix(Seq::new(sp.len(), |i: int| 0u32), data.subrange(plan.start as int, plan.end as int))
    } else {
        sp
    }
}

/// The unified buffer once a strand's scratchpad is written back: the start of the range
/// takes the scratchpad's samples when the plan mirrors the range.
pub open spec fn written_back(data: Seq<u32>, sp: Seq<u32>, plan: StrandPlan) -> Seq<u32> {
    if plan.work != StrandWork::Empty && plan.use_scratchpad {
        data.subrange(0, plan.start as int) + copy_prefix(
            data.subrange(plan.start as int, plan.end as int),
            sp,
        ) + data.subrange(plan.end as int, data.len() as int)
    } else {
        data
    }
}

/// What a strand does to the state it is handed, given its plan.
pub open spec fn strand_effects(
    f0: MicroFiber,
    f1: MicroFiber,
    data: Seq<u32>,
    p0: FiberPerfCounters,
    p1: FiberPerfCounters,
    cues0: Seq<CueEvent>,
    cues1: Seq<CueEvent>,
    idx0: Seq<DeltaIndexEntry>,
    idx1: Seq<DeltaIndexEntry>,
    sm0: StreamingMultiprocessor,
    sm1: StreamingMultiprocessor,
    flags: PerfFlags,
    plan: StrandPlan,
) -> bool {
    &&& f1 == with_state(f0, MicroFiberState::Running)
    &&& p1 == strand_perf(p0, plan)
    &&& cues1 == cues0
    &&& idx1 == (if is_step(plan.work) && !flags.zero_cost_mode {
        idx0.push(
            DeltaIndexEntry {
                start: plan.start,
                len: (plan.end - plan.start) as usize,
                magnitude_bits: plan.delta_bits,
            },
        )
    } else {
        idx0
    })
    &&& sm1.delta_table.entries@ == (if is_step(plan.work) && !flags.zero_cost_mode {
        sm0.delta_table.entries@.push(
            DeltaIndexTableEntry {
                start: plan.start as u32,
                len: (plan.end - plan.start) as u32,
                magnitude_bits: plan.delta_bits,
            },
        )
    } else {
        sm0.delta_table.entries@
    })
    &&& sm1.speculative.snaps() == (if plan.work != StrandWork::Empty && f0.speculative
        && f0.rollback_allowed && !flags.zero_cost_mode {
        match snapshot_of(data, plan.start, f0.len) {
            Some(snap) => sm0.speculative.snaps().push(snap),
            None => sm0.speculative.snaps(),
        }
    } else {
        sm0.speculative.snaps()
    })
    &&& sm1.adaptive_nt.counter == (if plan.work == (StrandWork::Generic { write: true }) {
        if plan.end - plan.start >= 256 {
            if sm0.adaptive_nt.counter < 120 {
                sm0.adaptive_nt.counter + 2
            } else {
                sm0.adaptive_nt.counter as int
            }
        } else {
            if sm0.adaptive_nt.counter > -120 {
                sm0.adaptive_nt.counter - 1
            } else {
                sm0.adaptive_nt.counter as int
            }
        }
    } else {
        sm0.adaptive_nt.counter as int
    })
    &&& sm1.wf()
    &&& sm1.predictor.mask() == sm0.predictor.mask()
    &&& sm1.predictor.counters() == (if plan.work == StrandWork::Empty {
        sm0.predictor.counters()
    } else {
        bump_at(
            bump_at(
                sm0.predictor.counters(),
                hot_slot(plan.start, (plan.end - plan.start) as usize, sm0.predictor.mask()) as int,
                plan.hot,
            ),
            nonzero_slot(plan.start, (plan.end - plan.start) as usize, sm0.predictor.mask())
                as int,
            observed_nonzero(plan.work),
        )
    })
    &&& sm1.cue_buffer.entries@ == sm0.cue_buffer.entries@
    &&& sm1.dma.queue@ == sm0.dma.queue@
    &&& sm1.warp_sched == sm0.warp_sched
    &&& sm1.tensor_cfg == sm0.tensor_cfg
    &&& sm1.attention_cfg == sm0.attention_cfg
    &&& sm1.quant_mode == sm0.quant_mode
    &&& sm1.id == sm0.id
    &&& sm1.parallelism == sm0.parallelism
    &&& sm1.scratchpad == sm0.scratchpad
    &&& sm1.alu_caps == sm0.alu_caps
    &&& sm1.fabric == sm0.fabric
}

/// Runs the control side of one micro-fiber strand: marks the fiber running, cuts its
/// range to the buffer, snapshots it for a speculative fiber, counts the touched samples,
/// decides whether the scratchpad mirrors the range and whether the range is hot (from
/// the delta indexes and the predictor), counts the step and records the delta for the
/// mode, adapts the streaming score for a generic write, and trains the predictor. The
/// caller then does the sample work the plan names on the buffer, stages the worked range
/// into the scratchpad (`stage_micro_fiber_strand`), runs the attention and tensor passes
/// the plan names over it, and finishes with `complete_micro_fiber_strand`.
pub fn plan_micro_fiber_strand(
    fiber: &mut MicroFiber,
    sram: &OverlaySram,
    perf: &mut FiberPerfCounters,
    scratchpad: &WarpScratchpad,
    roundabout: &mut Roundabout,
    sm: &mut StreamingMultiprocessor,
    flags: PerfFlags,
) -> (plan: StrandPlan)
    requires
        old(sm).wf(),
        strand_span(*old(fiber), sram.data@.len()).0 + old(fiber).len <= usize::MAX,
        strand_perf_fits(
            *old(perf),
            strand_plan(
                *old(fiber),
                sram.data@.len(),
                scratchpad.contents().len(),
                old(roundabout).delta_index.entries@,
                *old(sm),
                flags,
            ),
        ),
    ensures
        plan == strand_plan(
            *old(fiber),
            sram.data@.len(),
            scratchpad.contents().len(),
            old(roundabout).delta_index.entries@,
            *old(sm),
            flags,
        ),
        strand_effects(
            *old(fiber),
            *final(fiber),
            sram.data@,
            *old(perf),
            *final(perf),
            old(roundabout).cue_buffer.events@,
            final(roundabout).cue_buffer.events@,
            old(roundabout).delta_index.entries@,
            final(roundabout).delta_index.entries@,
            *old(sm),
            *final(sm),
            flags,
            plan,
        ),
{
    fiber.mark_running();
    let n = sram.data.len();
    let start = if fiber.start <= n {
        fiber.start
    } else {
        n
    };
    let end = if start + fiber.len <= n {
        start + fiber.len
    } else {
        n
    };
    if start >= end {
        return StrandPlan {
            start,
            end,
            delta_bits: fiber.delta_bits,
            use_scratchpad: false,
            hot: false,
            apply_attention: false,
            tensor_split: None,
            work: StrandWork::Empty,
        };
    }
    if fiber.speculative && fiber.rollback_allowed && !flags.zero_cost_mode {
        sm.speculative.snapshot_region(sram, start, fiber.len);
    }
    let len = end - start;
    perf.total_elements_touched = perf.total_elements_touched + len as u64;

    let predicted_hot = sm.predictor.predict_hot(start, len);
    let predicted_nonzero = sm.predictor.predict_nonzero(start, len);

    let use_scratchpad = if flags.skip_scratchpad_for_small {
        len >= 32
    } else {
        true
    };

    let hot = if flags.zero_cost_mode {
        false
    } else {
        let observed_hot = sm.is_hot_region(start, len) || roundabout.is_hot_region(start, len);
        observed_hot || predicted_hot
    };

    let sp_len = scratchpad.as_slice().len();
    let apply_attention = use_scratchpad && !flags.zero_cost_mode && hot && sm.attention_applies(
        flags,
        sp_len,
    );

    let delta_bits = fiber.delta_bits;
    let (work, observed) = match fiber.mode {
        MicroFiberMode::Generic => {
            let delta_zero = is_zero(delta_bits);
            if delta_zero && !predicted_nonzero {
                (StrandWork::GenericSkipped, false)
            } else {
                let did_write = !delta_zero;
                if did_write {
                    if len >= 256 {
                        sm.adaptive_nt.observe_streaming();
                    } else {
                        sm.adaptive_nt.observe_reuse();
                    }
                }
                perf.generic_steps = perf.generic_steps + 1;
                if !flags.zero_cost_mode {
                    roundabout.record_delta_region(start, len, delta_bits);
                    sm.update_delta_table_for_slice(start, len, delta_bits);
                }
                (StrandWork::Generic { write: did_write }, did_write)
            }
        },
        MicroFiberMode::Physics => {
            perf.physics_steps = perf.physics_steps + 1;
            if !flags.zero_cost_mode {
                roundabout.record_delta_region(start, len, delta_bits);
                sm.update_delta_table_for_slice(start, len, delta_bits);
            }
            (StrandWork::Physics, true)
        },
        MicroFiberMode::Hybrid => {
            perf.hybrid_steps = perf.hybrid_steps + 1;
            if !flags.zero_cost_mode {
                roundabout.record_delta_region(start, len, delta_bits);
                sm.update_delta_table_for_slice(start, len, delta_bits);
            }
            (StrandWork::Hybrid, true)
        },
    };

    let tensor_split = if use_scratchpad && !flags.zero_cost_mode && hot {
        sm.tensor_core_split(flags, sp_len)
    } else {
        None
    };

    sm.predictor.update(start, len, hot, observed);

    StrandPlan {
        start,
        end,
        delta_bits,
        use_scratchpad,
        hot,
        apply_attention,
        tensor_split,
        work,
    }
}

/// Stages a strand's range for the scratchpad passes, after the caller's sample work on
/// the buffer: when the plan mirrors the range, the scratchpad is cleared and takes the
/// range's samples (as many as fit), so that the attention and tensor passes run on the
/// worked samples.
pub fn stage_micro_fiber_strand(sram: &OverlaySram, scratchpad: &mut WarpScratchpad, plan: &StrandPlan)
    requires
        plan.work != StrandWork::Empty ==> plan.start <= plan.end <= sram.data@.len(),
    ensures
        final(scratchpad).contents() == staged(old(scratchpad).contents(), sram.data@, *plan),
{
    if plan.work != StrandWork::Empty && plan.use_scratchpad {
        scratchpad.clear();
        scratchpad.load_from_range(&sram.data, plan.start, plan.end);
    }
}

/// Finishes a strand after its scratchpad passes: the scratchpad is written back over the
/// start of the range when it mirrors it (the rest of the range keeps the sample work),
/// and the fiber is marked completed.
pub fn complete_micro_fiber_strand(
    fiber: &mut MicroFiber,
    sram: &mut OverlaySram,
    scratchpad: &WarpScratchpad,
    plan: &StrandPlan,
)
    requires
        plan.work != StrandWork::Empty ==> plan.start <= plan.end <= old(sram).data@.len(),
    ensures
        *final(fiber) == with_state(*old(fiber), MicroFiberState::Completed),
        final(sram).data@ == written_back(old(sram).data@, scratchpad.contents(), *plan),
        final(sram).incoming@ == old(sram).incoming@,
        final(sram).outgoing@ == old(sram).outgoing@,
        final(sram).heatmap_short@ == old(sram).heatmap_short@,
        final(sram).heatmap_mid@ == old(sram).heatmap_mid@,
        final(sram).heatmap_long@ == old(sram).heatmap_long@,
        final(sram).active_chunks@ == old(sram).active_chunks@,
        final(sram).chunk_size == old(sram).chunk_size,
{
    if plan.work != StrandWork::Empty && plan.use_scratchpad {
        scratchpad.store_into_range(&mut sram.data, plan.start, plan.end);
    }
    fiber.mark_completed();
}

/// A strand's plan carries its fiber's delta bit for bit (sign included) over the fiber's
/// range cut to the buffer, and a generic fiber with a non-zero delta over a non-empty
/// range writes that delta.
pub proof fn law_plan_keeps_fiber_delta(
    f: MicroFiber,
    n: nat,
    sp_len: nat,
    rb: Seq<DeltaIndexEntry>,
    sm: StreamingMultiprocessor,
    flags: PerfFlags,
)
    requires
        n <= usize::MAX,
    ensures
        strand_plan(f, n, sp_len, rb, sm, flags).delta_bits == f.delta_bits,
        strand_plan(f, n, sp_len, rb, sm, flags).start == (if f.start <= n {
            f.start as int
        } else {
            n as int
        }),
        strand_plan(f, n, sp_len, rb, sm, flags).end == (if f.start <= n && f.start + f.len <= n {
            f.start + f.len
        } else {
            n as int
        }),
        f.mode == MicroFiberMode::Generic && !is_zero_spec(f.delta_bits) && f.start < n && f.len
            > 0 ==> strand_plan(f, n, sp_len, rb, sm, flags).work == (StrandWork::Generic {
            write: true,
        }),
{
}

/// The scratchpad never discards a strand's work: staging the worked range and writing
/// the scratchpad back with no pass in between leaves the buffer exactly as the sample
/// work made it.
pub proof fn law_write_back_keeps_staged_work(data: Seq<u32>, sp: Seq<u32>, plan: StrandPlan)
    requires
        plan.work != StrandWork::Empty ==> plan.start <= plan.end <= data.len(),
    ensures
        written_back(data, staged(sp, data, plan), plan) == data,
{
    if plan.work != StrandWork::Empty && plan.use_scratchpad {
        let r = data.subrange(plan.start as int, plan.end as int);
        let z = Seq::new(sp.len(), |i: int| 0u32);
        let inner = copy_prefix(z, r);
        assert(copy_prefix(r, inner) =~= r);
        assert(data.subrange(0, plan.start as int) + r + data.subrange(
            plan.end as int,
            data.len() as int,
        ) =~= data);
    }
}

} // verus!
