use syntheticmind_dax::sm_tile::{
    complete_micro_fiber_strand, plan_micro_fiber_strand, stage_micro_fiber_strand, AdaptiveNtHeuristic, BlockDeltaCore,
    CueBuffer, CueEvent, CueKind, DaxController, DeltaIndex, DeltaIndexTable, FiberL0Cache,
    FiberPerfCounters, HardwareCueBuffer, HardwareCueEntry, HardwareCueKind, MicroFiber,
    MicroFiberMode, MicroFiberScheduler, MicroFiberState, OverlaySram, PerfFlags, Region,
    Roundabout, StatePredictor, StrandWork, StreamingMultiprocessor, TileRouter, WarpScratchpad,
};

fn flags() -> PerfFlags {
    PerfFlags::default()
}

#[test]
fn generic_strand_plans_a_write() {
    let mut f = MicroFiber::new(0, MicroFiberMode::Generic, 0, 64, 0.5f32.to_bits(), 0);
    let mut sram = OverlaySram::new(128);
    sram.data[3] = 9;
    let mut perf = FiberPerfCounters::default();
    let mut sp = WarpScratchpad::new(256);
    let mut rb = Roundabout::default();
    let mut sm = StreamingMultiprocessor::new(0);
    let plan = plan_micro_fiber_strand(&mut f, &sram, &mut perf, &sp, &mut rb, &mut sm, flags());
    assert_eq!((plan.start, plan.end), (0, 64));
    assert_eq!(plan.work, StrandWork::Generic { write: true });
    assert!(plan.use_scratchpad);
    assert!(!plan.hot);
    assert!(!plan.apply_attention);
    assert_eq!(plan.tensor_split, None);
    assert_eq!(f.state, MicroFiberState::Running);
    assert_eq!(perf.total_elements_touched, 64);
    assert_eq!(perf.generic_steps, 1);
    assert_eq!(rb.delta_index.entries.len(), 1);
    assert_eq!(sm.delta_table.entries.len(), 1);
    assert_eq!(sm.adaptive_nt.counter, -1);
    assert_eq!(sp.as_slice()[3], 0);
    assert!(sm.is_hot_region(0, 64));
    sram.data[3] = 1;
    stage_micro_fiber_strand(&sram, &mut sp, &plan);
    assert_eq!(sp.as_slice()[3], 1);
    assert_eq!(sp.as_slice()[64], 0);
    sp.as_mut_slice()[4] = 7;
    complete_micro_fiber_strand(&mut f, &mut sram, &sp, &plan);
    assert_eq!(sram.data[3], 1);
    assert_eq!(sram.data[4], 7);
    assert_eq!(sram.data[64], 0);
    assert_eq!(f.state, MicroFiberState::Completed);
}

#[test]
fn scratchpad_write_back_keeps_the_sample_work() {
    let one = 1.0f32.to_bits();
    let mut f = MicroFiber::new(0, MicroFiberMode::Generic, 0, 32, one, 0);
    let mut sram = OverlaySram::new(32);
    let mut perf = FiberPerfCounters::default();
    let mut sp = WarpScratchpad::new(256);
    let mut rb = Roundabout::default();
    let mut sm = StreamingMultiprocessor::new(0);
    let plan = plan_micro_fiber_strand(&mut f, &sram, &mut perf, &sp, &mut rb, &mut sm, flags());
    assert!(plan.use_scratchpad);
    assert_eq!(plan.work, StrandWork::Generic { write: true });
    for v in sram.data[plan.start..plan.end].iter_mut() {
        *v = (f32::from_bits(*v) + 1.0).to_bits();
    }
    stage_micro_fiber_strand(&sram, &mut sp, &plan);
    complete_micro_fiber_strand(&mut f, &mut sram, &sp, &plan);
    assert!(sram.data.iter().all(|&b| b == one));
    assert_eq!(perf.generic_steps, 1);
    assert_eq!(f.state, MicroFiberState::Completed);
}

#[test]
fn strand_past_the_buffer_is_empty() {
    let mut f = MicroFiber::new(0, MicroFiberMode::Physics, 500, 64, 0.5f32.to_bits(), 0);
    let sram = OverlaySram::new(128);
    let mut perf = FiberPerfCounters::default();
    let mut sp = WarpScratchpad::new(256);
    let mut rb = Roundabout::default();
    let mut sm = StreamingMultiprocessor::new(0);
    let plan = plan_micro_fiber_strand(&mut f, &sram, &mut perf, &sp, &mut rb, &mut sm, flags());
    assert_eq!(plan.work, StrandWork::Empty);
    assert_eq!(perf.total_elements_touched, 0);
    assert!(rb.delta_index.entries.is_empty());
}

#[test]
fn zero_generic_delta_is_skipped() {
    let mut f = MicroFiber::new(0, MicroFiberMode::Generic, 0, 16, (-0.0f32).to_bits(), 0);
    let sram = OverlaySram::new(128);
    let mut perf = FiberPerfCounters::default();
    let mut sp = WarpScratchpad::new(256);
    let mut rb = Roundabout::default();
    let mut sm = StreamingMultiprocessor::new(0);
    let plan = plan_micro_fiber_strand(&mut f, &sram, &mut perf, &sp, &mut rb, &mut sm, flags());
    assert_eq!(plan.work, StrandWork::GenericSkipped);
    assert!(!plan.use_scratchpad);
    assert_eq!(perf.generic_steps, 0);
    assert_eq!(perf.total_elements_touched, 16);
}

#[test]
fn hot_region_turns_on_attention() {
    let mut sm = StreamingMultiprocessor::new(0);
    sm.update_delta_table_for_slice(0, 64, 1.0f32.to_bits());
    let mut f = MicroFiber::new(0, MicroFiberMode::Hybrid, 0, 64, 0.5f32.to_bits(), 0);
    let sram = OverlaySram::new(128);
    let mut perf = FiberPerfCounters::default();
    let mut sp = WarpScratchpad::new(255);
    let mut rb = Roundabout::default();
    let plan = plan_micro_fiber_strand(&mut f, &sram, &mut perf, &sp, &mut rb, &mut sm, flags());
    assert!(plan.hot);
    assert!(plan.apply_attention);
    assert_eq!(plan.tensor_split, Some(127));
    assert_eq!(plan.work, StrandWork::Hybrid);
    assert_eq!(perf.hybrid_steps, 1);
    let mut zc = flags();
    zc.zero_cost_mode = true;
    let mut g = MicroFiber::new(1, MicroFiberMode::Hybrid, 0, 64, 0.5f32.to_bits(), 0);
    let p2 = plan_micro_fiber_strand(&mut g, &sram, &mut perf, &sp, &mut rb, &mut sm, zc);
    assert!(!p2.hot && !p2.apply_attention);
    assert_eq!(perf.hybrid_steps, 2);
}

#[test]
fn speculative_fiber_is_snapshotted() {
    let mut f = MicroFiber::new(0, MicroFiberMode::Physics, 4, 8, 0.5f32.to_bits(), 0);
    f.speculative = true;
    f.rollback_allowed = true;
    let sram = OverlaySram::new(10);
    let mut perf = FiberPerfCounters::default();
    let mut sp = WarpScratchpad::new(256);
    let mut rb = Roundabout::default();
    let mut sm = StreamingMultiprocessor::new(0);
    let plan = plan_micro_fiber_strand(&mut f, &sram, &mut perf, &sp, &mut rb, &mut sm, flags());
    assert_eq!((plan.start, plan.end), (4, 10));
    assert_eq!(sm.speculative.snapshots.len(), 1);
    assert_eq!(sm.speculative.snapshots[0].start, 4);
    assert_eq!(sm.speculative.snapshots[0].len, 6);
}

#[test]
fn scheduler_run_steps() {
    let mut cores = vec![BlockDeltaCore::new(0), BlockDeltaCore::new(1)];
    let mut s = MicroFiberScheduler::new(&mut cores, 0);
    s.add_fiber(MicroFiber::new(0, MicroFiberMode::Generic, 0, 64, 1.0f32.to_bits(), 0));
    s.add_fiber(MicroFiber::new(1, MicroFiberMode::Physics, 64, 64, 1.0f32.to_bits(), 1));
    s.add_fiber(MicroFiber::new(2, MicroFiberMode::Hybrid, 128, 64, 1.0f32.to_bits(), 0));
    s.build_groups(16);
    let mut sram = OverlaySram::new(256);
    s.begin_run();
    assert_eq!(s.fibers[0].state, MicroFiberState::Running);
    assert_eq!(s.fibers[1].state, MicroFiberState::Running);
    assert_eq!(s.sm.cue_buffer.entries.len(), 3);
    let mut dispatched = 0;
    for g in 0..s.groups.len() {
        for l in 0..s.groups[g].fibers.len() {
            if let Some((fi, core, plan)) = s.dispatch_fiber(g, l, &sram, PerfFlags::default()) {
                assert_eq!(core, l % 2);
                stage_micro_fiber_strand(&sram, &mut s.scratchpad, &plan);
                s.finish_fiber(fi, &plan, &mut sram);
                dispatched += 1;
            }
        }
    }
    assert_eq!(dispatched, 3);
    s.end_run(&mut sram);
    assert_eq!(s.occupancy.completed_fibers, 3);
    assert_eq!(s.perf.total_elements_touched, 192);
    assert_eq!(s.l0_cache.is_hot(128, 64), true);
    assert_eq!(s.roundabout.cue_buffer.events.len(), 3);
}

#[test]
fn predictor_learns_both_ways() {
    let mut p = StatePredictor::new(2);
    assert!(!p.predict_hot(5, 7));
    p.update(5, 7, true, true);
    p.update(5, 7, true, true);
    assert!(p.predict_hot(5, 7));
    assert!(p.predict_nonzero(5, 7));
    p.update(5, 7, false, false);
    p.update(5, 7, false, false);
    assert!(!p.predict_hot(5, 7));
    assert!(!p.predict_nonzero(5, 7));
}

#[test]
fn nt_heuristic_score_and_decision() {
    let mut h = AdaptiveNtHeuristic::new();
    h.counter = 119;
    h.observe_streaming();
    assert_eq!(h.counter, 121);
    h.observe_streaming();
    assert_eq!(h.counter, 121);
    h.counter = -120;
    h.observe_reuse();
    assert_eq!(h.counter, -120);
    h.counter = 1;
    let f = PerfFlags::default();
    assert!(!h.should_use_nt(255, true, f));
    assert!(h.should_use_nt(256, true, f));
    assert!(!h.should_use_nt(256, false, f));
    let mut fixed = f;
    fixed.adaptive_nt_enabled = false;
    assert!(h.should_use_nt(256, false, fixed));
    fixed.non_temporal_stores = false;
    assert!(!h.should_use_nt(4096, true, fixed));
}

#[test]
fn index_tables_and_cues() {
    let mut di = DeltaIndex::default();
    di.record(0, 8, 0.0f32.to_bits());
    assert!(!di.is_hot_region(0, 8));
    di.record(0, 8, f32::NAN.to_bits());
    assert!(!di.is_hot_region(0, 8));
    di.record(0, 8, (-3.0f32).to_bits());
    assert!(di.is_hot_region(0, 8));
    let mut t = DeltaIndexTable::new(4);
    t.record(5, 8, 1.0f32.to_bits());
    assert!(t.is_hot_region(5, 8));
    assert!(!t.is_hot_region(5, 9));
    t.clear();
    assert!(!t.is_hot_region(5, 8));
    let mut l0 = FiberL0Cache::new();
    l0.record_range(3, 4);
    assert!(l0.is_hot(3, 4));
    assert!(!l0.is_hot(4, 3));
    let mut cb = CueBuffer::default();
    cb.push(CueEvent { fiber_id: 1, kind: CueKind::Algebra, start: 0, len: 1, delta_bits: 0 });
    assert_eq!(cb.drain().len(), 1);
    assert!(cb.events.is_empty());
    let mut hb = HardwareCueBuffer::new(2);
    hb.push(HardwareCueEntry { fiber_id: 1, kind: HardwareCueKind::Delta, start: 0, len: 1, delta_bits: 0 });
    assert_eq!(hb.drain().len(), 1);
    hb.push(HardwareCueEntry { fiber_id: 2, kind: HardwareCueKind::Physics, start: 0, len: 1, delta_bits: 0 });
    hb.clear();
    assert!(hb.entries.is_empty());
    let mut rb = Roundabout::default();
    rb.enqueue_fiber(&MicroFiber::new(4, MicroFiberMode::Generic, 1, 2, 7, 0));
    assert_eq!(rb.cue_buffer.events[0].kind, CueKind::Delta);
    rb.record_delta_region(1, 2, 1.0f32.to_bits());
    assert!(rb.is_hot_region(1, 2));
}

#[test]
fn sm_gates_for_attention_and_tensor() {
    let sm = StreamingMultiprocessor::new(0);
    let f = PerfFlags::default();
    assert!(sm.attention_applies(f, 16));
    assert!(!sm.attention_applies(f, 15));
    assert_eq!(sm.tensor_core_split(f, 255), Some(127));
    assert_eq!(sm.tensor_core_split(f, 256), None);
    assert_eq!(sm.tensor_core_split(f, 31), None);
}

#[test]
fn controller_orders_hottest_first() {
    let mut c = DaxController::new();
    c.record_hotness(7, true);
    c.record_hotness(7, true);
    c.record_hotness(3, true);
    c.record_hotness(3, true);
    c.record_hotness(3, true);
    c.record_hotness(3, true);
    assert_eq!(c.hotness_of(3), 3);
    c.record_hotness(1, false);
    assert_eq!(c.hotness_of(1), 0);
    assert_eq!(c.hotness_of(1000), 0);
    let regions: Vec<Region> = [1, 7, 2, 3, 0].iter().map(|&id| Region { id }).collect();
    let ordered: Vec<usize> = c.order_regions(&regions).iter().map(|r| r.id).collect();
    assert_eq!(ordered, vec![3, 7, 0, 1, 2]);
    assert!(c.tracks_overlay(32));
    assert!(!c.tracks_overlay(31));
    assert!(!c.tracks_overlay(0));
    assert_eq!(c.warps(19), vec![(0, 8), (8, 16), (16, 19)]);
    assert!(c.warps(0).is_empty());
    assert_eq!(c.last_delta_of(9), 0);
    c.set_last_delta(9, 2.0f32.to_bits());
    assert_eq!(c.last_delta_of(9), 2.0f32.to_bits());
}

#[test]
fn router_splits_regions() {
    let mut r = TileRouter::new(128);
    assert_eq!(r.region_bounds(1, 200), (128, 200));
    assert_eq!(r.region_bounds(5, 200), (640, 200));
    let regions = vec![Region { id: 4 }, Region { id: 9 }];
    r.route_regions(&regions, &[true, false], &[false, false]);
    assert_eq!(r.incoming_rt.active_regions, vec![4]);
    assert_eq!(r.incoming_rt.cold_regions, vec![9]);
    assert_eq!(r.outgoing_rt.cold_regions, vec![4, 9]);
    assert!(r.outgoing_rt.active_regions.is_empty());
}

#[test]
fn controller_noise_threshold_is_thirty_two() {
    assert_eq!(DaxController::new().min_tracked_len(), 32);
}

#[test]
fn predictor_hot_learning_ignores_nonzero_outcomes() {
    let mut p = StatePredictor::new(3);
    p.update(9, 40, true, false);
    p.update(9, 40, true, true);
    assert!(p.predict_hot(9, 40));
    p.update(9, 40, false, true);
    p.update(9, 40, false, true);
    assert!(!p.predict_hot(9, 40));
    assert!(p.predict_nonzero(9, 40));
}
