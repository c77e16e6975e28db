use syntheticmind_dax::sm_tile::{
    fusion_fits_check, AluCapabilities, QuantMode, BlockDeltaCore, ComputeChip, DeltaMode, FiberFusionConfig, FiberFusionController,
    HardwareParallelismConfig, MicroFiber, MicroFiberGroup, MicroFiberMode, MicroFiberPriority,
    MicroFiberScheduler, MicroFiberState, OccupancyTracker, StreamingMultiprocessor,
};

fn fiber(id: usize, mode: MicroFiberMode, start: usize, len: usize, tile: usize) -> MicroFiber {
    MicroFiber::new(id, mode, start, len, 0.25f32.to_bits(), tile)
}

#[test]
fn new_fiber_is_ready_with_mode_priority() {
    let f = fiber(7, MicroFiberMode::Hybrid, 3, 40, 2);
    assert_eq!(f.state, MicroFiberState::Ready);
    assert_eq!(f.priority, MicroFiberPriority::Hybrid);
    assert!(!f.speculative && !f.rollback_allowed);
    assert_eq!(f.delta_bits, 0.25f32.to_bits());
    assert_eq!(fiber(1, MicroFiberMode::Physics, 0, 1, 0).priority, MicroFiberPriority::Physics);
    assert_eq!(fiber(1, MicroFiberMode::Generic, 0, 1, 0).priority, MicroFiberPriority::Generic);
}

#[test]
fn fiber_state_and_tiny_limit() {
    let mut f = fiber(0, MicroFiberMode::Generic, 0, 32, 0);
    assert!(f.is_tiny());
    assert!(!fiber(0, MicroFiberMode::Generic, 0, 33, 0).is_tiny());
    assert!(f.is_ready());
    f.mark_running();
    assert_eq!(f.state, MicroFiberState::Running);
    assert!(!f.is_ready());
    f.mark_completed();
    assert_eq!(f.state, MicroFiberState::Completed);
}

#[test]
fn group_collects_indices() {
    let mut g = MicroFiberGroup::new(3);
    g.add_fiber_index(5);
    g.add_fiber_index(1);
    assert_eq!(g.id, 3);
    assert_eq!(g.fibers, vec![5, 1]);
}

#[test]
fn fusion_merges_runs_of_tiny_fibers() {
    let ctl = FiberFusionController::new(FiberFusionConfig::default());
    let mut fs = vec![
        fiber(0, MicroFiberMode::Physics, 0, 10, 0),
        fiber(1, MicroFiberMode::Generic, 10, 10, 0),
        fiber(2, MicroFiberMode::Generic, 20, 100, 0),
        fiber(3, MicroFiberMode::Hybrid, 120, 10, 0),
        fiber(4, MicroFiberMode::Hybrid, 130, 5, 0),
        fiber(5, MicroFiberMode::Generic, 135, 7, 0),
    ];
    ctl.fuse_fibers(&mut fs);
    assert_eq!(fs.len(), 3);
    assert_eq!(fs[0].id, 2);
    assert_eq!(fs[0].len, 100);
    assert_eq!(fs[1].id, 0);
    assert_eq!(fs[1].mode, MicroFiberMode::Physics);
    assert_eq!(fs[1].start, 0);
    assert_eq!(fs[1].len, 35);
    assert_eq!(fs[2].id, 5);
    let total: usize = fs.iter().map(|f| f.len).sum();
    assert_eq!(total, 142);
}

#[test]
fn fusion_keeps_priority_of_first() {
    let ctl = FiberFusionController::new(FiberFusionConfig { max_tiny_len: 8, min_fibers_to_fuse: 2 });
    let mut a = fiber(0, MicroFiberMode::Generic, 0, 4, 3);
    a.priority = MicroFiberPriority::Physics;
    a.state = MicroFiberState::Completed;
    let mut fs = vec![a, fiber(1, MicroFiberMode::Hybrid, 4, 4, 0)];
    ctl.fuse_fibers(&mut fs);
    assert_eq!(fs.len(), 1);
    assert_eq!(fs[0].priority, MicroFiberPriority::Physics);
    assert_eq!(fs[0].state, MicroFiberState::Ready);
    assert_eq!(fs[0].tile_id, 3);
    assert_eq!(fs[0].len, 8);
}

#[test]
fn scheduler_fuses_tiny_fibers_in_fours() {
    let mut cores = vec![BlockDeltaCore::new(0)];
    let mut s = MicroFiberScheduler::new(&mut cores, 0);
    for i in 0..5 {
        s.add_fiber(fiber(i, MicroFiberMode::Generic, i * 4, 4, 0));
    }
    s.fuse_tiny_fibers(4);
    assert_eq!(s.fibers.len(), 2);
    assert_eq!(s.fibers[0].len, 16);
    assert_eq!(s.fibers[1].id, 4);
}

#[test]
fn groups_follow_priority_then_order() {
    let mut cores = vec![BlockDeltaCore::new(0)];
    let mut s = MicroFiberScheduler::new(&mut cores, 0);
    s.add_fiber(fiber(0, MicroFiberMode::Hybrid, 0, 64, 0));
    s.add_fiber(fiber(1, MicroFiberMode::Generic, 0, 64, 0));
    s.add_fiber(fiber(2, MicroFiberMode::Physics, 0, 64, 0));
    s.add_fiber(fiber(3, MicroFiberMode::Generic, 0, 64, 0));
    s.add_fiber(fiber(4, MicroFiberMode::Physics, 0, 64, 0));
    s.fibers[3].state = MicroFiberState::Completed;
    s.build_groups(2);
    let got: Vec<(usize, Vec<usize>)> = s.groups.iter().map(|g| (g.id, g.fibers.clone())).collect();
    assert_eq!(got, vec![(0, vec![2, 4]), (1, vec![1, 3]), (2, vec![0])]);
    assert_eq!(s.occupancy.total_groups, 3);
    assert_eq!(s.occupancy.active_fibers, 4);
    assert_eq!(s.occupancy.completed_fibers, 1);
}

#[test]
fn group_size_zero_opens_with_an_empty_group() {
    let mut cores = vec![BlockDeltaCore::new(0)];
    let mut s = MicroFiberScheduler::new(&mut cores, 0);
    s.add_fiber(fiber(0, MicroFiberMode::Generic, 0, 64, 0));
    s.add_fiber(fiber(1, MicroFiberMode::Generic, 0, 64, 0));
    s.build_groups(0);
    assert_eq!(s.groups.len(), 2);
    assert!(s.groups[0].fibers.is_empty());
    assert_eq!(s.groups[1].fibers, vec![0, 1]);
}

#[test]
fn migration_logs_routes() {
    let mut cores = vec![BlockDeltaCore::new(0)];
    let mut s = MicroFiberScheduler::new(&mut cores, 0);
    s.add_fiber(fiber(10, MicroFiberMode::Generic, 0, 64, 2));
    s.add_fiber(fiber(11, MicroFiberMode::Generic, 0, 64, 0));
    let mut running = fiber(12, MicroFiberMode::Generic, 0, 64, 3);
    running.mark_running();
    s.add_fiber(running);
    s.migrate_fibers_between_tiles(0);
    assert_eq!(s.fibers[0].state, MicroFiberState::Completed);
    assert_eq!(s.fibers[1].state, MicroFiberState::Ready);
    assert_eq!(s.fibers[2].state, MicroFiberState::Running);
    assert_eq!(s.routing.routes.len(), 1);
    assert_eq!(s.routing.routes[0].fiber_id, 10);
    assert_eq!(s.routing.routes[0].from_tile, 0);
    assert_eq!(s.routing.routes[0].to_tile, 2);
}

#[test]
fn stealing_moves_ready_fibers_last_first() {
    let mut ca = vec![BlockDeltaCore::new(0)];
    let mut cb = vec![BlockDeltaCore::new(1)];
    let mut thief = MicroFiberScheduler::new(&mut ca, 0);
    let mut victim = MicroFiberScheduler::new(&mut cb, 1);
    victim.add_fiber(fiber(0, MicroFiberMode::Generic, 0, 64, 0));
    victim.add_fiber(fiber(1, MicroFiberMode::Generic, 0, 64, 1));
    victim.add_fiber(fiber(2, MicroFiberMode::Physics, 0, 64, 0));
    victim.add_fiber(fiber(3, MicroFiberMode::Hybrid, 0, 64, 0));
    thief.add_fiber(fiber(9, MicroFiberMode::Generic, 0, 64, 0));
    thief.steal_fibers_from(&mut victim, 2);
    let got: Vec<(usize, usize)> = thief.fibers.iter().map(|f| (f.id, f.tile_id)).collect();
    assert_eq!(got, vec![(9, 0), (2, 0), (0, 0)]);
    let left: Vec<usize> = victim.fibers.iter().map(|f| f.id).collect();
    assert_eq!(left, vec![1, 3]);
    assert_eq!(thief.occupancy.active_fibers, 3);
    assert_eq!(victim.occupancy.active_fibers, 2);
}

#[test]
fn sm_issues_at_most_eight_ready_fibers() {
    let mut sm = StreamingMultiprocessor::new(0);
    let mut fs: Vec<MicroFiber> = (0..10).map(|i| fiber(i, MicroFiberMode::Physics, i, 1, 0)).collect();
    fs[1].mark_completed();
    sm.issue_warps_non_blocking(&mut fs);
    let running = fs.iter().filter(|f| f.state == MicroFiberState::Running).count();
    assert_eq!(running, 8);
    assert_eq!(sm.cue_buffer.entries.len(), 8);
    assert_eq!(sm.cue_buffer.entries[1].fiber_id, 2);
    assert_eq!(fs[9].state, MicroFiberState::Ready);
    let mut off = StreamingMultiprocessor::new(0);
    off.warp_sched.non_blocking_roundabout = false;
    let mut gs: Vec<MicroFiber> = (0..3).map(|i| fiber(i, MicroFiberMode::Physics, i, 1, 0)).collect();
    off.issue_warps_non_blocking(&mut gs);
    assert!(gs.iter().all(|f| f.state == MicroFiberState::Ready));
    assert!(off.cue_buffer.entries.is_empty());
}

#[test]
fn chip_selects_sm_and_routes_tiles() {
    let mut chip = ComputeChip::new(HardwareParallelismConfig::default(), 4);
    assert_eq!(chip.sms.len(), 80);
    assert_eq!(chip.select_sm_for_fiber(83).id, 3);
    let mut f = fiber(10, MicroFiberMode::Generic, 0, 1, 0);
    chip.route_fiber_to_tile(&mut f);
    assert_eq!(f.tile_id, 2);
    let none = ComputeChip::new(HardwareParallelismConfig { fibers_per_warp: 1, warps_per_sm: 1, sms_per_chip: 1 }, 0);
    none.route_fiber_to_tile(&mut f);
    assert_eq!(f.tile_id, 0);
}

#[test]
fn occupancy_counts_states() {
    let mut t = OccupancyTracker::default();
    let mut fs: Vec<MicroFiber> = (0..4).map(|i| fiber(i, MicroFiberMode::Generic, 0, 1, 0)).collect();
    fs[0].mark_completed();
    fs[1].mark_running();
    t.update(&fs, &[MicroFiberGroup::new(0)]);
    assert_eq!((t.active_fibers, t.completed_fibers, t.total_groups), (3, 1, 1));
}

#[test]
fn block_core_modes_and_chunk_sizes() {
    let mut c = BlockDeltaCore::new(4);
    assert_eq!(c.mode, DeltaMode::Generic);
    c.set_mode_hybrid();
    assert_eq!(c.mode, DeltaMode::Hybrid);
    c.set_mode_physics();
    assert_eq!(c.mode, DeltaMode::Physics);
    c.set_mode_generic();
    assert_eq!(c.mode, DeltaMode::Generic);
    assert_eq!(BlockDeltaCore::compute_auto_chunk_size(0, 4), 1);
    assert_eq!(BlockDeltaCore::compute_auto_chunk_size(16384, 8), 1024);
    assert_eq!(BlockDeltaCore::compute_auto_chunk_size(100, 8), 32);
    assert_eq!(BlockDeltaCore::compute_auto_chunk_size(10, 4), 10);
    assert_eq!(BlockDeltaCore::compute_auto_chunk_size(100000, 1), 1024);
    assert_eq!(BlockDeltaCore::compute_auto_chunk_size(4096, 16), 256);
    assert_eq!(BlockDeltaCore::compute_auto_chunk_size(70000, 100), 1024);
    assert_eq!(BlockDeltaCore::compute_auto_chunk_size(1000, 2), 250);
    assert_eq!(BlockDeltaCore::compute_auto_chunk_size(1000, 0), 500);
    assert_eq!(BlockDeltaCore::parallel_span(8, 3), 3);
    assert_eq!(BlockDeltaCore::parallel_span(8, 30), 8);
}

#[test]
fn block_span_skips_a_zero_generic_delta() {
    let mut c = BlockDeltaCore::new(0);
    assert_eq!(c.block_span(0, 8, 100), None);
    assert_eq!(c.block_span(0x8000_0000, 8, 100), None);
    assert_eq!(c.block_span(1.0f32.to_bits(), 8, 100), Some(8));
    assert_eq!(c.block_span(1.0f32.to_bits(), 200, 100), Some(100));
    c.set_mode_physics();
    assert_eq!(c.block_span(0, 8, 5), Some(5));
    c.set_mode_hybrid();
    assert_eq!(c.block_span(0, 8, 100), Some(8));
}

#[test]
fn fusion_check_flags_an_overflowing_fused_length() {
    let small = vec![
        fiber(0, MicroFiberMode::Generic, 0, 4, 0),
        fiber(1, MicroFiberMode::Generic, 4, 4, 0),
    ];
    assert!(fusion_fits_check(&small, 32, 2));
    let huge = vec![
        fiber(0, MicroFiberMode::Generic, 0, usize::MAX, 0),
        fiber(1, MicroFiberMode::Generic, 0, 1, 0),
    ];
    assert!(!fusion_fits_check(&huge, usize::MAX, 2));
    assert!(fusion_fits_check(&huge, usize::MAX, 3));
    assert!(fusion_fits_check(&huge, 4, 2));
}

#[test]
fn fresh_sm_has_default_configuration() {
    let sm = StreamingMultiprocessor::new(5);
    assert_eq!(sm.id, 5);
    assert_eq!(sm.parallelism, HardwareParallelismConfig { fibers_per_warp: 64, warps_per_sm: 64, sms_per_chip: 80 });
    assert_eq!(sm.scratchpad.bytes_per_sm, 65536);
    assert_eq!(
        sm.alu_caps,
        AluCapabilities { has_integer: true, has_fp32: true, has_fp16: true, has_bf16: true, has_tensor_ops: true }
    );
    assert_eq!(sm.warp_sched.warps_issued_per_cycle_min, 4);
    assert_eq!(sm.warp_sched.warps_issued_per_cycle_max, 8);
    assert_eq!(f64::from_bits(sm.fabric.bandwidth_bits), 1.5e12);
    assert_eq!(sm.tensor_cfg.lanes, 256);
    assert_eq!(sm.attention_cfg.max_seq_len, 1024);
    assert_eq!(sm.quant_mode, QuantMode::Unquantized);
    assert!(sm.predictor.predict_nonzero(0, 4) == false);
    assert_eq!(sm.adaptive_nt.counter, 0);
}
