use syntheticmind_dax::sm_tile::{
    BlockDeltaCore, MicroFiber, MicroFiberMode, MicroFiberScheduler, MicroFiberState,
};

#[test]
fn test_micro_fiber_priority_ordering() {
    println!("=== Micro-Fiber Priority Ordering Test ===");

    let mut cores: Vec<BlockDeltaCore> = (0..2).map(|i| BlockDeltaCore::new(i)).collect();

    let mut sched = MicroFiberScheduler::new(&mut cores, 0);

    sched.add_fiber(MicroFiber::new(0, MicroFiberMode::Hybrid, 0, 64, 0.1f32.to_bits(), 0));
    sched.add_fiber(MicroFiber::new(1, MicroFiberMode::Generic, 64, 64, 0.1f32.to_bits(), 0));
    sched.add_fiber(MicroFiber::new(2, MicroFiberMode::Physics, 128, 64, 0.1f32.to_bits(), 0));

    sched.build_groups(4);

    let first_group = &sched.groups[0];
    let first_fiber_idx = first_group.fibers[0];
    let first_fiber = &sched.fibers[first_fiber_idx];

    println!("First fiber mode: {:?}", first_fiber.mode);
    assert!(matches!(first_fiber.mode, MicroFiberMode::Physics));
}

#[test]
fn test_micro_fiber_migration() {
    println!("=== Micro-Fiber Migration Test ===");

    let mut cores: Vec<BlockDeltaCore> = (0..2).map(|i| BlockDeltaCore::new(i)).collect();

    let mut sched = MicroFiberScheduler::new(&mut cores, 0);

    // fiber lives on tile 1, scheduler on tile 0
    let f = MicroFiber::new(0, MicroFiberMode::Generic, 0, 64, 0.1f32.to_bits(), 1);
    sched.add_fiber(f);

    sched.migrate_fibers_between_tiles(0);

    println!("Migration state: {:?}", sched.fibers[0].state);
    assert!(matches!(sched.fibers[0].state, MicroFiberState::Completed));
}
