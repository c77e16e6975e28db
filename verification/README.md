# syntheticmind_dax

The SyntheticMind DAX tile engine: SM tiles that keep their state in an SRAM-like buffer,
capture it as a chain of overlays, shape per-region deltas in warps, and run micro-fibers
(physics, generic and hybrid) on block delta cores, with a memory fabric (HBM, L2,
per-region overlays) and transformer hooks (KV-cache deltas, attention overlays) around them.

## Layout

- `src/` is the library, verified with Verus. It holds the control logic: the region
  table and its commit/fetch protocol, overlay chains and tiny-overlay fusion, SRAM
  buffers with commit/rollback, the delta controller's ordering and warps, the drift
  history, the routers, the fiber model (fusion, priority grouping, issue, migration,
  stealing, occupancy), the hash predictor and non-temporal-store heuristic, DMA,
  speculative snapshots, the strand planner, and the HBM/L2/region-overlay fabric.
  Samples are IEEE-754 single-precision values carried as their bit patterns
  (`f32::to_bits`), so every contract speaks of exact bits.
- `app/` is ordinary Rust around the library: the process-wide performance switches,
  the single-precision arithmetic (delta addition, physics steps, normalization,
  magnitudes, attention and tensor-core passes), the rayon-parallel block pass, and the
  drivers for a tile step, a tile swarm, the orchestrator and the full DAX context.
- `tests/` exercises the library on concrete values.
