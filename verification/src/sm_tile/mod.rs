pub mod collapse_unit;
pub mod controller;
pub mod delta_core;
pub mod drift_monitor;
pub mod overlay_chain;
pub mod overlay_sram;
pub mod region_table;
pub mod routing;
pub mod units;

pub use delta_core::{
    complete_micro_fiber_strand, plan_micro_fiber_strand, stage_micro_fiber_strand, StrandPlan, StrandWork,
    MicroFiberScheduler,
    BlockDeltaCore,
    ComputeChip, SpeculativeEngine, SpeculativeSnapshot, StreamingMultiprocessor,
    AluCapabilities, AsyncDmaEngine, AttentionUnitConfig, DmaRequest, HardwareParallelismConfig,
    MemoryFabricConfig, QuantMode, ScratchpadConfig, TensorCoreConfig, WarpScratchpad,
    WarpSchedulerConfig,
    AdaptiveNtHeuristic, PerfFlags, StatePredictor,
    CueBuffer, CueEvent, CueKind, DeltaIndex, DeltaIndexEntry, DeltaIndexTable,
    DeltaIndexTableEntry, FiberL0Cache, FiberPerfCounters, HardwareCueBuffer, HardwareCueEntry,
    HardwareCueKind, OccupancyTracker, Roundabout, TileRouteEntry, TileRoutingTable,
    fusion_fits_check, DeltaMode, FiberFusionConfig, FiberFusionController, MicroFiber, MicroFiberGroup,
    MicroFiberMode, MicroFiberPriority, MicroFiberState,
};
pub use overlay_sram::OverlaySram;
pub use region_table::{Region, RegionDelta, RegionTable};
pub use overlay_chain::{Overlay, OverlayChain};
pub use controller::{DaxController, DeltaCommand};
pub use units::{Cluster, ClusterUnit, Group, GroupUnit, RoundaboutFabric, SkimUnit};
pub use collapse_unit::CollapseUnit;
pub use drift_monitor::DriftMonitor;
pub use routing::{RoundaboutRouting, TileRouter};
