pub mod cores;
pub mod fiber;
pub mod flags;
pub mod hardware;
pub mod predictor;
pub mod scheduler;
pub mod sm_unit;
pub mod strand;
pub mod tables;

pub use fiber::{
    fusion_fits_check,
    DeltaMode, FiberFusionConfig, FiberFusionController, MicroFiber, MicroFiberGroup,
    MicroFiberMode, MicroFiberPriority, MicroFiberState,
};
pub use tables::{
    CueBuffer, CueEvent, CueKind, DeltaIndex, DeltaIndexEntry, DeltaIndexTable,
    DeltaIndexTableEntry, FiberL0Cache, FiberPerfCounters, HardwareCueBuffer, HardwareCueEntry,
    HardwareCueKind, OccupancyTracker, Roundabout, TileRouteEntry, TileRoutingTable,
};
pub use flags::PerfFlags;
pub use predictor::{AdaptiveNtHeuristic, StatePredictor};
pub use hardware::{
    AluCapabilities, AsyncDmaEngine, AttentionUnitConfig, DmaRequest, HardwareParallelismConfig,
    MemoryFabricConfig, QuantMode, ScratchpadConfig, TensorCoreConfig, WarpScratchpad,
    WarpSchedulerConfig,
};
pub use sm_unit::{
    ComputeChip, SpeculativeEngine, SpeculativeSnapshot, StreamingMultiprocessor,
};
pub use cores::BlockDeltaCore;
pub use scheduler::MicroFiberScheduler;
pub use strand::{
    complete_micro_fiber_strand, plan_micro_fiber_strand, stage_micro_fiber_strand, StrandPlan, StrandWork,
};
pub(crate) use hardware::copy_prefix;
