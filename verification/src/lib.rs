pub mod fabric;
pub mod float_bits;
pub mod orchestrator;
pub mod sm_tile;
pub mod transformer;

pub use fabric::{HbmInterface, L2Overlay, RegionOverlayTable};
pub use orchestrator::GlobalDaxOrchestrator;
pub use transformer::{AttentionHook, KvDeltaEngine};
