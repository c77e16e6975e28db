pub mod collapse_control;
pub mod commands;
pub mod scheduler;

pub use collapse_control::CollapseControl;
pub use commands::{CollapseCommand, DeltaCommandExt};
pub use scheduler::SemanticScheduler;

use crate::transformer::{AttentionHook, KvDeltaEngine};
use vstd::prelude::*;

verus! {

/// The global orchestrator that coordinates SM tiles and transformer hooks.
pub struct GlobalDaxOrchestrator {
    pub scheduler: SemanticScheduler,
    pub collapse_control: CollapseControl,
    pub kv_engine: KvDeltaEngine,
    pub att_hook: AttentionHook,
}

impl GlobalDaxOrchestrator {
    pub fn new() -> (o: Self) {
        GlobalDaxOrchestrator {
            scheduler: SemanticScheduler::new(),
            collapse_control: CollapseControl::new(),
            kv_engine: KvDeltaEngine::new(),
            att_hook: AttentionHook::new(),
        }
    }
}

} // verus!
