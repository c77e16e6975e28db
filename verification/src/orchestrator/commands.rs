use vstd::prelude::*;

verus! {

/// Orchestrator-level delta command; `delta_bits` is the f32 delta as a bit pattern.
#[derive(Clone, Copy, Debug, PartialEq, Eq, Structural)]
pub struct DeltaCommandExt {
    pub region_id: usize,
    pub delta_bits: u32,
    pub priority: u8,
}

/// Orchestrator-level collapse command.
#[derive(Clone, Copy, Debug, PartialEq, Eq, Structural)]
pub struct CollapseCommand {
    pub region_id: usize,
    pub passes: u8,
}

} // verus!
