use vstd::prelude::*;

verus! {

/// The process-wide performance switches, as one snapshot that the control logic reads.
#[derive(Clone, Copy, Debug, PartialEq, Eq, Structural)]
pub struct PerfFlags {
    pub zero_cost_mode: bool,
    pub prefetch_enabled: bool,
    pub skip_scratchpad_for_small: bool,
    pub non_temporal_stores: bool,
    pub adaptive_nt_enabled: bool,
}

impl Default for PerfFlags {
    /// Zero-cost mode off, every other switch on.
    fn default() -> (f: Self)
        ensures
            !f.zero_cost_mode,
            f.prefetch_enabled,
            f.skip_scratchpad_for_small,
            f.non_temporal_stores,
            f.adaptive_nt_enabled,
    {
        PerfFlags {
            zero_cost_mode: false,
            prefetch_enabled: true,
            skip_scratchpad_for_small: true,
            non_temporal_stores: true,
            adaptive_nt_enabled: true,
        }
    }
}

} // verus!
