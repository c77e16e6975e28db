use vstd::prelude::*;
use super::fiber::DeltaMode;
use crate::float_bits::{is_zero, is_zero_spec};

verus! {

/// A block delta core; `base_reg_bits` is its f32 accumulator as a bit pattern.
#[derive(Clone, Copy, Debug, PartialEq, Eq, Structural)]
pub struct BlockDeltaCore {
    pub id: usize,
    pub base_reg_bits: u32,
    pub mode: DeltaMode,
}

/// Chunk size for splitting `len` samples over `core_count` cores: an even share, kept
/// within `[32, 1024]` (but not above `len`), doubled for very long buffers and halved
/// for short ones.
pub open spec fn auto_chunk_size(len: usize, core_count: usize) -> int {
    if len == 0 {
        1
    } else {
        let cores = if core_count >= 1 {
            core_count as int
        } else {
            1
        };
        let min_chunk = if 32 <= len {
            32
        } else {
            len as int
        };
        let b0 = len as int / cores;
        let b1 = if b0 < 32 {
            min_chunk
        } else {
            b0
        };
        let b2 = if b1 > 1024 {
            1024
        } else {
            b1
        };
        if len > 65536 {
            if b2 * 2 <= 1024 {
                b2 * 2
            } else {
                1024
            }
        } else if len < 2048 {
            if b2 / 2 >= min_chunk {
                b2 / 2
            } else {
                min_chunk
            }
        } else {
            b2
        }
    }
}

impl BlockDeltaCore {
    /// A generic-mode core with a zero accumulator.
    pub fn new(id: usize) -> (c: Self)
        ensures
            c.id == id,
            c.base_reg_bits == 0,
            c.mode == DeltaMode::Generic,
    {
        BlockDeltaCore { id, base_reg_bits: 0, mode: DeltaMode::Generic }
    }

    pub fn set_mode_physics(&mut self)
        ensures
            *final(self) == (BlockDeltaCore { mode: DeltaMode::Physics, ..*old(self) }),
    {
        self.mode = DeltaMode::Physics;
    }

    pub fn set_mode_generic(&mut self)
        ensures
            *final(self) == (BlockDeltaCore { mode: DeltaMode::Generic, ..*old(self) }),
    {
        self.mode = DeltaMode::Generic;
    }

    pub fn set_mode_hybrid(&mut self)
        ensures
            *final(self) == (BlockDeltaCore { mode: DeltaMode::Hybrid, ..*old(self) }),
    {
        self.mode = DeltaMode::Hybrid;
    }

    /// Chunk size used when `len` samples are shared among `core_count` cores.
    pub fn compute_auto_chunk_size(len: usize, core_count: usize) -> (c: usize)
        ensures
            c == auto_chunk_size(len, core_count),
    {
        if len == 0 {
            return 1;
        }
        let cores = if core_count >= 1 {
            core_count
        } else {
            1
        };
        let mut base = len / cores;
        let min_chunk: usize = 32;
        let max_chunk: usize = 1024;
        let floor = if min_chunk <= len {
            min_chunk
        } else {
            len
        };
        if base < min_chunk {
            base = floor;
        }
        if base > max_chunk {
            base = max_chunk;
        }
        if len > 65536 {
            base = if base * 2 <= max_chunk {
                base * 2
            } else {
                max_chunk
            };
        } else if len < 2048 {
            base = if base / 2 >= floor {
                base / 2
            } else {
                floor
            };
        }
        base
    }

    /// Number of leading samples a block pass with this delta (f32 bits) touches: the
    /// block cut to the buffer, or none for a generic core and a zero delta.
    pub fn block_span(&self, delta_bits: u32, block_len: usize, sram_len: usize) -> (r: Option<
        usize,
    >)
        ensures
            r == if self.mode == DeltaMode::Generic && is_zero_spec(delta_bits) {
                None
            } else {
                Some(
                    if block_len <= sram_len {
                        block_len
                    } else {
                        sram_len
                    },
                )
            },
    {
        match self.mode {
            DeltaMode::Generic => {
                if is_zero(delta_bits) {
                    return None;
                }
            },
            _ => {},
        }
        Some(Self::parallel_span(block_len, sram_len))
    }

    /// Number of samples a parallel block pass touches: the block, cut to the buffer.
    pub fn parallel_span(block_len: usize, sram_len: usize) -> (n: usize)
        ensures
            n == if block_len <= sram_len {
                block_len
            } else {
                sram_len
            },
    {
        if block_len <= sram_len {
            block_len
        } else {
            sram_len
        }
    }
}

/// The chunk size is never zero, never above 1024, and never above a non-empty buffer.
pub proof fn law_auto_chunk_size_bounds(len: usize, core_count: usize)
    ensures
        1 <= auto_chunk_size(len, core_count) <= 1024,
        len > 0 ==> auto_chunk_size(len, core_count) <= len,
{
    if len > 0 {
        let cores: int = if core_count >= 1 {
            core_count as int
        } else {
            1
        };
        assert(len as int / cores <= len) by (nonlinear_arith)
            requires
                cores >= 1,
                len >= 0,
        ;
    }
}

} // verus!
