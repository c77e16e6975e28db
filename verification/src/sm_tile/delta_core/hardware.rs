use vstd::prelude::*;
use super::flags::PerfFlags;
use super::fiber::{with_state, MicroFiber, MicroFiberMode, MicroFiberState};
use super::predictor::{AdaptiveNtHeuristic, StatePredictor};
use super::tables::{
    hw_kind_of, table_has_hot, DeltaIndexTable, DeltaIndexTableEntry, HardwareCueBuffer,
    HardwareCueEntry, HardwareCueKind,
};
use crate::sm_tile::overlay_sram::OverlaySram;

verus! {

// -----------------------------------------------------------------------------
// Hardware configuration
// -----------------------------------------------------------------------------

#[derive(Clone, Copy, Debug, PartialEq, Eq, Structural)]
pub struct HardwareParallelismConfig {
    pub fibers_per_warp: usize,
    pub warps_per_sm: usize,
    pub sms_per_chip: usize,
}

impl Default for HardwareParallelismConfig {
    fn default() -> (c: Self)
        ensures
            c.fibers_per_warp == 64 && c.warps_per_sm == 64 && c.sms_per_chip == 80,
    {
        HardwareParallelismConfig { fibers_per_warp: 64, warps_per_sm: 64, sms_per_chip: 80 }
    }
}

#[derive(Clone, Copy, Debug, PartialEq, Eq, Structural)]
pub struct ScratchpadConfig {
    pub bytes_per_sm: usize,
    pub single_cycle_access: bool,
}

impl Default for ScratchpadConfig {
    fn default() -> (c: Self)
        ensures
            c.bytes_per_sm == 64 * 1024 && c.single_cycle_access,
    {
        ScratchpadConfig { bytes_per_sm: 64 * 1024, single_cycle_access: true }
    }
}

#[derive(Clone, Copy, Debug, PartialEq, Eq, Structural)]
pub struct AluCapabilities {
    pub has_integer: bool,
    pub has_fp32: bool,
    pub has_fp16: bool,
    pub has_bf16: bool,
    pub has_tensor_ops: bool,
}

impl Default for AluCapabilities {
    fn default() -> (c: Self)
        ensures
            c.has_integer && c.has_fp32 && c.has_fp16 && c.has_bf16 && c.has_tensor_ops,
    {
        AluCapabilities {
            has_integer: true,
            has_fp32: true,
            has_fp16: true,
            has_bf16: true,
            has_tensor_ops: true,
        }
    }
}

#[derive(Clone, Copy, Debug, PartialEq, Eq, Structural)]
pub enum QuantMode {
    Unquantized,
    FP16Like,
    BF16Like,
    FP8Like,
}

#[derive(Clone, Copy, Debug, PartialEq, Eq, Structural)]
pub struct WarpSchedulerConfig {
    pub warps_issued_per_cycle_min: usize,
    pub warps_issued_per_cycle_max: usize,
    pub non_blocking_roundabout: bool,
}

impl Default for WarpSchedulerConfig {
    fn default() -> (c: Self)
        ensures
            c.warps_issued_per_cycle_min == 4 && c.warps_issued_per_cycle_max == 8
                && c.non_blocking_roundabout,
    {
        WarpSchedulerConfig {
            warps_issued_per_cycle_min: 4,
            warps_issued_per_cycle_max: 8,
            non_blocking_roundabout: true,
        }
    }
}

/// Memory fabric description; the bandwidth (bytes per second) is an f64 bit pattern.
#[derive(Clone, Copy, Debug, PartialEq, Eq, Structural)]
pub struct MemoryFabricConfig {
    pub bandwidth_bits: u64,
    pub region_aware_addressing: bool,
}

impl Default for MemoryFabricConfig {
    /// 1.5e12 bytes per second, region-aware addressing on.
    fn default() -> (c: Self)
        ensures
            c.bandwidth_bits == 0x4275_d3ef_7980_0000u64 && c.region_aware_addressing,
    {
        MemoryFabricConfig { bandwidth_bits: 0x4275_d3ef_7980_0000u64, region_aware_addressing: true }
    }
}

#[derive(Clone, Copy, Debug, PartialEq, Eq, Structural)]
pub struct TensorCoreConfig {
    pub lanes: usize,
    pub fma_per_cycle: usize,
    pub enabled: bool,
}

impl Default for TensorCoreConfig {
    fn default() -> (c: Self)
        ensures
            c.lanes == 256 && c.fma_per_cycle == 1024 && c.enabled,
    {
        TensorCoreConfig { lanes: 256, fma_per_cycle: 1024, enabled: true }
    }
}

#[derive(Clone, Copy, Debug, PartialEq, Eq, Structural)]
pub struct AttentionUnitConfig {
    pub enabled: bool,
    pub max_heads: usize,
    pub max_seq_len: usize,
}

impl Default for AttentionUnitConfig {
    fn default() -> (c: Self)
        ensures
            c.enabled && c.max_heads == 8 && c.max_seq_len == 1024,
    {
        AttentionUnitConfig { enabled: true, max_heads: 8, max_seq_len: 1024 }
    }
}

// -----------------------------------------------------------------------------
// Warp-cooperative scratchpad
// -----------------------------------------------------------------------------

/// `dst` with its first `min(|dst|, |src|)` samples taken from `src`.
pub open spec fn copy_prefix(dst: Seq<u32>, src: Seq<u32>) -> Seq<u32> {
    let n = if dst.len() <= src.len() {
        dst.len()
    } else {
        src.len()
    };
    src.take(n as int) + dst.skip(n as int)
}

pub struct WarpScratchpad {
    buf: Vec<u32>,
}

impl WarpScratchpad {
    /// The scratchpad's samples.
    pub closed spec fn contents(&self) -> Seq<u32> {
        self.buf@
    }

    pub fn new(size: usize) -> (s: Self)
        ensures
            s.contents() == Seq::new(size as nat, |i: int| 0u32),
    {
        let buf = crate::sm_tile::overlay_sram::zeroed(size);
        WarpScratchpad { buf }
    }

    /// Every sample back to zero.
    pub fn clear(&mut self)
        ensures
            final(self).contents() == Seq::new(old(self).contents().len(), |i: int| 0u32),
    {
        let mut i: usize = 0;
        while i < self.buf.len()
            invariant
                i <= self.buf@.len(),
                self.buf@.len() == old(self).buf@.len(),
                forall|k: int| 0 <= k < i ==> self.buf@[k] == 0,
            decreases self.buf@.len() - i,
        {
            self.buf.set(i, 0);
            i = i + 1;
        }
        assert(self.buf@ =~= Seq::new(old(self).buf@.len(), |i: int| 0u32));
    }

    /// Loads the first `min(size, |slice|)` samples from `slice`.
    pub fn load_from(&mut self, slice: &[u32])
        ensures
            final(self).contents() == copy_prefix(old(self).contents(), slice@),
    {
        let n = if self.buf.len() <= slice.len() {
            self.buf.len()
        } else {
            slice.len()
        };
        let mut i: usize = 0;
        while i < n
            invariant
                n <= old(self).buf@.len(),
                n <= slice@.len(),
                i <= n,
                self.buf@ == slice@.take(i as int) + old(self).buf@.skip(i as int),
            decreases n - i,
        {
            self.buf.set(i, slice[i]);
            i = i + 1;
            assert(self.buf@ =~= slice@.take(i as int) + old(self).buf@.skip(i as int));
        }
    }

    /// Loads from the samples `data[start..end]`.
    pub fn load_from_range(&mut self, data: &Vec<u32>, start: usize, end: usize)
        requires
            start <= end <= data@.len(),
        ensures
            final(self).contents() == copy_prefix(old(self).contents(), data@.subrange(
                start as int,
                end as int,
            )),
    {
        let len = end - start;
        let n = if self.buf.len() <= len {
            self.buf.len()
        } else {
            len
        };
        let ghost src = data@.subrange(start as int, end as int);
        let mut i: usize = 0;
        while i < n
            invariant
                start <= end <= data@.len(),
                src == data@.subrange(start as int, end as int),
                n <= old(self).buf@.len(),
                n <= src.len(),
                i <= n,
                self.buf@ == src.take(i as int) + old(self).buf@.skip(i as int),
            decreases n - i,
        {
            self.buf.set(i, data[start + i]);
            i = i + 1;
            assert(self.buf@ =~= src.take(i as int) + old(self).buf@.skip(i as int));
        }
    }

    /// Stores the first `min(size, |slice|)` samples into `slice`.
    pub fn store_into(&self, slice: &mut [u32])
        ensures
            final(slice)@ == copy_prefix(old(slice)@, self.contents()),
    {
        let n = if self.buf.len() <= slice.len() {
            self.buf.len()
        } else {
            slice.len()
        };
        let mut i: usize = 0;
        while i < n
            invariant
                n <= old(slice)@.len(),
                n <= self.buf@.len(),
                i <= n,
                slice@ == self.buf@.take(i as int) + old(slice)@.skip(i as int),
            decreases n - i,
        {
            slice[i] = self.buf[i];
            i = i + 1;
            assert(slice@ =~= self.buf@.take(i as int) + old(slice)@.skip(i as int));
        }
    }

    /// Stores into the samples `data[start..end]`, leaving the rest of `data` as it was.
    pub fn store_into_range(&self, data: &mut Vec<u32>, start: usize, end: usize)
        requires
            start <= end <= old(data)@.len(),
        ensures
            final(data)@ == old(data)@.subrange(0, start as int) + copy_prefix(
                old(data)@.subrange(start as int, end as int),
                self.contents(),
            ) + old(data)@.subrange(end as int, old(data)@.len() as int),
    {
        let len = end - start;
        let n = if self.buf.len() <= len {
            self.buf.len()
        } else {
            len
        };
        let ghost d0 = old(data)@;
        let mut i: usize = 0;
        while i < n
            invariant
                start <= end <= d0.len(),
                n <= end - start,
                n <= self.buf@.len(),
                i <= n,
                data@ == d0.subrange(0, start as int) + self.buf@.take(i as int) + d0.subrange(
                    start + i,
                    d0.len() as int,
                ),
            decreases n - i,
        {
            data.set(start + i, self.buf[i]);
            i = i + 1;
            assert(data@ =~= d0.subrange(0, start as int) + self.buf@.take(i as int)
                + d0.subrange(start + i, d0.len() as int));
        }
        assert(data@ =~= d0.subrange(0, start as int) + copy_prefix(
            d0.subrange(start as int, end as int),
            self.buf@,
        ) + d0.subrange(end as int, d0.len() as int));
    }

    pub fn as_slice(&self) -> (s: &[u32])
        ensures
            s@ == self.contents(),
    {
        self.buf.as_slice()
    }

    pub fn as_mut_slice(&mut self) -> (s: &mut [u32])
        ensures
            s@ == old(self).contents(),
            final(s)@ == final(self).contents(),
    {
        self.buf.as_mut_slice()
    }
}

// -----------------------------------------------------------------------------
// Async DMA engine
// -----------------------------------------------------------------------------

#[derive(Clone, Copy, Debug, PartialEq, Eq, Structural)]
pub struct DmaRequest {
    pub src_start: usize,
    pub dst_start: usize,
    pub len: usize,
}

pub open spec fn min_nat(a: int, b: int) -> int {
    if a <= b {
        a
    } else {
        b
    }
}

/// The request clamped to a buffer of `n` samples: (source start, destination start, length).
pub open spec fn clamp_request(r: DmaRequest, n: int) -> (int, int, int) {
    let s = min_nat(r.src_start as int, n);
    let d = min_nat(r.dst_start as int, n);
    (s, d, min_nat(min_nat(r.len as int, n - s), n - d))
}

/// The buffer after one copy: the clamped source range is copied onto the clamped
/// destination range, as read before the copy.
pub open spec fn dma_copy(data: Seq<u32>, r: DmaRequest) -> Seq<u32> {
    let (s, d, m) = clamp_request(r, data.len() as int);
    Seq::new(data.len(), |i: int| if d <= i < d + m { data[s + (i - d)] } else { data[i] })
}

/// The buffer after the queued copies, in order.
pub open spec fn dma_copy_all(data: Seq<u32>, q: Seq<DmaRequest>) -> Seq<u32>
    decreases q.len(),
{
    if q.len() == 0 {
        data
    } else {
        dma_copy(dma_copy_all(data, q.drop_last()), q.last())
    }
}

#[derive(Debug)]
pub struct AsyncDmaEngine {
    pub queue: Vec<DmaRequest>,
}

impl AsyncDmaEngine {
    pub fn new() -> (e: Self)
        ensures
            e.queue@ == Seq::<DmaRequest>::empty(),
    {
        AsyncDmaEngine { queue: Vec::new() }
    }

    pub fn enqueue(&mut self, req: DmaRequest)
        ensures
            final(self).queue@ == old(self).queue@.push(req),
    {
        self.queue.push(req);
    }

    fn copy_one(data: &mut Vec<u32>, req: DmaRequest)
        ensures
            final(data)@ == dma_copy(old(data)@, req),
    {
        let n = data.len();
        let src = if req.src_start <= n {
            req.src_start
        } else {
            n
        };
        let dst = if req.dst_start <= n {
            req.dst_start
        } else {
            n
        };
        let mut m = req.len;
        if n - src < m {
            m = n - src;
        }
        if n - dst < m {
            m = n - dst;
        }
        if m == 0 {
            assert(data@ =~= dma_copy(old(data)@, req));
            return;
        }
        let mut tmp: Vec<u32> = Vec::with_capacity(m);
        let mut i: usize = 0;
        while i < m
            invariant
                data@ == old(data)@,
                n == data@.len(),
                src + m <= n,
                i <= m,
                tmp@ == data@.subrange(src as int, src + i),
            decreases m - i,
        {
            tmp.push(data[src + i]);
            i = i + 1;
            assert(tmp@ =~= data@.subrange(src as int, src + i));
        }
        let ghost d0 = old(data)@;
        let mut j: usize = 0;
        while j < m
            invariant
                tmp@ == d0.subrange(src as int, src + m),
                n == d0.len(),
                data@.len() == n,
                src + m <= n,
                dst + m <= n,
                j <= m,
                forall|k: int|
                    0 <= k < n ==> #[trigger] data@[k] == if dst <= k < dst + j {
                        d0[src + (k - dst)]
                    } else {
                        d0[k]
                    },
            decreases m - j,
        {
            data.set(dst + j, tmp[j]);
            j = j + 1;
        }
        assert(data@ =~= dma_copy(d0, req));
    }

    /// Performs every queued copy in order, then empties the queue. Each copy reads its
    /// source as it stands before that copy, so overlapping ranges copy like `memmove`.
    pub fn process_all(&mut self, sram: &mut OverlaySram)
        ensures
            final(sram).data@ == dma_copy_all(old(sram).data@, old(self).queue@),
            final(self).queue@ == Seq::<DmaRequest>::empty(),
            final(sram).incoming@ == old(sram).incoming@,
            final(sram).outgoing@ == old(sram).outgoing@,
            final(sram).heatmap_short@ == old(sram).heatmap_short@,
            final(sram).heatmap_mid@ == old(sram).heatmap_mid@,
            final(sram).heatmap_long@ == old(sram).heatmap_long@,
            final(sram).active_chunks@ == old(sram).active_chunks@,
            final(sram).chunk_size == old(sram).chunk_size,
    {
        let ghost q = self.queue@;
        let mut i: usize = 0;
        while i < self.queue.len()
            invariant
                self.queue@ == q,
                i <= q.len(),
                sram.data@ == dma_copy_all(old(sram).data@, q.take(i as int)),
                sram.incoming@ == old(sram).incoming@,
                sram.outgoing@ == old(sram).outgoing@,
                sram.heatmap_short@ == old(sram).heatmap_short@,
                sram.heatmap_mid@ == old(sram).heatmap_mid@,
                sram.heatmap_long@ == old(sram).heatmap_long@,
                sram.active_chunks@ == old(sram).active_chunks@,
                sram.chunk_size == old(sram).chunk_size,
            decreases q.len() - i,
        {
            let req = self.queue[i];
            Self::copy_one(&mut sram.data, req);
            assert(q.take(i as int + 1).drop_last() =~= q.take(i as int));
            i = i + 1;
        }
        assert(q.take(q.len() as int) =~= q);
        self.queue = Vec::new();
    }
}

} // verus!
