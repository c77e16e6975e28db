use vstd::prelude::*;

verus! {

/// Number of samples per skimming chunk.
pub const DEFAULT_CHUNK_SIZE: usize = 128;

/// A sequence of `n` copies of `v`.
pub open spec fn filled(n: nat, v: u32) -> Seq<u32> {
    Seq::new(n, |i: int| v)
}

/// Tile SRAM: a unified sample buffer, split incoming/outgoing buffers, three heatmaps
/// and a per-chunk activity mask. Samples are f32 bit patterns.
pub struct OverlaySram {
    pub data: Vec<u32>,
    pub incoming: Vec<u32>,
    pub outgoing: Vec<u32>,
    pub heatmap_short: Vec<u32>,
    pub heatmap_mid: Vec<u32>,
    pub heatmap_long: Vec<u32>,
    pub active_chunks: Vec<bool>,
    pub chunk_size: usize,
}

pub fn zeroed(size: usize) -> (v: Vec<u32>)
    ensures
        v@ == filled(size as nat, 0),
{
    let mut v: Vec<u32> = Vec::with_capacity(size);
    let mut i: usize = 0;
    while i < size
        invariant
            i <= size,
            v@ == filled(i as nat, 0),
        decreases size - i,
    {
        v.push(0);
        i = i + 1;
    }
    v
}

impl OverlaySram {
    /// All buffers zeroed, `size` samples long, chunks of 128 samples, every chunk active.
    pub fn new(size: usize) -> (s: Self)
        requires
            size + DEFAULT_CHUNK_SIZE - 1 <= usize::MAX,
        ensures
            s.data@ == filled(size as nat, 0),
            s.incoming@ == filled(size as nat, 0),
            s.outgoing@ == filled(size as nat, 0),
            s.heatmap_short@ == filled(size as nat, 0),
            s.heatmap_mid@ == filled(size as nat, 0),
            s.heatmap_long@ == filled(size as nat, 0),
            s.chunk_size == DEFAULT_CHUNK_SIZE,
            s.active_chunks@.len() == (size + DEFAULT_CHUNK_SIZE - 1) / (DEFAULT_CHUNK_SIZE as int),
            forall|k: int| 0 <= k < s.active_chunks@.len() ==> #[trigger] s.active_chunks@[k],
    {
        let chunk_size = DEFAULT_CHUNK_SIZE;
        let chunk_count = (size + (chunk_size - 1)) / chunk_size;
        let mut active: Vec<bool> = Vec::with_capacity(chunk_count);
        let mut k: usize = 0;
        while k < chunk_count
            invariant
                k <= chunk_count,
                active@.len() == k,
                forall|j: int| 0 <= j < k ==> #[trigger] active@[j],
            decreases chunk_count - k,
        {
            active.push(true);
            k = k + 1;
        }
        OverlaySram {
            data: zeroed(size),
            incoming: zeroed(size),
            outgoing: zeroed(size),
            heatmap_short: zeroed(size),
            heatmap_mid: zeroed(size),
            heatmap_long: zeroed(size),
            active_chunks: active,
            chunk_size,
        }
    }

    /// Writes one outgoing sample; an index past the end is ignored.
    pub fn write_outgoing(&mut self, idx: usize, value: u32)
        ensures
            idx < old(self).outgoing@.len() ==> final(self).outgoing@ == old(
                self,
            ).outgoing@.update(idx as int, value),
            idx >= old(self).outgoing@.len() ==> final(self).outgoing@ == old(self).outgoing@,
            final(self).data@ == old(self).data@,
            final(self).incoming@ == old(self).incoming@,
            final(self).heatmap_short@ == old(self).heatmap_short@,
            final(self).heatmap_mid@ == old(self).heatmap_mid@,
            final(self).heatmap_long@ == old(self).heatmap_long@,
            final(self).active_chunks@ == old(self).active_chunks@,
            final(self).chunk_size == old(self).chunk_size,
    {
        if idx < self.outgoing.len() {
            self.outgoing.set(idx, value);
        }
    }

    /// One incoming sample, or zero past the end.
    pub fn read_incoming(&self, idx: usize) -> (v: u32)
        ensures
            v == if idx < self.incoming@.len() {
                self.incoming@[idx as int]
            } else {
                0u32
            },
    {
        if idx < self.incoming.len() {
            self.incoming[idx]
        } else {
            0
        }
    }

    /// One outgoing sample, or zero past the end.
    pub fn read_outgoing(&self, idx: usize) -> (v: u32)
        ensures
            v == if idx < self.outgoing@.len() {
                self.outgoing@[idx as int]
            } else {
                0u32
            },
    {
        if idx < self.outgoing.len() {
            self.outgoing[idx]
        } else {
            0
        }
    }

    /// The sample range `[start, end)` of skimming chunk `chunk_id`, cut at the end of `data`.
    pub fn chunk_bounds(&self, chunk_id: usize) -> (r: (usize, usize))
        requires
            chunk_id * self.chunk_size + self.chunk_size <= usize::MAX,
        ensures
            r.0 == chunk_id * self.chunk_size,
            r.1 == if r.0 + self.chunk_size <= self.data@.len() {
                r.0 + self.chunk_size
            } else {
                self.data@.len() as int
            },
    {
        let start = chunk_id * self.chunk_size;
        let end = if start + self.chunk_size <= self.data.len() {
            start + self.chunk_size
        } else {
            self.data.len()
        };
        (start, end)
    }

    /// Copies the outgoing buffer into the incoming buffer and the unified view, over the
    /// shorter of incoming and outgoing.
    pub fn commit_outgoing(&mut self)
        requires
            old(self).data@.len() >= old(self).incoming@.len() || old(self).data@.len() >= old(
                self,
            ).outgoing@.len(),
        ensures
            ({
                let n = if old(self).incoming@.len() <= old(self).outgoing@.len() {
                    old(self).incoming@.len()
                } else {
                    old(self).outgoing@.len()
                };
                &&& final(self).incoming@ == old(self).outgoing@.take(n as int) + old(
                    self,
                ).incoming@.skip(n as int)
                &&& final(self).data@ == old(self).outgoing@.take(n as int) + old(self).data@.skip(
                    n as int,
                )
            }),
            final(self).outgoing@ == old(self).outgoing@,
            final(self).heatmap_short@ == old(self).heatmap_short@,
            final(self).heatmap_mid@ == old(self).heatmap_mid@,
            final(self).heatmap_long@ == old(self).heatmap_long@,
            final(self).active_chunks@ == old(self).active_chunks@,
            final(self).chunk_size == old(self).chunk_size,
    {
        let n = if self.incoming.len() <= self.outgoing.len() {
            self.incoming.len()
        } else {
            self.outgoing.len()
        };
        let mut i: usize = 0;
        while i < n
            invariant
                n <= old(self).incoming@.len(),
                n <= old(self).outgoing@.len(),
                n <= old(self).data@.len(),
                i <= n,
                self.outgoing@ == old(self).outgoing@,
                self.incoming@ == old(self).outgoing@.take(i as int) + old(self).incoming@.skip(
                    i as int,
                ),
                self.data@ == old(self).outgoing@.take(i as int) + old(self).data@.skip(i as int),
                self.heatmap_short@ == old(self).heatmap_short@,
                self.heatmap_mid@ == old(self).heatmap_mid@,
                self.heatmap_long@ == old(self).heatmap_long@,
                self.active_chunks@ == old(self).active_chunks@,
                self.chunk_size == old(self).chunk_size,
            decreases n - i,
        {
            let v = self.outgoing[i];
            self.incoming.set(i, v);
            self.data.set(i, v);
            i = i + 1;
            assert(self.incoming@ =~= old(self).outgoing@.take(i as int) + old(
                self,
            ).incoming@.skip(i as int));
            assert(self.data@ =~= old(self).outgoing@.take(i as int) + old(self).data@.skip(
                i as int,
            ));
        }
    }

    /// Clears every outgoing sample to zero.
    pub fn rollback_outgoing(&mut self)
        ensures
            final(self).outgoing@ == filled(old(self).outgoing@.len(), 0),
            final(self).data@ == old(self).data@,
            final(self).incoming@ == old(self).incoming@,
            final(self).heatmap_short@ == old(self).heatmap_short@,
            final(self).heatmap_mid@ == old(self).heatmap_mid@,
            final(self).heatmap_long@ == old(self).heatmap_long@,
            final(self).active_chunks@ == old(self).active_chunks@,
            final(self).chunk_size == old(self).chunk_size,
    {
        let mut i: usize = 0;
        while i < self.outgoing.len()
            invariant
                i <= self.outgoing@.len(),
                self.outgoing@.len() == old(self).outgoing@.len(),
                forall|k: int| 0 <= k < i ==> self.outgoing@[k] == 0,
                self.data@ == old(self).data@,
                self.incoming@ == old(self).incoming@,
                self.heatmap_short@ == old(self).heatmap_short@,
                self.heatmap_mid@ == old(self).heatmap_mid@,
                self.heatmap_long@ == old(self).heatmap_long@,
                self.active_chunks@ == old(self).active_chunks@,
                self.chunk_size == old(self).chunk_size,
            decreases self.outgoing@.len() - i,
        {
            self.outgoing.set(i, 0);
            i = i + 1;
        }
        assert(self.outgoing@ =~= filled(old(self).outgoing@.len(), 0));
    }

    /// Legacy write: goes to the outgoing buffer.
    pub fn write(&mut self, idx: usize, value: u32)
        ensures
            idx < old(self).outgoing@.len() ==> final(self).outgoing@ == old(
                self,
            ).outgoing@.update(idx as int, value),
            idx >= old(self).outgoing@.len() ==> final(self).outgoing@ == old(self).outgoing@,
            final(self).data@ == old(self).data@,
            final(self).incoming@ == old(self).incoming@,
            final(self).heatmap_short@ == old(self).heatmap_short@,
            final(self).heatmap_mid@ == old(self).heatmap_mid@,
            final(self).heatmap_long@ == old(self).heatmap_long@,
            final(self).active_chunks@ == old(self).active_chunks@,
            final(self).chunk_size == old(self).chunk_size,
    {
        self.write_outgoing(idx, value);
    }

    /// Legacy read: comes from the incoming buffer.
    pub fn read(&self, idx: usize) -> (v: u32)
        ensures
            v == if idx < self.incoming@.len() {
                self.incoming@[idx as int]
            } else {
                0u32
            },
    {
        self.read_incoming(idx)
    }

    /// Length of the unified view.
    pub fn len(&self) -> (n: usize)
        ensures
            n == self.data@.len(),
    {
        self.data.len()
    }
}

/// A write followed by a commit is what a later read returns.
pub proof fn law_committed_write_is_read(s0: Seq<u32>, out0: Seq<u32>, idx: int, value: u32)
    requires
        0 <= idx < out0.len(),
        idx < s0.len(),
    ensures
        ({
            let out1 = out0.update(idx, value);
            let n = if s0.len() <= out1.len() {
                s0.len()
            } else {
                out1.len()
            };
            (out1.take(n as int) + s0.skip(n as int))[idx] == value
        }),
{
}

} // verus!
