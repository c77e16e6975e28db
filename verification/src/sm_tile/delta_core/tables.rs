use vstd::prelude::*;
use crate::float_bits::{abs_positive, abs_positive_spec};
use super::fiber::{MicroFiber, MicroFiberGroup, MicroFiberMode, MicroFiberState};

verus! {

// -----------------------------------------------------------------------------
// Fiber-local L0 cache
// -----------------------------------------------------------------------------

/// Sample ranges recently touched by fibers, as (start, len) pairs.
pub struct FiberL0Cache {
    hot_ranges: Vec<(usize, usize)>,
}

impl FiberL0Cache {
    /// The recorded ranges, oldest first.
    pub closed spec fn ranges(&self) -> Seq<(usize, usize)> {
        self.hot_ranges@
    }

    pub fn new() -> (c: Self)
        ensures
            c.ranges() == Seq::<(usize, usize)>::empty(),
    {
        FiberL0Cache { hot_ranges: Vec::new() }
    }

    pub fn record_range(&mut self, start: usize, len: usize)
        ensures
            final(self).ranges() == old(self).ranges().push((start, len)),
    {
        self.hot_ranges.push((start, len));
    }

    /// Whether exactly this range was recorded.
    pub fn is_hot(&self, start: usize, len: usize) -> (b: bool)
        ensures
            b == self.ranges().contains((start, len)),
    {
        let mut i: usize = 0;
        while i < self.hot_ranges.len()
            invariant
                i <= self.hot_ranges@.len(),
                forall|k: int| 0 <= k < i ==> self.hot_ranges@[k] != (start, len),
            decreases self.hot_ranges@.len() - i,
        {
            let (s, l) = self.hot_ranges[i];
            if s == start && l == len {
                assert(self.hot_ranges@[i as int] == (start, len));
                return true;
            }
            i = i + 1;
        }
        false
    }
}

// -----------------------------------------------------------------------------
// Tile-swarm routing table
// -----------------------------------------------------------------------------

#[derive(Clone, Copy, Debug, PartialEq, Eq, Structural)]
pub struct TileRouteEntry {
    pub fiber_id: usize,
    pub from_tile: usize,
    pub to_tile: usize,
}

/// Log of fiber migrations between tiles.
#[derive(Debug)]
pub struct TileRoutingTable {
    pub routes: Vec<TileRouteEntry>,
}

impl Default for TileRoutingTable {
    fn default() -> (t: Self)
        ensures
            t.routes@ == Seq::<TileRouteEntry>::empty(),
    {
        TileRoutingTable { routes: Vec::new() }
    }
}

impl TileRoutingTable {
    pub fn record_migration(&mut self, fiber_id: usize, from_tile: usize, to_tile: usize)
        ensures
            final(self).routes@ == old(self).routes@.push(
                TileRouteEntry { fiber_id, from_tile, to_tile },
            ),
    {
        self.routes.push(TileRouteEntry { fiber_id, from_tile, to_tile });
    }
}

// -----------------------------------------------------------------------------
// Occupancy tracking
// -----------------------------------------------------------------------------

/// Number of fibers in `s` that are ready or running.
pub open spec fn count_active(s: Seq<MicroFiber>) -> nat
    decreases s.len(),
{
    if s.len() == 0 {
        0
    } else {
        count_active(s.drop_last()) + if s.last().state != MicroFiberState::Completed {
            1nat
        } else {
            0nat
        }
    }
}

/// Number of fibers in `s` that have completed.
pub open spec fn count_completed(s: Seq<MicroFiber>) -> nat
    decreases s.len(),
{
    if s.len() == 0 {
        0
    } else {
        count_completed(s.drop_last()) + if s.last().state == MicroFiberState::Completed {
            1nat
        } else {
            0nat
        }
    }
}

pub proof fn lemma_counts_partition(s: Seq<MicroFiber>)
    ensures
        count_active(s) + count_completed(s) == s.len(),
    decreases s.len(),
{
    if s.len() > 0 {
        lemma_counts_partition(s.drop_last());
    }
}

#[derive(Clone, Copy, Debug, PartialEq, Eq, Structural)]
pub struct OccupancyTracker {
    pub active_fibers: u64,
    pub completed_fibers: u64,
    pub total_groups: u64,
}

impl Default for OccupancyTracker {
    fn default() -> (t: Self)
        ensures
            t.active_fibers == 0 && t.completed_fibers == 0 && t.total_groups == 0,
    {
        OccupancyTracker { active_fibers: 0, completed_fibers: 0, total_groups: 0 }
    }
}

impl OccupancyTracker {
    /// Recounts groups, ready-or-running fibers and completed fibers.
    pub fn update(&mut self, fibers: &[MicroFiber], groups: &[MicroFiberGroup])
        ensures
            final(self).total_groups == groups@.len(),
            final(self).active_fibers == count_active(fibers@),
            final(self).completed_fibers == count_completed(fibers@),
    {
        self.total_groups = groups.len() as u64;
        let mut active: u64 = 0;
        let mut completed: u64 = 0;
        let mut i: usize = 0;
        while i < fibers.len()
            invariant
                i <= fibers@.len(),
                active == count_active(fibers@.take(i as int)),
                completed == count_completed(fibers@.take(i as int)),
            decreases fibers@.len() - i,
        {
            proof {
                assert(fibers@.take(i as int + 1).drop_last() =~= fibers@.take(i as int));
                lemma_counts_partition(fibers@.take(i as int));
            }
            let st = fibers[i].state;
            if st == MicroFiberState::Running || st == MicroFiberState::Ready {
                active = active + 1;
            } else {
                completed = completed + 1;
            }
            i = i + 1;
        }
        assert(fibers@.take(fibers@.len() as int) =~= fibers@);
        self.active_fibers = active;
        self.completed_fibers = completed;
    }
}

// -----------------------------------------------------------------------------
// Delta index
// -----------------------------------------------------------------------------

/// A touched range and the f32 magnitude (as bits) that was applied to it.
#[derive(Clone, Copy, Debug, PartialEq, Eq, Structural)]
pub struct DeltaIndexEntry {
    pub start: usize,
    pub len: usize,
    pub magnitude_bits: u32,
}

/// Whether some entry records exactly `(start, len)` with a magnitude whose absolute
/// value is above zero.
pub open spec fn index_has_hot(entries: Seq<DeltaIndexEntry>, start: usize, len: usize) -> bool {
    exists|k: int|
        0 <= k < entries.len() && (#[trigger] entries[k]).start == start && entries[k].len == len
            && abs_positive_spec(entries[k].magnitude_bits)
}

#[derive(Clone, Debug)]
pub struct DeltaIndex {
    pub entries: Vec<DeltaIndexEntry>,
}

impl Default for DeltaIndex {
    fn default() -> (d: Self)
        ensures
            d.entries@ == Seq::<DeltaIndexEntry>::empty(),
    {
        DeltaIndex { entries: Vec::new() }
    }
}

impl DeltaIndex {
    pub fn record(&mut self, start: usize, len: usize, magnitude_bits: u32)
        ensures
            final(self).entries@ == old(self).entries@.push(
                DeltaIndexEntry { start, len, magnitude_bits },
            ),
    {
        self.entries.push(DeltaIndexEntry { start, len, magnitude_bits });
    }

    pub fn is_hot_region(&self, start: usize, len: usize) -> (b: bool)
        ensures
            b == index_has_hot(self.entries@, start, len),
    {
        let mut i: usize = 0;
        while i < self.entries.len()
            invariant
                i <= self.entries@.len(),
                forall|k: int|
                    0 <= k < i ==> !((#[trigger] self.entries@[k]).start == start
                        && self.entries@[k].len == len && abs_positive_spec(
                        self.entries@[k].magnitude_bits,
                    )),
            decreases self.entries@.len() - i,
        {
            let e = self.entries[i];
            if e.start == start && e.len == len && abs_positive(e.magnitude_bits) {
                return true;
            }
            i = i + 1;
        }
        false
    }
}

// -----------------------------------------------------------------------------
// Cue buffer
// -----------------------------------------------------------------------------

#[derive(Clone, Copy, Debug, PartialEq, Eq, Structural)]
pub enum CueKind {
    Delta,
    Physics,
    Algebra,
    Hybrid,
}

/// The cue kind a fiber of this mode is queued with.
pub open spec fn cue_kind_of(mode: MicroFiberMode) -> CueKind {
    match mode {
        MicroFiberMode::Generic => CueKind::Delta,
        MicroFiberMode::Physics => CueKind::Physics,
        MicroFiberMode::Hybrid => CueKind::Hybrid,
    }
}

#[derive(Clone, Copy, Debug, PartialEq, Eq, Structural)]
pub struct CueEvent {
    pub fiber_id: usize,
    pub kind: CueKind,
    pub start: usize,
    pub len: usize,
    pub delta_bits: u32,
}

#[derive(Debug)]
pub struct CueBuffer {
    pub events: Vec<CueEvent>,
}

impl Default for CueBuffer {
    fn default() -> (c: Self)
        ensures
            c.events@ == Seq::<CueEvent>::empty(),
    {
        CueBuffer { events: Vec::new() }
    }
}

impl CueBuffer {
    pub fn push(&mut self, ev: CueEvent)
        ensures
            final(self).events@ == old(self).events@.push(ev),
    {
        self.events.push(ev);
    }

    /// Hands out every queued event, oldest first, and empties the buffer.
    pub fn drain(&mut self) -> (out: Vec<CueEvent>)
        ensures
            out@ == old(self).events@,
            final(self).events@ == Seq::<CueEvent>::empty(),
    {
        let mut out: Vec<CueEvent> = Vec::new();
        std::mem::swap(&mut out, &mut self.events);
        out
    }
}

// -----------------------------------------------------------------------------
// Roundabout
// -----------------------------------------------------------------------------

/// The cue event a fiber is queued as.
pub open spec fn cue_of(f: MicroFiber) -> CueEvent {
    CueEvent {
        fiber_id: f.id,
        kind: cue_kind_of(f.mode),
        start: f.start,
        len: f.len,
        delta_bits: f.delta_bits,
    }
}

#[derive(Debug)]
pub struct Roundabout {
    pub cue_buffer: CueBuffer,
    pub delta_index: DeltaIndex,
}

impl Default for Roundabout {
    fn default() -> (r: Self)
        ensures
            r.cue_buffer.events@ == Seq::<CueEvent>::empty(),
            r.delta_index.entries@ == Seq::<DeltaIndexEntry>::empty(),
    {
        Roundabout { cue_buffer: CueBuffer::default(), delta_index: DeltaIndex::default() }
    }
}

impl Roundabout {
    pub fn enqueue_fiber(&mut self, fiber: &MicroFiber)
        ensures
            final(self).cue_buffer.events@ == old(self).cue_buffer.events@.push(cue_of(*fiber)),
            final(self).delta_index.entries@ == old(self).delta_index.entries@,
    {
        let kind = match fiber.mode {
            MicroFiberMode::Generic => CueKind::Delta,
            MicroFiberMode::Physics => CueKind::Physics,
            MicroFiberMode::Hybrid => CueKind::Hybrid,
        };
        self.cue_buffer.push(
            CueEvent {
                fiber_id: fiber.id,
                kind,
                start: fiber.start,
                len: fiber.len,
                delta_bits: fiber.delta_bits,
            },
        );
    }

    pub fn record_delta_region(&mut self, start: usize, len: usize, magnitude_bits: u32)
        ensures
            final(self).delta_index.entries@ == old(self).delta_index.entries@.push(
                DeltaIndexEntry { start, len, magnitude_bits },
            ),
            final(self).cue_buffer.events@ == old(self).cue_buffer.events@,
    {
        self.delta_index.record(start, len, magnitude_bits);
    }

    pub fn is_hot_region(&self, start: usize, len: usize) -> (b: bool)
        ensures
            b == index_has_hot(self.delta_index.entries@, start, len),
    {
        self.delta_index.is_hot_region(start, len)
    }
}

// -----------------------------------------------------------------------------
// Fiber-level perf counters
// -----------------------------------------------------------------------------

#[derive(Clone, Copy, Debug, PartialEq, Eq, Structural)]
pub struct FiberPerfCounters {
    pub physics_steps: u64,
    pub generic_steps: u64,
    pub hybrid_steps: u64,
    pub total_elements_touched: u64,
}

impl FiberPerfCounters {
    /// All counters at zero.
    pub open spec fn default_spec() -> Self {
        FiberPerfCounters {
            physics_steps: 0,
            generic_steps: 0,
            hybrid_steps: 0,
            total_elements_touched: 0,
        }
    }
}

impl Default for FiberPerfCounters {
    fn default() -> (c: Self)
        ensures
            c == FiberPerfCounters::default_spec(),
    {
        FiberPerfCounters {
            physics_steps: 0,
            generic_steps: 0,
            hybrid_steps: 0,
            total_elements_touched: 0,
        }
    }
}

// -----------------------------------------------------------------------------
// Hardware delta-index table
// -----------------------------------------------------------------------------

/// A touched range with 32-bit start and length (truncated from `usize`), and the
/// magnitude as f32 bits.
#[derive(Clone, Copy, Debug, PartialEq, Eq, Structural)]
pub struct DeltaIndexTableEntry {
    pub start: u32,
    pub len: u32,
    pub magnitude_bits: u32,
}

/// Whether some entry matches `(start, len)` once both are truncated to 32 bits, with a
/// magnitude whose absolute value is above zero.
pub open spec fn table_has_hot(entries: Seq<DeltaIndexTableEntry>, start: usize, len: usize) -> bool {
    exists|k: int|
        0 <= k < entries.len() && (#[trigger] entries[k]).start == start as u32 && entries[k].len
            == len as u32 && abs_positive_spec(entries[k].magnitude_bits)
}

#[derive(Debug)]
pub struct DeltaIndexTable {
    pub entries: Vec<DeltaIndexTableEntry>,
}

impl DeltaIndexTable {
    pub fn new(capacity: usize) -> (t: Self)
        ensures
            t.entries@ == Seq::<DeltaIndexTableEntry>::empty(),
    {
        DeltaIndexTable { entries: Vec::with_capacity(capacity) }
    }

    pub fn record(&mut self, start: usize, len: usize, magnitude_bits: u32)
        ensures
            final(self).entries@ == old(self).entries@.push(
                DeltaIndexTableEntry { start: start as u32, len: len as u32, magnitude_bits },
            ),
    {
        let s32 = #[verifier::truncate] (start as u32);
        let l32 = #[verifier::truncate] (len as u32);
        self.entries.push(DeltaIndexTableEntry { start: s32, len: l32, magnitude_bits });
    }

    pub fn is_hot_region(&self, start: usize, len: usize) -> (b: bool)
        ensures
            b == table_has_hot(self.entries@, start, len),
    {
        let s32 = #[verifier::truncate] (start as u32);
        let l32 = #[verifier::truncate] (len as u32);
        let mut i: usize = 0;
        while i < self.entries.len()
            invariant
                i <= self.entries@.len(),
                s32 == start as u32,
                l32 == len as u32,
                forall|k: int|
                    0 <= k < i ==> !((#[trigger] self.entries@[k]).start == s32
                        && self.entries@[k].len == l32 && abs_positive_spec(
                        self.entries@[k].magnitude_bits,
                    )),
            decreases self.entries@.len() - i,
        {
            let e = self.entries[i];
            if e.start == s32 && e.len == l32 && abs_positive(e.magnitude_bits) {
                return true;
            }
            i = i + 1;
        }
        false
    }

    pub fn clear(&mut self)
        ensures
            final(self).entries@ == Seq::<DeltaIndexTableEntry>::empty(),
    {
        self.entries.clear();
    }
}

// -----------------------------------------------------------------------------
// Hardware cue buffer
// -----------------------------------------------------------------------------

#[derive(Clone, Copy, Debug, PartialEq, Eq, Structural)]
pub enum HardwareCueKind {
    Delta,
    Physics,
    Algebra,
    Hybrid,
}

/// The hardware cue kind a fiber of this mode is issued with.
pub open spec fn hw_kind_of(mode: MicroFiberMode) -> HardwareCueKind {
    match mode {
        MicroFiberMode::Generic => HardwareCueKind::Delta,
        MicroFiberMode::Physics => HardwareCueKind::Physics,
        MicroFiberMode::Hybrid => HardwareCueKind::Hybrid,
    }
}

#[derive(Clone, Copy, Debug, PartialEq, Eq, Structural)]
pub struct HardwareCueEntry {
    pub fiber_id: u32,
    pub kind: HardwareCueKind,
    pub start: u32,
    pub len: u32,
    pub delta_bits: u32,
}

#[derive(Debug)]
pub struct HardwareCueBuffer {
    pub entries: Vec<HardwareCueEntry>,
}

impl HardwareCueBuffer {
    pub fn new(capacity: usize) -> (b: Self)
        ensures
            b.entries@ == Seq::<HardwareCueEntry>::empty(),
    {
        HardwareCueBuffer { entries: Vec::with_capacity(capacity) }
    }

    pub fn push(&mut self, ev: HardwareCueEntry)
        ensures
            final(self).entries@ == old(self).entries@.push(ev),
    {
        self.entries.push(ev);
    }

    /// Hands out every queued entry, oldest first, and empties the buffer.
    pub fn drain(&mut self) -> (out: Vec<HardwareCueEntry>)
        ensures
            out@ == old(self).entries@,
            final(self).entries@ == Seq::<HardwareCueEntry>::empty(),
    {
        let mut out: Vec<HardwareCueEntry> = Vec::new();
        std::mem::swap(&mut out, &mut self.entries);
        out
    }

    pub fn clear(&mut self)
        ensures
            final(self).entries@ == Seq::<HardwareCueEntry>::empty(),
    {
        self.entries.clear();
    }
}

} // verus!
