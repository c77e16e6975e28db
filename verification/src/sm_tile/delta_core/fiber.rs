use vstd::prelude::*;

verus! {

/// Work mode of a block delta core.
#[derive(Clone, Copy, Debug, PartialEq, Eq, Structural)]
pub enum DeltaMode {
    Generic,
    Physics,
    Hybrid,
}

/// Work mode of a micro-fiber.
#[derive(Clone, Copy, Debug, PartialEq, Eq, Structural)]
pub enum MicroFiberMode {
    Generic,
    Physics,
    Hybrid,
}

/// Life cycle of a micro-fiber.
#[derive(Clone, Copy, Debug, PartialEq, Eq, Structural)]
pub enum MicroFiberState {
    Ready,
    Running,
    Completed,
}

/// Scheduling priority; physics fibers go first, then generic, then hybrid.
#[derive(Clone, Copy, Debug, PartialEq, Eq, Structural, PartialOrd, Ord)]
pub enum MicroFiberPriority {
    Physics,
    Generic,
    Hybrid,
}

/// Position of a priority in scheduling order.
pub open spec fn priority_rank(p: MicroFiberPriority) -> nat {
    match p {
        MicroFiberPriority::Physics => 0,
        MicroFiberPriority::Generic => 1,
        MicroFiberPriority::Hybrid => 2,
    }
}

/// The priority a fiber of the given mode starts with.
pub open spec fn priority_of_mode(mode: MicroFiberMode) -> MicroFiberPriority {
    match mode {
        MicroFiberMode::Physics => MicroFiberPriority::Physics,
        MicroFiberMode::Generic => MicroFiberPriority::Generic,
        MicroFiberMode::Hybrid => MicroFiberPriority::Hybrid,
    }
}

impl MicroFiberPriority {
    /// Position of this priority in scheduling order.
    pub fn rank(&self) -> (r: usize)
        ensures
            r == priority_rank(*self),
    {
        match self {
            MicroFiberPriority::Physics => 0,
            MicroFiberPriority::Generic => 1,
            MicroFiberPriority::Hybrid => 2,
        }
    }
}

/// A unit of delta work over the sample range `[start, start + len)`; `delta_bits` is
/// the f32 delta (or time step) as its bit pattern.
#[derive(Clone, Copy, Debug, PartialEq, Eq, Structural)]
pub struct MicroFiber {
    pub id: usize,
    pub mode: MicroFiberMode,
    pub state: MicroFiberState,
    pub priority: MicroFiberPriority,
    pub start: usize,
    pub len: usize,
    pub delta_bits: u32,
    pub tile_id: usize,
    pub speculative: bool,
    pub rollback_allowed: bool,
}

/// The fiber that `MicroFiber::new` builds from these arguments.
pub open spec fn new_fiber(
    id: usize,
    mode: MicroFiberMode,
    start: usize,
    len: usize,
    delta_bits: u32,
    tile_id: usize,
) -> MicroFiber {
    MicroFiber {
        id,
        mode,
        state: MicroFiberState::Ready,
        priority: priority_of_mode(mode),
        start,
        len,
        delta_bits,
        tile_id,
        speculative: false,
        rollback_allowed: false,
    }
}

/// The fiber with its state replaced.
pub open spec fn with_state(f: MicroFiber, state: MicroFiberState) -> MicroFiber {
    MicroFiber { state, ..f }
}

impl MicroFiber {
    /// A ready, non-speculative fiber whose priority follows its mode.
    pub fn new(
        id: usize,
        mode: MicroFiberMode,
        start: usize,
        len: usize,
        delta_bits: u32,
        tile_id: usize,
    ) -> (f: Self)
        ensures
            f == new_fiber(id, mode, start, len, delta_bits, tile_id),
    {
        let priority = match mode {
            MicroFiberMode::Physics => MicroFiberPriority::Physics,
            MicroFiberMode::Generic => MicroFiberPriority::Generic,
            MicroFiberMode::Hybrid => MicroFiberPriority::Hybrid,
        };
        MicroFiber {
            id,
            mode,
            state: MicroFiberState::Ready,
            priority,
            start,
            len,
            delta_bits,
            tile_id,
            speculative: false,
            rollback_allowed: false,
        }
    }

    pub fn mark_running(&mut self)
        ensures
            *final(self) == with_state(*old(self), MicroFiberState::Running),
    {
        self.state = MicroFiberState::Running;
    }

    pub fn mark_completed(&mut self)
        ensures
            *final(self) == with_state(*old(self), MicroFiberState::Completed),
    {
        self.state = MicroFiberState::Completed;
    }

    pub fn is_ready(&self) -> (b: bool)
        ensures
            b == (self.state == MicroFiberState::Ready),
    {
        self.state == MicroFiberState::Ready
    }

    /// A fiber of at most 32 samples.
    pub fn is_tiny(&self) -> (b: bool)
        ensures
            b == (self.len <= 32),
    {
        self.len <= 32
    }
}

/// A group of fibers, by their index in the scheduler's fiber list.
pub struct MicroFiberGroup {
    pub id: usize,
    pub fibers: Vec<usize>,
}

impl MicroFiberGroup {
    pub fn new(id: usize) -> (g: Self)
        ensures
            g.id == id,
            g.fibers@ == Seq::<usize>::empty(),
    {
        MicroFiberGroup { id, fibers: Vec::new() }
    }

    pub fn add_fiber_index(&mut self, idx: usize)
        ensures
            final(self).id == old(self).id,
            final(self).fibers@ == old(self).fibers@.push(idx),
    {
        self.fibers.push(idx);
    }
}

// -----------------------------------------------------------------------------
// Tiny-fiber fusion
// -----------------------------------------------------------------------------

/// Sum of the lengths of the fibers.
pub open spec fn sum_lens(s: Seq<MicroFiber>) -> int
    decreases s.len(),
{
    if s.len() == 0 {
        0
    } else {
        sum_lens(s.drop_last()) + s.last().len
    }
}

/// The fiber that stands for a fused buffer of tiny fibers: the first one's identity,
/// mode, priority, start, delta and tile, with the total length.
pub open spec fn fused_fiber(buffer: Seq<MicroFiber>) -> MicroFiber {
    MicroFiber {
        priority: buffer[0].priority,
        ..new_fiber(
            buffer[0].id,
            buffer[0].mode,
            buffer[0].start,
            sum_lens(buffer) as usize,
            buffer[0].delta_bits,
            buffer[0].tile_id,
        )
    }
}

/// One fiber through the fusion pass: a tiny fiber joins the buffer, and a full buffer
/// becomes one fused fiber; any other fiber is passed on.
pub open spec fn fuse_step(
    st: (Seq<MicroFiber>, Seq<MicroFiber>),
    f: MicroFiber,
    max_tiny: usize,
    min_fuse: usize,
) -> (Seq<MicroFiber>, Seq<MicroFiber>) {
    if f.len <= max_tiny {
        let b = st.1.push(f);
        if b.len() >= min_fuse {
            (st.0.push(fused_fiber(b)), Seq::empty())
        } else {
            (st.0, b)
        }
    } else {
        (st.0.push(f), st.1)
    }
}

/// The (passed-on, buffered) state of the fusion pass after the fibers of `s`.
pub open spec fn fuse_state(s: Seq<MicroFiber>, max_tiny: usize, min_fuse: usize) -> (
    Seq<MicroFiber>,
    Seq<MicroFiber>,
)
    decreases s.len(),
{
    if s.len() == 0 {
        (Seq::empty(), Seq::empty())
    } else {
        fuse_step(fuse_state(s.drop_last(), max_tiny, min_fuse), s.last(), max_tiny, min_fuse)
    }
}

/// The fiber list after fusion: the passed-on fibers, then the tiny ones left over.
pub open spec fn fused_fibers(s: Seq<MicroFiber>, max_tiny: usize, min_fuse: usize) -> Seq<
    MicroFiber,
> {
    let st = fuse_state(s, max_tiny, min_fuse);
    st.0 + st.1
}

/// Every fused length fits in a `usize` (the total of a fused buffer is computed in one).
pub open spec fn fusion_fits(s: Seq<MicroFiber>, max_tiny: usize, min_fuse: usize) -> bool
    decreases s.len(),
{
    if s.len() == 0 {
        true
    } else {
        let st = fuse_state(s.drop_last(), max_tiny, min_fuse);
        let f = s.last();
        &&& fusion_fits(s.drop_last(), max_tiny, min_fuse)
        &&& (f.len <= max_tiny && st.1.len() + 1 >= min_fuse) ==> sum_lens(st.1.push(f))
            <= usize::MAX
    }
}

pub proof fn lemma_sum_lens_nonneg(s: Seq<MicroFiber>)
    ensures
        sum_lens(s) >= 0,
    decreases s.len(),
{
    if s.len() > 0 {
        lemma_sum_lens_nonneg(s.drop_last());
    }
}

pub proof fn lemma_sum_lens_take(s: Seq<MicroFiber>, k: int)
    requires
        0 <= k <= s.len(),
    ensures
        0 <= sum_lens(s.take(k)) <= sum_lens(s),
    decreases s.len() - k,
{
    lemma_sum_lens_nonneg(s.take(k));
    if k < s.len() {
        lemma_sum_lens_take(s, k + 1);
        assert(s.take(k + 1).drop_last() =~= s.take(k));
    } else {
        assert(s.take(k) =~= s);
    }
}

pub proof fn lemma_sum_lens_concat(a: Seq<MicroFiber>, b: Seq<MicroFiber>)
    ensures
        sum_lens(a + b) == sum_lens(a) + sum_lens(b),
    decreases b.len(),
{
    if b.len() == 0 {
        assert(a + b =~= a);
    } else {
        lemma_sum_lens_concat(a, b.drop_last());
        assert((a + b).drop_last() =~= a + b.drop_last());
    }
}

/// Total of the lengths of the fibers in `buffer`.
fn total_len(buffer: &Vec<MicroFiber>) -> (t: usize)
    requires
        sum_lens(buffer@) <= usize::MAX,
    ensures
        t == sum_lens(buffer@),
{
    let mut t: usize = 0;
    let mut i: usize = 0;
    while i < buffer.len()
        invariant
            i <= buffer@.len(),
            t == sum_lens(buffer@.take(i as int)),
            sum_lens(buffer@) <= usize::MAX,
        decreases buffer@.len() - i,
    {
        proof {
            lemma_sum_lens_take(buffer@, i as int + 1);
            assert(buffer@.take(i as int + 1).drop_last() =~= buffer@.take(i as int));
        }
        t = t + buffer[i].len;
        i = i + 1;
    }
    assert(buffer@.take(buffer@.len() as int) =~= buffer@);
    t
}

/// The fusion pass over a fiber list.
pub fn fuse_fiber_list(fibers: &Vec<MicroFiber>, max_tiny: usize, min_fuse: usize) -> (r: Vec<
    MicroFiber,
>)
    requires
        fusion_fits(fibers@, max_tiny, min_fuse),
    ensures
        r@ == fused_fibers(fibers@, max_tiny, min_fuse),
{
    let mut fused: Vec<MicroFiber> = Vec::new();
    let mut buffer: Vec<MicroFiber> = Vec::new();
    let mut i: usize = 0;
    while i < fibers.len()
        invariant
            i <= fibers@.len(),
            fusion_fits(fibers@.take(i as int), max_tiny, min_fuse),
            fusion_fits(fibers@, max_tiny, min_fuse),
            (fused@, buffer@) == fuse_state(fibers@.take(i as int), max_tiny, min_fuse),
        decreases fibers@.len() - i,
    {
        proof {
            let p = fibers@.take(i as int + 1);
            assert(p.drop_last() =~= fibers@.take(i as int));
            lemma_fusion_fits_prefix(fibers@, i as int + 1, max_tiny, min_fuse);
        }
        let f = fibers[i];
        if f.len <= max_tiny {
            buffer.push(f);
            if buffer.len() >= min_fuse {
                let total = total_len(&buffer);
                let mut fused_fiber = MicroFiber::new(
                    buffer[0].id,
                    buffer[0].mode,
                    buffer[0].start,
                    total,
                    buffer[0].delta_bits,
                    buffer[0].tile_id,
                );
                fused_fiber.priority = buffer[0].priority;
                fused.push(fused_fiber);
                buffer = Vec::new();
            }
        } else {
            fused.push(f);
        }
        i = i + 1;
    }
    assert(fibers@.take(fibers@.len() as int) =~= fibers@);
    let mut out = fused;
    let mut j: usize = 0;
    let ghost base = out@;
    while j < buffer.len()
        invariant
            j <= buffer@.len(),
            out@ == base + buffer@.take(j as int),
        decreases buffer@.len() - j,
    {
        out.push(buffer[j]);
        j = j + 1;
        assert(out@ =~= base + buffer@.take(j as int));
    }
    assert(buffer@.take(buffer@.len() as int) =~= buffer@);
    out
}

/// Whether every fused length of the fusion pass over `fibers` fits in a `usize`, i.e.
/// whether the pass can run on them.
pub fn fusion_fits_check(fibers: &Vec<MicroFiber>, max_tiny: usize, min_fuse: usize) -> (b: bool)
    ensures
        b == fusion_fits(fibers@, max_tiny, min_fuse),
{
    let mut count: usize = 0;
    let mut sum: usize = 0;
    let mut over = false;
    let mut i: usize = 0;
    while i < fibers.len()
        invariant
            i <= fibers@.len(),
            count <= i,
            fusion_fits(fibers@.take(i as int), max_tiny, min_fuse),
            count == fuse_state(fibers@.take(i as int), max_tiny, min_fuse).1.len(),
            over == (sum_lens(fuse_state(fibers@.take(i as int), max_tiny, min_fuse).1)
                > usize::MAX),
            !over ==> sum == sum_lens(fuse_state(fibers@.take(i as int), max_tiny, min_fuse).1),
        decreases fibers@.len() - i,
    {
        let ghost st = fuse_state(fibers@.take(i as int), max_tiny, min_fuse);
        proof {
            assert(fibers@.take(i as int + 1).drop_last() =~= fibers@.take(i as int));
        }
        let f = fibers[i];
        if f.len <= max_tiny {
            proof {
                assert(st.1.push(f).drop_last() =~= st.1);
            }
            if !over && f.len <= usize::MAX - sum {
                sum = sum + f.len;
            } else {
                over = true;
            }
            if count + 1 >= min_fuse {
                if over {
                    proof {
                        if fusion_fits(fibers@, max_tiny, min_fuse) {
                            lemma_fusion_fits_prefix(fibers@, i as int + 1, max_tiny, min_fuse);
                        }
                    }
                    return false;
                }
                count = 0;
                sum = 0;
                over = false;
                proof {
                    assert(sum_lens(Seq::<MicroFiber>::empty()) == 0);
                }
            } else {
                count = count + 1;
            }
        }
        i = i + 1;
    }
    proof {
        assert(fibers@.take(fibers@.len() as int) =~= fibers@);
    }
    true
}

pub proof fn lemma_fusion_fits_prefix(s: Seq<MicroFiber>, k: int, max_tiny: usize, min_fuse: usize)
    requires
        0 <= k <= s.len(),
        fusion_fits(s, max_tiny, min_fuse),
    ensures
        fusion_fits(s.take(k), max_tiny, min_fuse),
    decreases s.len() - k,
{
    if k < s.len() {
        lemma_fusion_fits_prefix(s, k + 1, max_tiny, min_fuse);
        assert(s.take(k + 1).drop_last() =~= s.take(k));
    } else {
        assert(s.take(k) =~= s);
    }
}

/// Invariant of the fusion pass: what was passed on plus what is buffered holds as many
/// samples as the fibers seen so far, in no more fibers.
pub proof fn lemma_fuse_state_totals(s: Seq<MicroFiber>, max_tiny: usize, min_fuse: usize)
    requires
        fusion_fits(s, max_tiny, min_fuse),
    ensures
        sum_lens(fuse_state(s, max_tiny, min_fuse).0) + sum_lens(fuse_state(s, max_tiny, min_fuse).1)
            == sum_lens(s),
        fuse_state(s, max_tiny, min_fuse).0.len() + fuse_state(s, max_tiny, min_fuse).1.len()
            <= s.len(),
    decreases s.len(),
{
    if s.len() > 0 {
        lemma_fuse_state_totals(s.drop_last(), max_tiny, min_fuse);
        let st = fuse_state(s.drop_last(), max_tiny, min_fuse);
        let f = s.last();
        if f.len <= max_tiny {
            let b = st.1.push(f);
            assert(b.drop_last() =~= st.1);
            if b.len() >= min_fuse {
                assert(st.0.push(fused_fiber(b)).drop_last() =~= st.0);
                lemma_sum_lens_nonneg(b);
                assert(sum_lens(Seq::<MicroFiber>::empty()) == 0);
            }
        } else {
            assert(st.0.push(f).drop_last() =~= st.0);
        }
    }
}

/// Fusing tiny fibers keeps the total number of samples covered, and never adds fibers.
pub proof fn law_fusion_keeps_total_len(s: Seq<MicroFiber>, max_tiny: usize, min_fuse: usize)
    requires
        fusion_fits(s, max_tiny, min_fuse),
    ensures
        sum_lens(fused_fibers(s, max_tiny, min_fuse)) == sum_lens(s),
        fused_fibers(s, max_tiny, min_fuse).len() <= s.len(),
{
    lemma_fuse_state_totals(s, max_tiny, min_fuse);
    let st = fuse_state(s, max_tiny, min_fuse);
    lemma_sum_lens_concat(st.0, st.1);
}

/// `g` carries the identity, mode, priority, start, delta and tile of `f` (its length
/// and state may differ).
pub open spec fn same_origin(g: MicroFiber, f: MicroFiber) -> bool {
    &&& g.id == f.id
    &&& g.mode == f.mode
    &&& g.priority == f.priority
    &&& g.start == f.start
    &&& g.delta_bits == f.delta_bits
    &&& g.tile_id == f.tile_id
}

proof fn lemma_fuse_state_origins(s: Seq<MicroFiber>, max_tiny: usize, min_fuse: usize)
    ensures
        forall|j: int|
            0 <= j < fuse_state(s, max_tiny, min_fuse).0.len() ==> exists|k: int|
                0 <= k < s.len() && same_origin(
                    #[trigger] fuse_state(s, max_tiny, min_fuse).0[j],
                    s[k],
                ),
        forall|j: int|
            0 <= j < fuse_state(s, max_tiny, min_fuse).1.len() ==> exists|k: int|
                0 <= k < s.len() && #[trigger] fuse_state(s, max_tiny, min_fuse).1[j] == s[k],
    decreases s.len(),
{
    if s.len() > 0 {
        let p = s.drop_last();
        lemma_fuse_state_origins(p, max_tiny, min_fuse);
        let st = fuse_state(p, max_tiny, min_fuse);
        let f = s.last();
        let nst = fuse_state(s, max_tiny, min_fuse);
        assert(nst == fuse_step(st, f, max_tiny, min_fuse));
        assert forall|j: int| 0 <= j < st.0.len() implies exists|k: int|
            0 <= k < s.len() && same_origin(#[trigger] st.0[j], s[k]) by {
            let k = choose|k: int| 0 <= k < p.len() && same_origin(st.0[j], p[k]);
            assert(s[k] == p[k]);
        }
        assert forall|j: int| 0 <= j < st.1.len() implies exists|k: int|
            0 <= k < s.len() && #[trigger] st.1[j] == s[k] by {
            let k = choose|k: int| 0 <= k < p.len() && st.1[j] == p[k];
            assert(s[k] == p[k]);
        }
        assert(f == s[s.len() - 1]);
        if f.len <= max_tiny {
            let b = st.1.push(f);
            assert forall|j: int| 0 <= j < b.len() implies exists|k: int|
                0 <= k < s.len() && #[trigger] b[j] == s[k] by {
                if j < st.1.len() {
                    assert(b[j] == st.1[j]);
                } else {
                    assert(b[j] == s[s.len() - 1]);
                }
            }
            if b.len() >= min_fuse {
                let g = fused_fiber(b);
                let k0 = choose|k: int| 0 <= k < s.len() && b[0] == s[k];
                assert(same_origin(g, s[k0]));
                let n0 = st.0.push(g);
                assert forall|j: int| 0 <= j < n0.len() implies exists|k: int|
                    0 <= k < s.len() && same_origin(#[trigger] n0[j], s[k]) by {
                    if j < st.0.len() {
                        assert(n0[j] == st.0[j]);
                    } else {
                        assert(n0[j] == g);
                    }
                }
            }
        } else {
            let n0 = st.0.push(f);
            assert forall|j: int| 0 <= j < n0.len() implies exists|k: int|
                0 <= k < s.len() && same_origin(#[trigger] n0[j], s[k]) by {
                if j < st.0.len() {
                    assert(n0[j] == st.0[j]);
                } else {
                    assert(n0[j] == s[s.len() - 1]);
                }
            }
        }
    }
}

/// Every fiber that fusion gives back carries the identity, mode, priority, start, delta
/// and tile of one of the fibers it was given: fusion never invents or drops a delta.
pub proof fn law_fusion_keeps_origins(s: Seq<MicroFiber>, max_tiny: usize, min_fuse: usize)
    ensures
        forall|j: int|
            0 <= j < fused_fibers(s, max_tiny, min_fuse).len() ==> exists|k: int|
                0 <= k < s.len() && same_origin(
                    #[trigger] fused_fibers(s, max_tiny, min_fuse)[j],
                    s[k],
                ),
{
    lemma_fuse_state_origins(s, max_tiny, min_fuse);
    let st = fuse_state(s, max_tiny, min_fuse);
    let r = st.0 + st.1;
    assert forall|j: int| 0 <= j < r.len() implies exists|k: int|
        0 <= k < s.len() && same_origin(#[trigger] r[j], s[k]) by {
        if j < st.0.len() {
            assert(r[j] == st.0[j]);
        } else {
            assert(r[j] == st.1[j - st.0.len()]);
            let k = choose|k: int| 0 <= k < s.len() && st.1[j - st.0.len()] == s[k];
            assert(same_origin(r[j], s[k]));
        }
    }
}

/// A fiber longer than the tiny limit comes through fusion unchanged.
pub proof fn law_fusion_keeps_large_fibers(
    s: Seq<MicroFiber>,
    max_tiny: usize,
    min_fuse: usize,
    f: MicroFiber,
)
    requires
        s.contains(f),
        f.len > max_tiny,
    ensures
        fused_fibers(s, max_tiny, min_fuse).contains(f),
{
    lemma_fuse_state_keeps_large(s, max_tiny, min_fuse, f);
    let st = fuse_state(s, max_tiny, min_fuse);
    let k = choose|k: int| 0 <= k < st.0.len() && st.0[k] == f;
    assert((st.0 + st.1)[k] == f);
}

pub proof fn lemma_fuse_state_keeps_large(
    s: Seq<MicroFiber>,
    max_tiny: usize,
    min_fuse: usize,
    f: MicroFiber,
)
    requires
        s.contains(f),
        f.len > max_tiny,
    ensures
        fuse_state(s, max_tiny, min_fuse).0.contains(f),
    decreases s.len(),
{
    let st = fuse_state(s.drop_last(), max_tiny, min_fuse);
    let g = s.last();
    if s.drop_last().contains(f) {
        lemma_fuse_state_keeps_large(s.drop_last(), max_tiny, min_fuse, f);
        let k = choose|k: int| 0 <= k < st.0.len() && st.0[k] == f;
        if g.len <= max_tiny {
            let b = st.1.push(g);
            if b.len() >= min_fuse {
                assert(st.0.push(fused_fiber(b))[k] == f);
            }
        } else {
            assert(st.0.push(g)[k] == f);
        }
    } else {
        let k = choose|k: int| 0 <= k < s.len() && s[k] == f;
        if k < s.len() - 1 {
            assert(s.drop_last()[k] == f);
        }
        assert(g == f);
        assert(st.0.push(g)[st.0.len() as int] == f);
    }
}

/// Fusion parameters: fibers of at most `max_tiny_len` samples are fused in runs of
/// `min_fibers_to_fuse`.
#[derive(Clone, Copy, Debug)]
pub struct FiberFusionConfig {
    pub max_tiny_len: usize,
    pub min_fibers_to_fuse: usize,
}

impl Default for FiberFusionConfig {
    fn default() -> (c: Self)
        ensures
            c.max_tiny_len == 32,
            c.min_fibers_to_fuse == 4,
    {
        FiberFusionConfig { max_tiny_len: 32, min_fibers_to_fuse: 4 }
    }
}

pub struct FiberFusionController {
    pub config: FiberFusionConfig,
}

impl FiberFusionController {
    pub fn new(config: FiberFusionConfig) -> (c: Self)
        ensures
            c.config == config,
    {
        FiberFusionController { config }
    }

    /// Fuses runs of tiny fibers in place.
    pub fn fuse_fibers(&self, fibers: &mut Vec<MicroFiber>)
        requires
            fusion_fits(old(fibers)@, self.config.max_tiny_len, self.config.min_fibers_to_fuse),
        ensures
            final(fibers)@ == fused_fibers(
                old(fibers)@,
                self.config.max_tiny_len,
                self.config.min_fibers_to_fuse,
            ),
    {
        let r = fuse_fiber_list(fibers, self.config.max_tiny_len, self.config.min_fibers_to_fuse);
        *fibers = r;
    }
}

} // verus!
