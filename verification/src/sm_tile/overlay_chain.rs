use vstd::prelude::*;
use crate::float_bits::{is_zero, is_zero_spec};

verus! {

/// A snapshot of tile state: f32 samples as bit patterns.
#[derive(Clone, Debug)]
pub struct Overlay {
    pub values: Vec<u32>,
}

impl Overlay {
    pub fn new(values: Vec<u32>) -> (o: Self)
        ensures
            o.values@ == values@,
    {
        Overlay { values }
    }

    pub fn len(&self) -> (n: usize)
        ensures
            n == self.values@.len(),
    {
        self.values.len()
    }

    pub fn is_empty(&self) -> (b: bool)
        ensures
            b == (self.values@.len() == 0),
    {
        self.values.len() == 0
    }

    /// A copy with the same samples.
    pub fn duplicate(&self) -> (o: Overlay)
        ensures
            o.values@ == self.values@,
    {
        Overlay { values: self.values.clone() }
    }
}

/// The samples of the overlays, as plain sequences.
pub open spec fn overlay_values(s: Seq<Overlay>) -> Seq<Seq<u32>> {
    s.map_values(|o: Overlay| o.values@)
}

/// Concatenation of sample sequences, in order.
pub open spec fn concat_all(b: Seq<Seq<u32>>) -> Seq<u32>
    decreases b.len(),
{
    if b.len() == 0 {
        Seq::empty()
    } else {
        concat_all(b.drop_last()) + b.last()
    }
}

/// One overlay through the fusion pass: a tiny one (at most `max_tiny` samples) joins the
/// buffer, a buffer of `min_fuse` becomes one overlay of their concatenated samples, and
/// any other overlay is passed on.
pub open spec fn overlay_fuse_step(
    st: (Seq<Seq<u32>>, Seq<Seq<u32>>),
    ov: Seq<u32>,
    max_tiny: usize,
    min_fuse: usize,
) -> (Seq<Seq<u32>>, Seq<Seq<u32>>) {
    if ov.len() <= max_tiny {
        let b = st.1.push(ov);
        if b.len() >= min_fuse {
            (st.0.push(concat_all(b)), Seq::empty())
        } else {
            (st.0, b)
        }
    } else {
        (st.0.push(ov), st.1)
    }
}

/// The (passed-on, buffered) state after the overlays of `s`.
pub open spec fn overlay_fuse_state(s: Seq<Seq<u32>>, max_tiny: usize, min_fuse: usize) -> (
    Seq<Seq<u32>>,
    Seq<Seq<u32>>,
)
    decreases s.len(),
{
    if s.len() == 0 {
        (Seq::empty(), Seq::empty())
    } else {
        overlay_fuse_step(
            overlay_fuse_state(s.drop_last(), max_tiny, min_fuse),
            s.last(),
            max_tiny,
            min_fuse,
        )
    }
}

/// The chain after fusion: the passed-on overlays, then the tiny ones left over.
pub open spec fn fused_overlays(s: Seq<Seq<u32>>, max_tiny: usize, min_fuse: usize) -> Seq<
    Seq<u32>,
> {
    let st = overlay_fuse_state(s, max_tiny, min_fuse);
    st.0 + st.1
}

pub proof fn lemma_concat_all_append(a: Seq<Seq<u32>>, b: Seq<Seq<u32>>)
    ensures
        concat_all(a + b) == concat_all(a) + concat_all(b),
    decreases b.len(),
{
    if b.len() == 0 {
        assert(a + b =~= a);
        assert(concat_all(a) + concat_all(b) =~= concat_all(a));
    } else {
        lemma_concat_all_append(a, b.drop_last());
        assert((a + b).drop_last() =~= a + b.drop_last());
        assert(concat_all(a) + (concat_all(b.drop_last()) + b.last()) =~= (concat_all(a)
            + concat_all(b.drop_last())) + b.last());
    }
}

pub proof fn lemma_overlay_fuse_state_samples(s: Seq<Seq<u32>>, max_tiny: usize, min_fuse: usize)
    ensures
        (concat_all(overlay_fuse_state(s, max_tiny, min_fuse).0) + concat_all(
            overlay_fuse_state(s, max_tiny, min_fuse).1,
        )).len() == concat_all(s).len(),
    decreases s.len(),
{
    if s.len() > 0 {
        lemma_overlay_fuse_state_samples(s.drop_last(), max_tiny, min_fuse);
        let st = overlay_fuse_state(s.drop_last(), max_tiny, min_fuse);
        let ov = s.last();
        if ov.len() <= max_tiny {
            let b = st.1.push(ov);
            assert(b.drop_last() =~= st.1);
            if b.len() >= min_fuse {
                assert(st.0.push(concat_all(b)).drop_last() =~= st.0);
                assert(concat_all(Seq::<Seq<u32>>::empty()) == Seq::<u32>::empty());
            }
        } else {
            assert(st.0.push(ov).drop_last() =~= st.0);
        }
    }
}

/// Fusing tiny overlays keeps the total number of samples in the chain.
pub proof fn law_overlay_fusion_keeps_samples(s: Seq<Seq<u32>>, max_tiny: usize, min_fuse: usize)
    ensures
        concat_all(fused_overlays(s, max_tiny, min_fuse)).len() == concat_all(s).len(),
{
    lemma_overlay_fuse_state_samples(s, max_tiny, min_fuse);
    let st = overlay_fuse_state(s, max_tiny, min_fuse);
    lemma_concat_all_append(st.0, st.1);
}

/// A chain with no tiny overlay comes through fusion unchanged.
pub proof fn law_overlay_fusion_without_tiny_is_identity(
    s: Seq<Seq<u32>>,
    max_tiny: usize,
    min_fuse: usize,
)
    requires
        forall|k: int| 0 <= k < s.len() ==> (#[trigger] s[k]).len() > max_tiny,
    ensures
        fused_overlays(s, max_tiny, min_fuse) == s,
    decreases s.len(),
{
    if s.len() > 0 {
        law_overlay_fusion_without_tiny_is_identity(s.drop_last(), max_tiny, min_fuse);
        let st = overlay_fuse_state(s.drop_last(), max_tiny, min_fuse);
        assert(st.1 =~= Seq::<Seq<u32>>::empty()) by {
            lemma_no_tiny_empty_buffer(s.drop_last(), max_tiny, min_fuse);
        }
        assert(st.0 + st.1 =~= st.0);
        assert(s.drop_last().push(s.last()) =~= s);
        assert(st.0.push(s.last()) + Seq::<Seq<u32>>::empty() =~= st.0.push(s.last()));
    } else {
        assert(fused_overlays(s, max_tiny, min_fuse) =~= s);
    }
}

proof fn lemma_no_tiny_empty_buffer(s: Seq<Seq<u32>>, max_tiny: usize, min_fuse: usize)
    requires
        forall|k: int| 0 <= k < s.len() ==> (#[trigger] s[k]).len() > max_tiny,
    ensures
        overlay_fuse_state(s, max_tiny, min_fuse).1.len() == 0,
    decreases s.len(),
{
    if s.len() > 0 {
        lemma_no_tiny_empty_buffer(s.drop_last(), max_tiny, min_fuse);
        assert(s.last() == s[s.len() - 1]);
    }
}

/// The tiny overlays (at most `max_tiny` samples) of `s`, in order.
pub open spec fn tiny_overlays(s: Seq<Seq<u32>>, max_tiny: usize) -> Seq<Seq<u32>>
    decreases s.len(),
{
    if s.len() == 0 {
        s
    } else {
        let t = tiny_overlays(s.drop_last(), max_tiny);
        if s.last().len() <= max_tiny {
            t.push(s.last())
        } else {
            t
        }
    }
}

proof fn lemma_next_div_mod(l: int, m: int)
    requires
        l >= 0,
        m > 0,
    ensures
        l % m + 1 == m ==> (l + 1) % m == 0 && (l + 1) / m == l / m + 1,
        l % m + 1 < m ==> (l + 1) % m == l % m + 1 && (l + 1) / m == l / m,
        0 <= l % m < m,
        l % m <= l,
        l / m >= 0,
{
    let q = l / m;
    let r = l % m;
    vstd::arithmetic::div_mod::lemma_fundamental_div_mod(l, m);
    vstd::arithmetic::div_mod::lemma_mod_bound(l, m);
    assert(m * q == q * m) by (nonlinear_arith);
    assert(q >= 0) by (nonlinear_arith)
        requires
            l == q * m + r,
            0 <= r < m,
            l >= 0,
            m > 0,
    ;
    assert(q * m >= 0) by (nonlinear_arith)
        requires
            q >= 0,
            m > 0,
    ;
    if r + 1 == m {
        assert(l + 1 == (q + 1) * m + 0) by (nonlinear_arith)
            requires
                l == q * m + r,
                r + 1 == m,
        ;
        vstd::arithmetic::div_mod::lemma_fundamental_div_mod_converse_mod(l + 1, m, q + 1, 0);
        vstd::arithmetic::div_mod::lemma_fundamental_div_mod_converse_div(l + 1, m, q + 1, 0);
    } else {
        assert(l + 1 == q * m + (r + 1));
        vstd::arithmetic::div_mod::lemma_fundamental_div_mod_converse_mod(l + 1, m, q, r + 1);
        vstd::arithmetic::div_mod::lemma_fundamental_div_mod_converse_div(l + 1, m, q, r + 1);
    }
}

proof fn lemma_overlay_fuse_state_shape(s: Seq<Seq<u32>>, max_tiny: usize, min_fuse: usize)
    requires
        min_fuse > 0,
    ensures
        ({
            let st = overlay_fuse_state(s, max_tiny, min_fuse);
            let t = tiny_overlays(s, max_tiny);
            let m = min_fuse as int;
            &&& t.len() <= s.len()
            &&& st.1 == t.skip(t.len() - (t.len() as int) % m)
            &&& st.0.len() == (s.len() - t.len()) + (t.len() as int) / m
        }),
    decreases s.len(),
{
    let m = min_fuse as int;
    let t = tiny_overlays(s, max_tiny);
    if s.len() == 0 {
        assert(t.skip(0) =~= Seq::<Seq<u32>>::empty());
    } else {
        let p = s.drop_last();
        lemma_overlay_fuse_state_shape(p, max_tiny, min_fuse);
        let st = overlay_fuse_state(p, max_tiny, min_fuse);
        let tp = tiny_overlays(p, max_tiny);
        let ov = s.last();
        let l = tp.len() as int;
        lemma_next_div_mod(l, m);
        if ov.len() <= max_tiny {
            assert(t == tp.push(ov));
            let b = st.1.push(ov);
            assert(b.len() == l % m + 1);
            if b.len() >= min_fuse {
                assert(t.skip(t.len() - (t.len() as int) % m) =~= Seq::<Seq<u32>>::empty());
            } else {
                assert(t.skip(t.len() - (t.len() as int) % m) =~= tp.skip(l - l % m).push(ov));
            }
        } else {
            assert(t == tp);
        }
    }
}

/// Tiny-overlay fusion with a positive run length `min_fuse` keeps every larger overlay,
/// turns each full run of `min_fuse` tiny overlays into one overlay, and moves the tiny
/// overlays left over (fewer than a run) to the end unchanged: the chain then holds
/// exactly (larger overlays) + (tiny overlays / `min_fuse`) + (tiny overlays mod
/// `min_fuse`) overlays, and its last ones are the last tiny overlays of the input.
pub proof fn law_overlay_fusion_count_and_leftovers(
    s: Seq<Seq<u32>>,
    max_tiny: usize,
    min_fuse: usize,
)
    requires
        min_fuse > 0,
    ensures
        ({
            let f = fused_overlays(s, max_tiny, min_fuse);
            let t = tiny_overlays(s, max_tiny);
            let k = (t.len() as int) % (min_fuse as int);
            &&& f.len() == (s.len() - t.len()) + (t.len() as int) / (min_fuse as int) + k
            &&& f.skip(f.len() - k) == t.skip(t.len() - k)
        }),
{
    lemma_overlay_fuse_state_shape(s, max_tiny, min_fuse);
    let st = overlay_fuse_state(s, max_tiny, min_fuse);
    let t = tiny_overlays(s, max_tiny);
    let k = (t.len() as int) % (min_fuse as int);
    lemma_next_div_mod(t.len() as int, min_fuse as int);
    let f = st.0 + st.1;
    assert(f.skip(f.len() - k) =~= st.1);
}

/// The samples `[s, e)` of overlay `idx` that a scalar delta touches: none when the index
/// is past the end, the delta is zero, or the range `[start, start + len)` cut to the
/// overlay is empty.
pub open spec fn delta_span_of(
    ovs: Seq<Seq<u32>>,
    idx: usize,
    start: usize,
    len: usize,
    delta_bits: u32,
) -> Option<(usize, usize)> {
    if idx >= ovs.len() || is_zero_spec(delta_bits) || ovs[idx as int].len() == 0 {
        None
    } else {
        let n = ovs[idx as int].len();
        let s = if start <= n {
            start as int
        } else {
            n as int
        };
        let e = if start + len <= n {
            start + len
        } else {
            n as int
        };
        if s >= e {
            None
        } else {
            Some((s as usize, e as usize))
        }
    }
}

/// Temporal chain of overlays.
pub struct OverlayChain {
    chain: Vec<Overlay>,
}

impl OverlayChain {
    /// The overlays' samples, oldest first.
    pub closed spec fn overlays(&self) -> Seq<Seq<u32>> {
        overlay_values(self.chain@)
    }

    pub fn new() -> (c: Self)
        ensures
            c.overlays() == Seq::<Seq<u32>>::empty(),
    {
        OverlayChain { chain: Vec::new() }
    }

    pub fn push_overlay(&mut self, values: Vec<u32>)
        ensures
            final(self).overlays() == old(self).overlays().push(values@),
    {
        self.chain.push(Overlay::new(values));
        assert(overlay_values(self.chain@) =~= overlay_values(old(self).chain@).push(values@));
    }

    /// Number of overlays in the chain.
    pub fn len(&self) -> (n: usize)
        ensures
            n == self.overlays().len(),
    {
        self.chain.len()
    }

    /// Replaces the samples of overlay `idx`; an index past the end changes nothing.
    pub fn set_overlay(&mut self, idx: usize, values: Vec<u32>)
        ensures
            idx < old(self).overlays().len() ==> final(self).overlays() == old(
                self,
            ).overlays().update(idx as int, values@),
            idx >= old(self).overlays().len() ==> final(self).overlays() == old(self).overlays(),
    {
        if idx < self.chain.len() {
            self.chain.set(idx, Overlay::new(values));
            assert(overlay_values(self.chain@) =~= overlay_values(old(self).chain@).update(
                idx as int,
                values@,
            ));
        }
    }

    /// The samples of overlay `overlay_idx` that a scalar delta (f32 bits) is added to
    /// (see `delta_span_of`).
    pub fn delta_span(&self, overlay_idx: usize, start: usize, len: usize, delta_bits: u32) -> (r:
        Option<(usize, usize)>)
        requires
            overlay_idx < self.overlays().len() && !is_zero_spec(delta_bits)
                && self.overlays()[overlay_idx as int].len() > 0 ==> start + len <= usize::MAX,
        ensures
            r == delta_span_of(self.overlays(), overlay_idx, start, len, delta_bits),
    {
        if overlay_idx >= self.chain.len() || is_zero(delta_bits) {
            return None;
        }
        let n = self.chain[overlay_idx].values.len();
        if n == 0 {
            return None;
        }
        let s = if start <= n {
            start
        } else {
            n
        };
        let e = if start + len <= n {
            start + len
        } else {
            n
        };
        if s >= e {
            None
        } else {
            Some((s, e))
        }
    }

    /// Copies of every overlay, oldest first.
    pub fn fetch_overlays(&self) -> (out: Vec<Overlay>)
        ensures
            overlay_values(out@) == self.overlays(),
    {
        let mut out: Vec<Overlay> = Vec::new();
        let mut i: usize = 0;
        while i < self.chain.len()
            invariant
                i <= self.chain@.len(),
                overlay_values(out@) == overlay_values(self.chain@).take(i as int),
            decreases self.chain@.len() - i,
        {
            let ghost o0 = out@;
            let d = self.chain[i].duplicate();
            out.push(d);
            assert(overlay_values(out@) =~= overlay_values(o0).push(d.values@));
            i = i + 1;
            assert(overlay_values(out@) =~= overlay_values(self.chain@).take(i as int));
        }
        assert(overlay_values(self.chain@).take(i as int) =~= overlay_values(self.chain@));
        out
    }

    fn concat_buffer(buffer: &Vec<Overlay>) -> (o: Overlay)
        ensures
            o.values@ == concat_all(overlay_values(buffer@)),
    {
        let mut values: Vec<u32> = Vec::new();
        let mut i: usize = 0;
        while i < buffer.len()
            invariant
                i <= buffer@.len(),
                values@ == concat_all(overlay_values(buffer@).take(i as int)),
            decreases buffer@.len() - i,
        {
            let ghost before = values@;
            let src = &buffer[i].values;
            let mut j: usize = 0;
            while j < src.len()
                invariant
                    j <= src@.len(),
                    values@ == before + src@.take(j as int),
                decreases src@.len() - j,
            {
                values.push(src[j]);
                j = j + 1;
                assert(values@ =~= before + src@.take(j as int));
            }
            assert(src@.take(j as int) =~= src@);
            assert(overlay_values(buffer@).take(i as int + 1).drop_last() =~= overlay_values(
                buffer@,
            ).take(i as int));
            i = i + 1;
        }
        assert(overlay_values(buffer@).take(i as int) =~= overlay_values(buffer@));
        Overlay { values }
    }

    /// Fuses runs of `min_to_fuse` overlays of at most `max_tiny_len` samples into one
    /// overlay holding their samples in order; leftover tiny overlays move to the end.
    pub fn fuse_tiny_overlays(&mut self, max_tiny_len: usize, min_to_fuse: usize)
        ensures
            final(self).overlays() == fused_overlays(old(self).overlays(), max_tiny_len, min_to_fuse),
    {
        if self.chain.len() == 0 {
            assert(overlay_values(self.chain@) =~= Seq::<Seq<u32>>::empty());
            assert(fused_overlays(Seq::<Seq<u32>>::empty(), max_tiny_len, min_to_fuse)
                =~= Seq::<Seq<u32>>::empty());
            return;
        }
        let ghost src = overlay_values(self.chain@);
        let mut fused: Vec<Overlay> = Vec::new();
        let mut buffer: Vec<Overlay> = Vec::new();
        let mut i: usize = 0;
        while i < self.chain.len()
            invariant
                src == overlay_values(self.chain@),
                i <= self.chain@.len(),
                (overlay_values(fused@), overlay_values(buffer@)) == overlay_fuse_state(
                    src.take(i as int),
                    max_tiny_len,
                    min_to_fuse,
                ),
            decreases self.chain@.len() - i,
        {
            assert(src.take(i as int + 1).drop_last() =~= src.take(i as int));
            let ov = self.chain[i].duplicate();
            if ov.len() <= max_tiny_len {
                let ghost b0 = buffer@;
                buffer.push(ov);
                assert(overlay_values(buffer@) =~= overlay_values(b0).push(src[i as int]));
                if buffer.len() >= min_to_fuse {
                    let merged = Self::concat_buffer(&buffer);
                    let ghost f0 = fused@;
                    fused.push(merged);
                    assert(overlay_values(fused@) =~= overlay_values(f0).push(merged.values@));
                    buffer = Vec::new();
                    assert(overlay_values(buffer@) =~= Seq::<Seq<u32>>::empty());
                }
            } else {
                let ghost f0 = fused@;
                fused.push(ov);
                assert(overlay_values(fused@) =~= overlay_values(f0).push(src[i as int]));
            }
            i = i + 1;
        }
        assert(src.take(i as int) =~= src);
        let ghost base = fused@;
        let mut j: usize = 0;
        while j < buffer.len()
            invariant
                j <= buffer@.len(),
                overlay_values(fused@) == overlay_values(base) + overlay_values(buffer@).take(
                    j as int,
                ),
            decreases buffer@.len() - j,
        {
            let d = buffer[j].duplicate();
            let ghost f0 = fused@;
            fused.push(d);
            assert(overlay_values(fused@) =~= overlay_values(f0).push(d.values@));
            j = j + 1;
            assert(overlay_values(fused@) =~= overlay_values(base) + overlay_values(buffer@).take(
                j as int,
            ));
        }
        assert(overlay_values(buffer@).take(j as int) =~= overlay_values(buffer@));
        self.chain = fused;
    }
}

} // verus!
