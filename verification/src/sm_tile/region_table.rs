use vstd::prelude::*;

verus! {

/// A region of tile memory, identified by its id.
#[derive(Clone, Copy, Debug, PartialEq, Eq, Structural)]
pub struct Region {
    pub id: usize,
}

/// A pending change to the canonical region list.
#[derive(Clone, Copy, Debug, PartialEq, Eq, Structural)]
pub enum RegionDelta {
    Add(usize),
    Remove(usize),
}

/// True when some region of `s` carries the id `id`.
pub open spec fn has_id(s: Seq<Region>, id: usize) -> bool {
    exists|i: int| 0 <= i < s.len() && (#[trigger] s[i]).id == id
}

/// `s` with every region whose id is `id` taken out, order kept.
pub open spec fn without_id(s: Seq<Region>, id: usize) -> Seq<Region>
    decreases s.len(),
{
    if s.len() == 0 {
        s
    } else {
        let rest = without_id(s.drop_last(), id);
        if s.last().id == id {
            rest
        } else {
            rest.push(s.last())
        }
    }
}

/// One pending change applied to a region list.
pub open spec fn apply_one(master: Seq<Region>, d: RegionDelta) -> Seq<Region> {
    match d {
        RegionDelta::Add(id) => master.push(Region { id }),
        RegionDelta::Remove(id) => without_id(master, id),
    }
}

/// All pending changes applied in order to a region list.
pub open spec fn apply_all(master: Seq<Region>, ds: Seq<RegionDelta>) -> Seq<Region>
    decreases ds.len(),
{
    if ds.len() == 0 {
        master
    } else {
        apply_one(apply_all(master, ds.drop_last()), ds.last())
    }
}

/// The regions of `s` whose id does not occur in `snapshot`, order kept.
pub open spec fn fresh_regions(s: Seq<Region>, snapshot: Seq<Region>) -> Seq<Region>
    decreases s.len(),
{
    if s.len() == 0 {
        s
    } else {
        let rest = fresh_regions(s.drop_last(), snapshot);
        if has_id(snapshot, s.last().id) {
            rest
        } else {
            rest.push(s.last())
        }
    }
}

/// Canonical region list with deferred changes and a snapshot of the last fetch.
pub struct RegionTable {
    master: Vec<Region>,
    deltas: Vec<RegionDelta>,
    last_snapshot: Vec<Region>,
}

impl RegionTable {
    /// The committed, canonical region list.
    pub closed spec fn master(&self) -> Seq<Region> {
        self.master@
    }

    /// The changes recorded since the last commit, oldest first.
    pub closed spec fn pending(&self) -> Seq<RegionDelta> {
        self.deltas@
    }

    /// The region list as it stood at the last call of `fetch_regions`.
    pub closed spec fn snapshot(&self) -> Seq<Region> {
        self.last_snapshot@
    }

    pub fn new() -> (t: Self)
        ensures
            t.master() == Seq::<Region>::empty(),
            t.pending() == Seq::<RegionDelta>::empty(),
            t.snapshot() == Seq::<Region>::empty(),
    {
        RegionTable { master: Vec::new(), deltas: Vec::new(), last_snapshot: Vec::new() }
    }

    /// Records the addition of a region; the list changes at the next commit.
    pub fn add_region(&mut self, id: usize)
        ensures
            final(self).pending() == old(self).pending().push(RegionDelta::Add(id)),
            final(self).master() == old(self).master(),
            final(self).snapshot() == old(self).snapshot(),
    {
        self.deltas.push(RegionDelta::Add(id));
    }

    /// Records the removal of a region; the list changes at the next commit.
    pub fn remove_region(&mut self, id: usize)
        ensures
            final(self).pending() == old(self).pending().push(RegionDelta::Remove(id)),
            final(self).master() == old(self).master(),
            final(self).snapshot() == old(self).snapshot(),
    {
        self.deltas.push(RegionDelta::Remove(id));
    }

    /// Removes every region with the given id from the master list.
    fn retain_other_ids(&mut self, id: usize)
        ensures
            final(self).master@ == without_id(old(self).master@, id),
            final(self).deltas@ == old(self).deltas@,
            final(self).last_snapshot@ == old(self).last_snapshot@,
    {
        let ghost orig = self.master@;
        let mut kept: Vec<Region> = Vec::new();
        let mut i: usize = 0;
        while i < self.master.len()
            invariant
                self.master@ == orig,
                i <= orig.len(),
                kept@ == without_id(orig.take(i as int), id),
            decreases orig.len() - i,
        {
            let r = self.master[i];
            if r.id != id {
                kept.push(r);
            }
            assert(orig.take(i as int + 1).drop_last() =~= orig.take(i as int));
            i = i + 1;
        }
        assert(orig.take(orig.len() as int) =~= orig);
        self.master = kept;
    }

    /// Commits the pending changes to the master list, in the order they were recorded.
    pub fn apply_deltas(&mut self)
        ensures
            final(self).master() == apply_all(old(self).master(), old(self).pending()),
            final(self).pending() == Seq::<RegionDelta>::empty(),
            final(self).snapshot() == old(self).snapshot(),
    {
        let ghost m0 = self.master@;
        let ghost ds = self.deltas@;
        let mut i: usize = 0;
        while i < self.deltas.len()
            invariant
                self.deltas@ == ds,
                i <= ds.len(),
                self.master@ == apply_all(m0, ds.take(i as int)),
                self.last_snapshot@ == old(self).last_snapshot@,
            decreases ds.len() - i,
        {
            let d = self.deltas[i];
            match d {
                RegionDelta::Add(id) => {
                    self.master.push(Region { id });
                },
                RegionDelta::Remove(id) => {
                    self.retain_other_ids(id);
                },
            }
            assert(ds.take(i as int + 1).drop_last() =~= ds.take(i as int));
            i = i + 1;
        }
        assert(ds.take(ds.len() as int) =~= ds);
        self.deltas = Vec::new();
    }

    fn snapshot_has_id(&self, id: usize) -> (b: bool)
        ensures
            b == has_id(self.last_snapshot@, id),
    {
        let mut j: usize = 0;
        while j < self.last_snapshot.len()
            invariant
                j <= self.last_snapshot@.len(),
                forall|k: int| 0 <= k < j ==> (#[trigger] self.last_snapshot@[k]).id != id,
            decreases self.last_snapshot@.len() - j,
        {
            if self.last_snapshot[j].id == id {
                return true;
            }
            j = j + 1;
        }
        false
    }

    /// Returns the regions of the master list whose id was not in it at the previous
    /// fetch, then takes the master list as the new snapshot.
    pub fn fetch_regions(&mut self) -> (changed: Vec<Region>)
        ensures
            changed@ == fresh_regions(old(self).master(), old(self).snapshot()),
            final(self).snapshot() == old(self).master(),
            final(self).master() == old(self).master(),
            final(self).pending() == old(self).pending(),
    {
        let mut changed: Vec<Region> = Vec::new();
        let mut i: usize = 0;
        while i < self.master.len()
            invariant
                self.master@ == old(self).master@,
                self.last_snapshot@ == old(self).last_snapshot@,
                self.deltas@ == old(self).deltas@,
                i <= self.master@.len(),
                changed@ == fresh_regions(self.master@.take(i as int), self.last_snapshot@),
            decreases self.master@.len() - i,
        {
            let r = self.master[i];
            if !self.snapshot_has_id(r.id) {
                changed.push(r);
            }
            assert(self.master@.take(i as int + 1).drop_last() =~= self.master@.take(i as int));
            i = i + 1;
        }
        assert(self.master@.take(self.master@.len() as int) =~= self.master@);
        self.last_snapshot = self.master.clone();
        changed
    }

    /// The full canonical region list.
    pub fn fetch_master(&self) -> (regions: Vec<Region>)
        ensures
            regions@ == self.master(),
    {
        self.master.clone()
    }
}


/// Removing an id leaves no region with that id, and keeps every other region.
pub proof fn lemma_without_id(s: Seq<Region>, id: usize)
    ensures
        !has_id(without_id(s, id), id),
        forall|r: Region| #[trigger] without_id(s, id).contains(r) <==> (s.contains(r) && r.id != id),
    decreases s.len(),
{
    if s.len() > 0 {
        lemma_without_id(s.drop_last(), id);
        let rest = without_id(s.drop_last(), id);
        assert forall|r: Region| s.contains(r) <==> (s.drop_last().contains(r) || r == s.last()) by {
            if s.contains(r) {
                let k = choose|k: int| 0 <= k < s.len() && s[k] == r;
                if k < s.len() - 1 {
                    assert(s.drop_last()[k] == r);
                }
            }
            if s.drop_last().contains(r) {
                let k = choose|k: int| 0 <= k < s.drop_last().len() && s.drop_last()[k] == r;
                assert(s[k] == r);
            }
            if r == s.last() {
                assert(s[s.len() - 1] == r);
            }
        }
        if s.last().id != id {
            let res = rest.push(s.last());
            assert forall|r: Region| res.contains(r) <==> (rest.contains(r) || r == s.last()) by {
                if res.contains(r) {
                    let k = choose|k: int| 0 <= k < res.len() && res[k] == r;
                    if k < rest.len() {
                        assert(rest[k] == r);
                    }
                }
                if rest.contains(r) {
                    let k = choose|k: int| 0 <= k < rest.len() && rest[k] == r;
                    assert(res[k] == r);
                }
                if r == s.last() {
                    assert(res[rest.len() as int] == r);
                }
            }
            if has_id(res, id) {
                let k = choose|k: int| 0 <= k < res.len() && (#[trigger] res[k]).id == id;
                if k < rest.len() {
                    assert(rest[k].id == id);
                }
            }
        }
    }
}

/// Every region reported by a fetch is in the master list and its id was not in the snapshot.
pub proof fn lemma_fresh_regions(s: Seq<Region>, snapshot: Seq<Region>)
    ensures
        forall|r: Region| #[trigger] fresh_regions(s, snapshot).contains(r) <==> (s.contains(r)
            && !has_id(snapshot, r.id)),
    decreases s.len(),
{
    if s.len() > 0 {
        lemma_fresh_regions(s.drop_last(), snapshot);
        let rest = fresh_regions(s.drop_last(), snapshot);
        assert forall|r: Region| s.contains(r) <==> (s.drop_last().contains(r) || r == s.last()) by {
            if s.contains(r) {
                let k = choose|k: int| 0 <= k < s.len() && s[k] == r;
                if k < s.len() - 1 {
                    assert(s.drop_last()[k] == r);
                }
            }
            if s.drop_last().contains(r) {
                let k = choose|k: int| 0 <= k < s.drop_last().len() && s.drop_last()[k] == r;
                assert(s[k] == r);
            }
            if r == s.last() {
                assert(s[s.len() - 1] == r);
            }
        }
        if !has_id(snapshot, s.last().id) {
            let res = rest.push(s.last());
            assert forall|r: Region| res.contains(r) <==> (rest.contains(r) || r == s.last()) by {
                if res.contains(r) {
                    let k = choose|k: int| 0 <= k < res.len() && res[k] == r;
                    if k < rest.len() {
                        assert(rest[k] == r);
                    }
                }
                if rest.contains(r) {
                    let k = choose|k: int| 0 <= k < rest.len() && rest[k] == r;
                    assert(res[k] == r);
                }
                if r == s.last() {
                    assert(res[rest.len() as int] == r);
                }
            }
        }
    }
}

/// A fetch reports exactly the committed regions whose id was absent at the previous fetch.
pub proof fn law_fetch_reports_new_regions(master: Seq<Region>, snapshot: Seq<Region>, r: Region)
    ensures
        fresh_regions(master, snapshot).contains(r) <==> (master.contains(r) && !has_id(
            snapshot,
            r.id,
        )),
{
    lemma_fresh_regions(master, snapshot);
}

/// Two fetches with no commit in between: the second one reports no region.
pub proof fn law_second_fetch_is_empty(master: Seq<Region>)
    ensures
        fresh_regions(master, master) == Seq::<Region>::empty(),
{
    lemma_fresh_regions(master, master);
    let f = fresh_regions(master, master);
    if f.len() > 0 {
        assert(f.contains(f[0]));
        let r = f[0];
        let k = choose|k: int| 0 <= k < master.len() && master[k] == r;
        assert(has_id(master, master[k].id));
    }
    assert(f =~= Seq::<Region>::empty());
}

/// After a commit whose last recorded change adds `id`, the master list holds a region `id`.
pub proof fn law_committed_add_is_present(master: Seq<Region>, ds: Seq<RegionDelta>, id: usize)
    requires
        ds.len() > 0,
        ds.last() == RegionDelta::Add(id),
    ensures
        has_id(apply_all(master, ds), id),
{
    let m = apply_all(master, ds.drop_last());
    assert(apply_all(master, ds) == m.push(Region { id }));
    assert(m.push(Region { id })[m.len() as int].id == id);
}

/// Committing an addition appends exactly one region with that id after what the earlier
/// changes give, whether or not the id is already present.
pub proof fn law_committed_add_appends(master: Seq<Region>, ds: Seq<RegionDelta>, id: usize)
    ensures
        apply_all(master, ds.push(RegionDelta::Add(id))).len() == apply_all(master, ds).len() + 1,
        apply_all(master, ds.push(RegionDelta::Add(id))).last() == (Region { id }),
        apply_all(master, ds.push(RegionDelta::Add(id))).drop_last() == apply_all(master, ds),
{
    assert(ds.push(RegionDelta::Add(id)).drop_last() =~= ds);
    let m = apply_all(master, ds);
    assert(m.push(Region { id }).drop_last() =~= m);
}

/// After a commit whose last recorded change removes `id`, no region `id` is left, and
/// every region with another id that was there before it is still there.
pub proof fn law_committed_remove_is_absent(
    master: Seq<Region>,
    ds: Seq<RegionDelta>,
    id: usize,
    r: Region,
)
    requires
        ds.len() > 0,
        ds.last() == RegionDelta::Remove(id),
    ensures
        !has_id(apply_all(master, ds), id),
        apply_all(master, ds).contains(r) <==> (apply_all(master, ds.drop_last()).contains(r)
            && r.id != id),
{
    lemma_without_id(apply_all(master, ds.drop_last()), id);
}

} // verus!
