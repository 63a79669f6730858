//! Spatial index: tracked entity positions, queried by proximity.

use vstd::prelude::*;

verus! {

use crate::geometry::GridPos;

/// Squared Euclidean distance between two cells.
pub open spec fn dist2_spec(a: GridPos, b: GridPos) -> int {
    (a.x - b.x) * (a.x - b.x) + (a.y - b.y) * (a.y - b.y)
}

/// The proximity predicate of a radius-`r` query around `p`.
pub open spec fn near_pred(p: GridPos, r: int) -> spec_fn((GridPos, u64)) -> bool {
    |e: (GridPos, u64)| dist2_spec(e.0, p) <= r * r
}

/// Positions of the tracked entities, each under a unique identity, in
/// insertion order. The simulation rebuilds it from the committed world
/// state before every collision query, so queries never see positions
/// staler than the most recent commit.
pub struct SpatialIndex {
    pub entries: Vec<(GridPos, u64)>,
}

impl SpatialIndex {
    /// What the index tracks, in insertion order.
    #[verifier::inline]
    pub open spec fn contents(self) -> Seq<(GridPos, u64)> {
        self.entries@
    }

    pub open spec fn ids_unique(self) -> bool {
        forall|k1: int, k2: int|
            0 <= k1 < k2 < self.entries@.len() ==> (#[trigger] self.entries@[k1]).1 != (
            #[trigger] self.entries@[k2]).1
    }

    pub open spec fn positions_ok(self) -> bool {
        forall|k: int|
            0 <= k < self.entries@.len() ==> (#[trigger] self.entries@[k]).0.in_wide_bounds()
    }

    pub open spec fn wf(self) -> bool {
        &&& self.ids_unique()
        &&& self.positions_ok()
    }

    pub fn new() -> (s: SpatialIndex)
        ensures
            s.wf(),
            s.contents() == Seq::<(GridPos, u64)>::empty(),
    {
        SpatialIndex { entries: Vec::new() }
    }

    /// Track a positioned entity that is not yet in the index.
    pub fn insert(&mut self, pos: GridPos, id: u64)
        requires
            old(self).wf(),
            pos.in_wide_bounds(),
            forall|k: int|
                0 <= k < old(self).entries@.len() ==> (#[trigger] old(self).entries@[k]).1 != id,
        ensures
            final(self).wf(),
            final(self).contents() == old(self).contents().push((pos, id)),
    {
        self.entries.push((pos, id));
    }

    /// Move a tracked entity to a new position; an identity that is not
    /// tracked is left alone.
    pub fn update(&mut self, id: u64, pos: GridPos) -> (found: bool)
        requires
            old(self).wf(),
            pos.in_wide_bounds(),
        ensures
            final(self).wf(),
            found == (exists|k: int|
                0 <= k < old(self).entries@.len() && (#[trigger] old(self).entries@[k]).1 == id),
            !found ==> final(self).contents() == old(self).contents(),
            found ==> exists|k: int|
                0 <= k < old(self).entries@.len() && (#[trigger] old(self).entries@[k]).1 == id
                    && final(self).contents() == old(self).contents().update(k, (pos, id)),
    {
        let n = self.entries.len();
        let mut i: usize = 0;
        while i < n
            invariant
                0 <= i <= n,
                n == self.entries@.len(),
                self == old(self),
                old(self).wf(),
                pos.in_wide_bounds(),
                forall|k: int| 0 <= k < i ==> (#[trigger] self.entries@[k]).1 != id,
            decreases n - i,
        {
            if self.entries[i].1 == id {
                self.entries[i] = (pos, id);
                proof {
                    assert forall|k: int| 0 <= k < self.entries@.len() implies (
                    #[trigger] self.entries@[k]).0.in_wide_bounds() by {
                        if k != i {
                            assert(self.entries@[k] == old(self).entries@[k]);
                        }
                    }
                    assert forall|k1: int, k2: int|
                        0 <= k1 < k2 < self.entries@.len() implies (
                    #[trigger] self.entries@[k1]).1 != (#[trigger] self.entries@[k2]).1 by {
                        assert(self.entries@[k1].1 == old(self).entries@[k1].1);
                        assert(self.entries@[k2].1 == old(self).entries@[k2].1);
                    }
                }
                return true;
            }
            i += 1;
        }
        false
    }

    /// Stop tracking an entity; an identity that is not tracked is left
    /// alone.
    pub fn remove(&mut self, id: u64) -> (found: bool)
        requires
            old(self).wf(),
        ensures
            final(self).wf(),
            found == (exists|k: int|
                0 <= k < old(self).entries@.len() && (#[trigger] old(self).entries@[k]).1 == id),
            !found ==> final(self).contents() == old(self).contents(),
            found ==> exists|k: int|
                0 <= k < old(self).entries@.len() && (#[trigger] old(self).entries@[k]).1 == id
                    && final(self).contents() == old(self).contents().remove(k),
    {
        let n = self.entries.len();
        let mut i: usize = 0;
        while i < n
            invariant
                0 <= i <= n,
                n == self.entries@.len(),
                self == old(self),
                old(self).wf(),
                forall|k: int| 0 <= k < i ==> (#[trigger] self.entries@[k]).1 != id,
            decreases n - i,
        {
            if self.entries[i].1 == id {
                self.entries.remove(i);
                proof {
                    assert forall|k: int| 0 <= k < self.entries@.len() implies (
                    #[trigger] self.entries@[k]).0.in_wide_bounds() by {
                        if k < i {
                            assert(self.entries@[k] == old(self).entries@[k]);
                        } else {
                            assert(self.entries@[k] == old(self).entries@[k + 1]);
                        }
                    }
                    assert forall|k1: int, k2: int|
                        0 <= k1 < k2 < self.entries@.len() implies (
                    #[trigger] self.entries@[k1]).1 != (#[trigger] self.entries@[k2]).1 by {
                        let j1: int = if k1 < i { k1 } else { k1 + 1 };
                        let j2: int = if k2 < i { k2 } else { k2 + 1 };
                        assert(self.entries@[k1] == old(self).entries@[j1]);
                        assert(self.entries@[k2] == old(self).entries@[j2]);
                    }
                }
                return true;
            }
            i += 1;
        }
        false
    }

    /// The tracked entries whose cell lies within Euclidean distance `r`
    /// of `p` (squared distance at most `r * r`), in tracking order.
    pub fn within_distance(&self, p: GridPos, r: i32) -> (res: Vec<(GridPos, u64)>)
        requires
            self.wf(),
            p.in_wide_bounds(),
            0 <= r <= 1000,
        ensures
            res@ == self.contents().filter(near_pred(p, r as int)),
            forall|k1: int, k2: int|
                0 <= k1 < k2 < res@.len() ==> (#[trigger] res@[k1]).1 != (#[trigger] res@[k2]).1,
    {
        let mut res: Vec<(GridPos, u64)> = Vec::new();
        let n = self.entries.len();
        let mut i: usize = 0;
        while i < n
            invariant
                0 <= i <= n,
                n == self.entries@.len(),
                self.wf(),
                p.in_wide_bounds(),
                0 <= r <= 1000,
                res@ == self.entries@.take(i as int).filter(near_pred(p, r as int)),
                forall|k: int|
                    0 <= k < res@.len() ==> exists|j: int|
                        0 <= j < i && #[trigger] res@[k] == self.entries@[j],
                forall|k1: int, k2: int|
                    0 <= k1 < k2 < res@.len() ==> (#[trigger] res@[k1]).1 != (
                    #[trigger] res@[k2]).1,
            decreases n - i,
        {
            let ghost pre = res@;
            let e = self.entries[i];
            let dx = e.0.x - p.x;
            let dy = e.0.y - p.y;
            proof {
                assert(dx * dx + dy * dy <= 1000000 && dx * dx >= 0 && dy * dy >= 0)
                    by (nonlinear_arith)
                    requires
                        -700 <= dx <= 700,
                        -700 <= dy <= 700,
                ;
                assert(r * r <= 1000000 && r * r >= 0) by (nonlinear_arith)
                    requires
                        0 <= r <= 1000,
                ;
            }
            let d2 = dx * dx + dy * dy;
            if d2 <= r * r {
                res.push(e);
            }
            proof {
                assert(self.entries@.take(i + 1) =~= self.entries@.take(i as int).push(e));
                self.entries@.take(i as int).lemma_filter_push(e, near_pred(p, r as int));
                assert forall|k: int| 0 <= k < res@.len() implies exists|j: int|
                    0 <= j < i + 1 && #[trigger] res@[k] == self.entries@[j] by {
                    if k < pre.len() {
                        assert(res@[k] == pre[k]);
                    } else {
                        assert(res@[k] == self.entries@[i as int]);
                    }
                }
                assert forall|k1: int, k2: int| 0 <= k1 < k2 < res@.len() implies (
                #[trigger] res@[k1]).1 != (#[trigger] res@[k2]).1 by {
                    if k2 == res@.len() - 1 && res@.len() > pre.len() {
                        let j1 = choose|j: int| 0 <= j < i && pre[k1] == self.entries@[j];
                        assert(res@[k1] == self.entries@[j1]);
                        assert(res@[k2] == self.entries@[i as int]);
                    } else {
                        assert(res@[k1] == pre[k1] && res@[k2] == pre[k2]);
                    }
                }
            }
            i += 1;
        }
        proof {
            assert(self.entries@.take(n as int) =~= self.entries@);
        }
        res
    }
}

} // verus!
