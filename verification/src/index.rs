//! The spatial index of one render pass: an opaque key maps to a shape
//! record and its bounding box, with ordered range queries against a
//! frustum.
//!
//! Keys are issued from a monotone counter and never reused: a key returned
//! by `insert` stays valid until `remove` invalidates it, and no later
//! insertion hands the same key out again (`insert` returns `key_bound()`,
//! which only grows). Records are bucketed by a coarse grid over their
//! bounding box; `update_in_place` is allowed only while the box stays in
//! its bucket, otherwise callers must remove and reinsert.

use vstd::prelude::*;

use crate::frustum::{frustum_wf, intersects, Frustum};
use crate::geom::{dist_sq, dist_sq_exec, pt_world, BBox, WORLD_BOUND};
use crate::shape::{rec_wf, lemma_rec_world_bounds, ShapeRec};

verus! {

/// Edge length of the coarse grid cells that bucket bounding boxes.
pub const BUCKET_CELL: i64 = 1024;

/// The map held by a sequence of key/record entries, later entries winning.
pub open spec fn map_of(s: Seq<(u64, ShapeRec)>) -> Map<u64, ShapeRec>
    decreases s.len(),
{
    if s.len() == 0 {
        Map::empty()
    } else {
        map_of(s.drop_last()).insert(s.last().0, s.last().1)
    }
}

/// No two entries share a key.
pub open spec fn keys_distinct(s: Seq<(u64, ShapeRec)>) -> bool {
    forall|i: int, j: int| 0 <= i < j < s.len() ==> s[i].0 != s[j].0
}

/// Entry keys grow strictly along the sequence.
pub open spec fn keys_increasing(s: Seq<(u64, ShapeRec)>) -> bool {
    forall|i: int, j: int| 0 <= i < j < s.len() ==> s[i].0 < s[j].0
}

/// Some entry carries the key `k`.
pub open spec fn has_key(s: Seq<(u64, ShapeRec)>, k: u64) -> bool {
    exists|i: int| 0 <= i < s.len() && s[i].0 == k
}

/// For a sequence without repeated keys, `map_of` has exactly the entry
/// keys as domain, maps each key to its entry's record, and is as large as
/// the sequence.
pub proof fn lemma_map_of_props(s: Seq<(u64, ShapeRec)>)
    requires
        keys_distinct(s),
    ensures
        map_of(s).dom().finite(),
        map_of(s).dom().len() == s.len(),
        forall|k: u64| #[trigger] map_of(s).dom().contains(k) <==> has_key(s, k),
        forall|i: int| 0 <= i < s.len() ==> map_of(s)[#[trigger] s[i].0] == s[i].1,
    decreases s.len(),
{
    if s.len() == 0 {
        assert(forall|k: u64| !has_key(s, k));
    } else {
        let s0 = s.drop_last();
        let last = s.last();
        assert(keys_distinct(s0));
        lemma_map_of_props(s0);
        assert(!has_key(s0, last.0)) by {
            if has_key(s0, last.0) {
                let i = choose|i: int| 0 <= i < s0.len() && s0[i].0 == last.0;
                assert(s[i].0 == s[s.len() - 1].0);
            }
        }
        assert forall|k: u64| #[trigger] map_of(s).dom().contains(k) <==> has_key(s, k) by {
            if map_of(s).dom().contains(k) {
                if k == last.0 {
                    assert(s[s.len() - 1].0 == k);
                } else {
                    let i = choose|i: int| 0 <= i < s0.len() && s0[i].0 == k;
                    assert(s[i].0 == k);
                }
            }
            if has_key(s, k) {
                let i = choose|i: int| 0 <= i < s.len() && s[i].0 == k;
                if i < s.len() - 1 {
                    assert(s0[i].0 == k);
                    assert(has_key(s0, k));
                }
            }
        }
        assert forall|i: int| 0 <= i < s.len() implies map_of(s)[#[trigger] s[i].0] == s[i].1 by {
            if i < s.len() - 1 {
                assert(s0[i].0 == s[i].0 && s0[i].1 == s[i].1);
                assert(s[i].0 != last.0);
            }
        }
    }
}

/// Removing an entry removes exactly its key from the held map.
pub proof fn lemma_map_of_remove(s: Seq<(u64, ShapeRec)>, i: int)
    requires
        keys_distinct(s),
        0 <= i < s.len(),
    ensures
        map_of(s.remove(i)) == map_of(s).remove(s[i].0),
    decreases s.len(),
{
    lemma_map_of_props(s);
    let s0 = s.drop_last();
    let last = s.last();
    assert(keys_distinct(s0));
    lemma_map_of_props(s0);
    assert(!has_key(s0, last.0)) by {
        if has_key(s0, last.0) {
            let j = choose|j: int| 0 <= j < s0.len() && s0[j].0 == last.0;
            assert(s[j].0 == s[s.len() - 1].0);
        }
    }
    if i == s.len() - 1 {
        assert(s.remove(i) =~= s0);
        assert(map_of(s).remove(last.0) =~= map_of(s0));
    } else {
        lemma_map_of_remove(s0, i);
        let r = s.remove(i);
        assert(r.drop_last() =~= s0.remove(i));
        assert(r.last() == last);
        assert(map_of(r) == map_of(s0.remove(i)).insert(last.0, last.1));
        assert(s0[i].0 == s[i].0);
        assert(s[i].0 != last.0);
        assert(map_of(s0).remove(s[i].0).insert(last.0, last.1) =~= map_of(s).remove(
            s[i].0,
        ));
    }
}

/// Rewriting one entry's record, key kept, rewrites exactly that key's
/// value in the held map.
pub proof fn lemma_map_of_update(s: Seq<(u64, ShapeRec)>, i: int, rec: ShapeRec)
    requires
        keys_distinct(s),
        0 <= i < s.len(),
    ensures
        map_of(s.update(i, (s[i].0, rec))) == map_of(s).insert(s[i].0, rec),
    decreases s.len(),
{
    lemma_map_of_props(s);
    let s0 = s.drop_last();
    let last = s.last();
    assert(keys_distinct(s0));
    let u = s.update(i, (s[i].0, rec));
    if i == s.len() - 1 {
        assert(u.drop_last() =~= s0);
        assert(u.last() == (s[i].0, rec));
        assert(map_of(u) == map_of(s0).insert(s[i].0, rec));
        assert(map_of(s0).insert(s[i].0, rec) =~= map_of(s).insert(s[i].0, rec));
    } else {
        lemma_map_of_update(s0, i, rec);
        assert(u.drop_last() =~= s0.update(i, (s[i].0, rec)));
        assert(u.last() == last);
        assert(map_of(u) == map_of(s0).insert(s[i].0, rec).insert(last.0, last.1));
        assert(s[i].0 != last.0);
        assert(map_of(s0).insert(s[i].0, rec).insert(last.0, last.1) =~= map_of(s).insert(
            s[i].0,
            rec,
        ));
    }
}

/// Squared distance from the record under `k` to the frustum's reference
/// point: the measure both pass orderings sort by.
pub open spec fn entry_dist(m: Map<u64, ShapeRec>, f: Frustum, k: u64) -> int {
    dist_sq(m[k].pos, f.center)
}

/// `k1` is drawn strictly before `k2` in the front-to-back order: nearer to
/// the reference point, the key breaking ties.
pub open spec fn near_before(m: Map<u64, ShapeRec>, f: Frustum, k1: u64, k2: u64) -> bool {
    entry_dist(m, f, k1) < entry_dist(m, f, k2) || (entry_dist(m, f, k1) == entry_dist(m, f, k2)
        && k1 < k2)
}

/// The key is held and its box intersects the frustum.
pub open spec fn in_query(m: Map<u64, ShapeRec>, f: Frustum, k: u64) -> bool {
    m.dom().contains(k) && intersects(f, m[k].bbox)
}

/// The sequence holds exactly the keys whose box intersects the frustum.
pub open spec fn is_query_set(m: Map<u64, ShapeRec>, f: Frustum, s: Seq<u64>) -> bool {
    forall|k: u64| #[trigger] s.contains(k) <==> in_query(m, f, k)
}

/// Strictly front-to-back: non-decreasing distance, keys breaking ties.
pub open spec fn near_sorted(m: Map<u64, ShapeRec>, f: Frustum, s: Seq<u64>) -> bool {
    forall|i: int, j: int| 0 <= i < j < s.len() ==> near_before(m, f, s[i], s[j])
}

/// Strictly back-to-front: non-increasing distance, keys breaking ties.
pub open spec fn far_sorted(m: Map<u64, ShapeRec>, f: Frustum, s: Seq<u64>) -> bool {
    forall|i: int, j: int| 0 <= i < j < s.len() ==> near_before(m, f, s[j], s[i])
}

/// The front-to-back query result: the intersecting keys, nearest first.
pub open spec fn is_near_order(m: Map<u64, ShapeRec>, f: Frustum, s: Seq<u64>) -> bool {
    is_query_set(m, f, s) && near_sorted(m, f, s)
}

/// The back-to-front query result: the same keys, farthest first.
pub open spec fn is_far_order(m: Map<u64, ShapeRec>, f: Frustum, s: Seq<u64>) -> bool {
    is_query_set(m, f, s) && far_sorted(m, f, s)
}

/// Lexicographic order on (distance, key) pairs.
pub open spec fn pair_lt(a: (i64, u64), b: (i64, u64)) -> bool {
    a.0 < b.0 || (a.0 == b.0 && a.1 < b.1)
}

/// Some pair of the sequence carries the key `k`.
pub open spec fn acc_has_key(s: Seq<(i64, u64)>, k: u64) -> bool {
    exists|a: int| 0 <= a < s.len() && s[a].1 == k
}

/// Some pair of the sequence equals `p`.
pub open spec fn acc_has_pair(s: Seq<(i64, u64)>, p: (i64, u64)) -> bool {
    exists|a: int| 0 <= a < s.len() && s[a] == p
}

/// Inserts a pair with a fresh key into a strictly sorted pair list,
/// keeping it strictly sorted; every old pair is kept and every new pair
/// is old or `p`.
fn insert_sorted(acc: &mut Vec<(i64, u64)>, p: (i64, u64))
    requires
        forall|a: int, b: int| 0 <= a < b < old(acc)@.len() ==> pair_lt(
            #[trigger] old(acc)@[a],
            #[trigger] old(acc)@[b],
        ),
        forall|a: int| 0 <= a < old(acc)@.len() ==> (#[trigger] old(acc)@[a]).1 != p.1,
    ensures
        final(acc)@.len() == old(acc)@.len() + 1,
        forall|a: int, b: int| 0 <= a < b < final(acc)@.len() ==> pair_lt(
            #[trigger] final(acc)@[a],
            #[trigger] final(acc)@[b],
        ),
        forall|a: int| 0 <= a < final(acc)@.len() ==> (#[trigger] final(acc)@[a] == p
            || acc_has_pair(old(acc)@, final(acc)@[a])),
        forall|b: int| 0 <= b < old(acc)@.len() ==> acc_has_pair(
            final(acc)@,
            #[trigger] old(acc)@[b],
        ),
        acc_has_pair(final(acc)@, p),
{
    let n = acc.len();
    let mut j: usize = 0;
    while j < n && (acc[j].0 < p.0 || (acc[j].0 == p.0 && acc[j].1 < p.1))
        invariant
            n == acc@.len(),
            acc@ == old(acc)@,
            j <= n,
            forall|a: int| 0 <= a < j ==> pair_lt(#[trigger] acc@[a], p),
        decreases n - j,
    {
        j += 1;
    }
    proof {
        if (j as int) < acc@.len() {
            assert(acc@[j as int].1 != p.1);
            assert(pair_lt(p, acc@[j as int]));
        }
    }
    acc.insert(j, p);
    proof {
        let s0 = old(acc)@;
        let s1 = acc@;
        assert forall|a: int| 0 <= a < s1.len() implies s1[a] == (if a < j as int {
            s0[a]
        } else if a == j as int {
            p
        } else {
            s0[a - 1]
        }) by {
            assert(s1 == s0.insert(j as int, p));
        }
        assert forall|a: int, b: int| 0 <= a < b < s1.len() implies pair_lt(s1[a], s1[b]) by {
            if b < j as int {
                assert(pair_lt(s0[a], s0[b]));
            } else if b == j as int {
                assert(pair_lt(s0[a], p));
            } else if a < j as int {
                // a < j <= b - 1, so both indices land in s0
                assert(s1[b] == s0[b - 1]);
                assert(pair_lt(s0[a], s0[b - 1]));
            } else if a == j as int {
                assert(pair_lt(p, s0[j as int]));
                if (j as int) < b - 1 {
                    assert(pair_lt(s0[j as int], s0[b - 1]));
                }
            } else {
                assert(pair_lt(s0[a - 1], s0[b - 1]));
            }
        }
        assert forall|b: int| 0 <= b < s0.len() implies acc_has_pair(s1, s0[b]) by {
            if b < j as int {
                assert(s1[b] == s0[b]);
            } else {
                assert(s1[b + 1] == s0[b]);
            }
        }
        assert(s1[j as int] == p);
    }
}

/// Grid bucket of a box: its minimum corner quantized to the coarse grid.
pub open spec fn bucket_of(b: BBox) -> (int, int, int) {
    (
        (b.min.x + WORLD_BOUND) / (BUCKET_CELL as int),
        (b.min.y + WORLD_BOUND) / (BUCKET_CELL as int),
        (b.min.z + WORLD_BOUND) / (BUCKET_CELL as int),
    )
}

/// Whether two world-space boxes fall in the same grid bucket.
pub fn same_bucket(a: &BBox, b: &BBox) -> (r: bool)
    requires
        pt_world(a.min),
        pt_world(b.min),
    ensures
        r == (bucket_of(*a) == bucket_of(*b)),
{
    let ax = (a.min.x + WORLD_BOUND) / BUCKET_CELL;
    let ay = (a.min.y + WORLD_BOUND) / BUCKET_CELL;
    let az = (a.min.z + WORLD_BOUND) / BUCKET_CELL;
    let bx = (b.min.x + WORLD_BOUND) / BUCKET_CELL;
    let by = (b.min.y + WORLD_BOUND) / BUCKET_CELL;
    let bz = (b.min.z + WORLD_BOUND) / BUCKET_CELL;
    ax == bx && ay == by && az == bz
}

/// Box-indexed structure of one render pass: insert, remove, in-place
/// update, and frustum-ordered traversal over stable keys.
pub struct SpatialIndex {
    entries: Vec<(u64, ShapeRec)>,
    next_key: u64,
}

impl View for SpatialIndex {
    type V = Map<u64, ShapeRec>;

    /// The keyed records this index holds.
    closed spec fn view(&self) -> Map<u64, ShapeRec> {
        map_of(self.entries@)
    }
}

impl SpatialIndex {
    /// Internal invariant: keys strictly increase along the entry list, all
    /// stay below the issue counter, and every stored record is consistent.
    pub closed spec fn wf(self) -> bool {
        &&& keys_increasing(self.entries@)
        &&& forall|i: int|
            0 <= i < self.entries@.len() ==> (#[trigger] self.entries@[i]).0 < self.next_key
        &&& forall|i: int| 0 <= i < self.entries@.len() ==> rec_wf(
            (#[trigger] self.entries@[i]).1,
        )
    }

    /// Strictly increasing keys never repeat.
    proof fn lemma_distinct(self)
        requires
            self.wf(),
        ensures
            keys_distinct(self.entries@),
    {
    }

    /// All keys ever issued lie below this bound; the next insert returns
    /// exactly this bound, so a removed key is never issued again.
    pub closed spec fn key_bound(self) -> u64 {
        self.next_key
    }

    /// Every key currently held lies strictly below `key_bound()`: a key
    /// equal to the bound is fresh.
    pub proof fn lemma_dom_below_bound(self)
        requires
            self.wf(),
        ensures
            forall|k: u64| #[trigger] self@.dom().contains(k) ==> k < self.key_bound(),
    {
        self.lemma_distinct();
        lemma_map_of_props(self.entries@);
        assert forall|k: u64| #[trigger] self@.dom().contains(k) implies k
            < self.key_bound() by {
            let i = choose|i: int|
                0 <= i < self.entries@.len() && self.entries@[i].0 == k;
            assert(self.entries@[i].0 < self.next_key);
        }
    }

    /// Every stored record satisfies the record invariant.
    pub proof fn lemma_recs_wf(self, k: u64)
        requires
            self.wf(),
            self@.dom().contains(k),
        ensures
            rec_wf(self@[k]),
    {
        self.lemma_distinct();
        lemma_map_of_props(self.entries@);
        let i = choose|i: int| 0 <= i < self.entries@.len() && self.entries@[i].0 == k;
        assert(self@[self.entries@[i].0] == self.entries@[i].1);
    }

    /// A fresh, empty index.
    pub fn new() -> (s: SpatialIndex)
        ensures
            s.wf(),
            s@ == Map::<u64, ShapeRec>::empty(),
            s.key_bound() == 0,
    {
        SpatialIndex { entries: Vec::new(), next_key: 0 }
    }

    /// Number of records held.
    pub fn len(&self) -> (n: usize)
        requires
            self.wf(),
        ensures
            n == self@.dom().len(),
    {
        proof {
            self.lemma_distinct();
            lemma_map_of_props(self.entries@);
        }
        self.entries.len()
    }

    /// Whether no record is held.
    pub fn is_empty(&self) -> (r: bool)
        requires
            self.wf(),
        ensures
            r == (self@.dom().len() == 0),
    {
        proof {
            self.lemma_distinct();
            lemma_map_of_props(self.entries@);
        }
        self.entries.len() == 0
    }

    /// Buckets the record by its bounding box and returns its key; the key
    /// is fresh and remains valid until removed.
    pub fn insert(&mut self, rec: ShapeRec) -> (k: u64)
        requires
            old(self).wf(),
            rec_wf(rec),
            old(self).key_bound() < u64::MAX,
        ensures
            final(self).wf(),
            k == old(self).key_bound(),
            !old(self)@.dom().contains(k),
            final(self)@ == old(self)@.insert(k, rec),
            final(self).key_bound() == k + 1,
    {
        proof {
            self.lemma_distinct();
            lemma_map_of_props(self.entries@);
        }
        let k = self.next_key;
        self.next_key = k + 1;
        self.entries.push((k, rec));
        proof {
            let s = old(self).entries@;
            let s2 = self.entries@;
            assert(s2.drop_last() =~= s);
            assert(s2.last() == (k, rec));
            assert(!has_key(s, k)) by {
                if has_key(s, k) {
                    let i = choose|i: int| 0 <= i < s.len() && s[i].0 == k;
                }
            }
            assert forall|i: int, j: int| 0 <= i < j < s2.len() implies s2[i].0 < s2[j].0 by {
                if j < s2.len() - 1 {
                    assert(s[i].0 < s[j].0);
                } else {
                    assert(s2[i].0 == s[i].0);
                }
            }
        }
        k
    }

    /// Index of the entry carrying `k`.
    fn find(&self, k: u64) -> (i: usize)
        requires
            self.wf(),
            self@.dom().contains(k),
        ensures
            i < self.entries@.len(),
            self.entries@[i as int].0 == k,
    {
        proof {
            self.lemma_distinct();
            lemma_map_of_props(self.entries@);
        }
        let n = self.entries.len();
        let mut i: usize = 0;
        while i < n
            invariant
                n == self.entries@.len(),
                i <= n,
                has_key(self.entries@, k),
                forall|j: int| 0 <= j < i ==> (#[trigger] self.entries@[j]).0 != k,
            decreases n - i,
        {
            if self.entries[i].0 == k {
                return i;
            }
            i += 1;
        }
        proof {
            let j = choose|j: int| 0 <= j < self.entries@.len() && self.entries@[j].0 == k;
            assert(false);
        }
        0
    }

    /// The record a valid key dereferences to.
    pub fn get(&self, k: u64) -> (r: &ShapeRec)
        requires
            self.wf(),
            self@.dom().contains(k),
        ensures
            *r == self@[k],
    {
        proof {
            self.lemma_distinct();
            lemma_map_of_props(self.entries@);
        }
        let i = self.find(k);
        &self.entries[i].1
    }

    /// Whether the key currently dereferences to a record.
    pub fn contains_key(&self, k: u64) -> (r: bool)
        requires
            self.wf(),
        ensures
            r == self@.dom().contains(k),
    {
        proof {
            self.lemma_distinct();
            lemma_map_of_props(self.entries@);
        }
        let n = self.entries.len();
        let mut i: usize = 0;
        while i < n
            invariant
                self.wf(),
                n == self.entries@.len(),
                i <= n,
                forall|j: int| 0 <= j < i ==> (#[trigger] self.entries@[j]).0 != k,
            decreases n - i,
        {
            if self.entries[i].0 == k {
                proof {
                    self.lemma_distinct();
                    lemma_map_of_props(self.entries@);
                    assert(has_key(self.entries@, k));
                }
                return true;
            }
            i += 1;
        }
        proof {
            if has_key(self.entries@, k) {
                let j = choose|j: int|
                    0 <= j < self.entries@.len() && self.entries@[j].0 == k;
                assert(false);
            }
        }
        false
    }

    /// Removes the record under `k` and invalidates the key.
    pub fn remove(&mut self, k: u64) -> (rec: ShapeRec)
        requires
            old(self).wf(),
            old(self)@.dom().contains(k),
        ensures
            final(self).wf(),
            rec == old(self)@[k],
            rec_wf(rec),
            final(self)@ == old(self)@.remove(k),
            final(self).key_bound() == old(self).key_bound(),
    {
        proof {
            self.lemma_distinct();
            lemma_map_of_props(self.entries@);
        }
        let i = self.find(k);
        proof {
            lemma_map_of_remove(self.entries@, i as int);
        }
        let entry = self.entries.remove(i);
        proof {
            let s = old(self).entries@;
            let s2 = self.entries@;
            assert forall|a: int, b: int| 0 <= a < b < s2.len() implies s2[a].0 < s2[b].0 by {
                if a < i as int {
                    if b < i as int {
                        assert(s[a].0 < s[b].0);
                    } else {
                        assert(s2[b] == s[b + 1]);
                        assert(s[a].0 < s[b + 1].0);
                    }
                } else {
                    assert(s2[a] == s[a + 1]);
                    assert(s2[b] == s[b + 1]);
                    assert(s[a + 1].0 < s[b + 1].0);
                }
            }
            assert(old(self)@[k] == s[i as int].1);
        }
        entry.1
    }

    /// Front-to-back query: exactly the keys whose box intersects the
    /// frustum, sorted by non-decreasing distance to its reference point
    /// (used by the opaque pass to reduce overdraw).
    pub fn ordered_near(&self, f: &Frustum) -> (out: Vec<u64>)
        requires
            self.wf(),
            frustum_wf(*f),
        ensures
            is_near_order(self@, *f, out@),
    {
        let ghost m = self@;
        let n = self.entries.len();
        let mut acc: Vec<(i64, u64)> = Vec::new();
        let mut i: usize = 0;
        while i < n
            invariant
                self.wf(),
                frustum_wf(*f),
                m == self@,
                n == self.entries@.len(),
                i <= n,
                forall|a: int| 0 <= a < acc@.len() ==> in_query(m, *f, (#[trigger] acc@[a]).1),
                forall|a: int| 0 <= a < acc@.len() ==> (#[trigger] acc@[a]).0 == entry_dist(
                    m,
                    *f,
                    acc@[a].1,
                ),
                forall|a: int| 0 <= a < acc@.len() ==> exists|e: int|
                    0 <= e < i && (#[trigger] self.entries@[e]).0 == (#[trigger] acc@[a]).1,
                forall|e: int| 0 <= e < i && intersects(
                    *f,
                    (#[trigger] self.entries@[e]).1.bbox,
                ) ==> acc_has_key(acc@, self.entries@[e].0),
                forall|a: int, b: int| 0 <= a < b < acc@.len() ==> pair_lt(
                    #[trigger] acc@[a],
                    #[trigger] acc@[b],
                ),
            decreases n - i,
        {
            let key = self.entries[i].0;
            proof {
                self.lemma_distinct();
                lemma_map_of_props(self.entries@);
                assert(self.entries@[i as int].0 == key);
                assert(has_key(self.entries@, key));
                assert(m[key] == self.entries@[i as int].1);
                assert(rec_wf(m[key]));
                lemma_rec_world_bounds(m[key]);
            }
            let rec = &self.entries[i].1;
            if f.intersects_box(&rec.bbox) {
                let d = dist_sq_exec(&rec.pos, &f.center);
                let ghost acc0 = acc@;
                proof {
                    assert forall|a: int| 0 <= a < acc@.len() implies (#[trigger] acc@[a]).1
                        != key by {
                        let e = choose|e: int|
                            0 <= e < i && self.entries@[e].0 == acc@[a].1;
                        assert(self.entries@[e].0 < self.entries@[i as int].0);
                    }
                }
                insert_sorted(&mut acc, (d, key));
                proof {
                    assert forall|a: int| 0 <= a < acc@.len() implies in_query(
                        m,
                        *f,
                        (#[trigger] acc@[a]).1,
                    ) && acc@[a].0 == entry_dist(m, *f, acc@[a].1) && exists|e: int|
                        0 <= e < i + 1 && (#[trigger] self.entries@[e]).0 == acc@[a].1 by {
                        if acc@[a] == (d, key) {
                            assert(self.entries@[i as int].0 == acc@[a].1);
                        } else {
                            assert(acc_has_pair(acc0, acc@[a]));
                            let b = choose|b: int| 0 <= b < acc0.len() && acc0[b] == acc@[a];
                            let e = choose|e: int|
                                0 <= e < i && self.entries@[e].0 == acc0[b].1;
                            assert(0 <= e < i + 1 && self.entries@[e].0 == acc@[a].1);
                        }
                    }
                    assert forall|e: int| 0 <= e < i + 1 && intersects(
                        *f,
                        (#[trigger] self.entries@[e]).1.bbox,
                    ) implies acc_has_key(acc@, self.entries@[e].0) by {
                        if e < i {
                            let a = choose|a: int|
                                0 <= a < acc0.len() && acc0[a].1 == self.entries@[e].0;
                            assert(acc_has_pair(acc@, acc0[a]));
                            let a2 = choose|a2: int|
                                0 <= a2 < acc@.len() && acc@[a2] == acc0[a];
                            assert(acc@[a2].1 == self.entries@[e].0);
                        } else {
                            assert(acc_has_pair(acc@, (d, key)));
                            let a2 = choose|a2: int|
                                0 <= a2 < acc@.len() && acc@[a2] == (d, key);
                            assert(acc@[a2].1 == key);
                        }
                    }
                }
            } else {
                proof {
                    assert forall|e: int| 0 <= e < i + 1 && intersects(
                        *f,
                        (#[trigger] self.entries@[e]).1.bbox,
                    ) implies acc_has_key(acc@, self.entries@[e].0) by {
                        if e == i {
                            assert(!intersects(*f, m[key].bbox));
                        }
                    }
                }
            }
            i += 1;
        }
        let mut out: Vec<u64> = Vec::new();
        let alen = acc.len();
        let mut a: usize = 0;
        while a < alen
            invariant
                alen == acc@.len(),
                a <= alen,
                out@.len() == a,
                forall|x: int| 0 <= x < a ==> out@[x] == (#[trigger] acc@[x]).1,
            decreases alen - a,
        {
            out.push(acc[a].1);
            a += 1;
        }
        proof {
            self.lemma_distinct();
            lemma_map_of_props(self.entries@);
            assert forall|k: u64| #[trigger] out@.contains(k) <==> in_query(m, *f, k) by {
                if out@.contains(k) {
                    let x = choose|x: int| 0 <= x < out@.len() && out@[x] == k;
                    assert(acc@[x].1 == k);
                    assert(in_query(m, *f, acc@[x].1));
                }
                if in_query(m, *f, k) {
                    let e = choose|e: int|
                        0 <= e < self.entries@.len() && self.entries@[e].0 == k;
                    assert(m[self.entries@[e].0] == self.entries@[e].1);
                    assert(intersects(*f, self.entries@[e].1.bbox));
                    let x = choose|x: int| 0 <= x < acc@.len() && acc@[x].1 == k;
                    assert(out@[x] == k);
                }
            }
            assert forall|x: int, y: int| 0 <= x < y < out@.len() implies near_before(
                m,
                *f,
                out@[x],
                out@[y],
            ) by {
                assert(pair_lt(acc@[x], acc@[y]));
                assert(acc@[x].0 == entry_dist(m, *f, acc@[x].1));
                assert(acc@[y].0 == entry_dist(m, *f, acc@[y].1));
            }
        }
        out
    }

    /// Back-to-front query: the same keys as `ordered_near`, sorted by
    /// non-increasing distance — the submission order the alpha pass
    /// requires for blending correctness.
    pub fn ordered_far(&self, f: &Frustum) -> (out: Vec<u64>)
        requires
            self.wf(),
            frustum_wf(*f),
        ensures
            is_far_order(self@, *f, out@),
    {
        let near = self.ordered_near(f);
        let ghost m = self@;
        let n = near.len();
        let mut out: Vec<u64> = Vec::new();
        let mut i: usize = 0;
        while i < n
            invariant
                n == near@.len(),
                i <= n,
                out@.len() == i,
                is_near_order(m, *f, near@),
                forall|x: int| 0 <= x < i ==> out@[x] == near@[n - 1 - x],
            decreases n - i,
        {
            out.push(near[n - 1 - i]);
            i += 1;
        }
        proof {
            assert forall|k: u64| #[trigger] out@.contains(k) <==> in_query(m, *f, k) by {
                if out@.contains(k) {
                    let x = choose|x: int| 0 <= x < out@.len() && out@[x] == k;
                    assert(near@[n - 1 - x] == k);
                    assert(near@.contains(k));
                }
                if in_query(m, *f, k) {
                    assert(near@.contains(k));
                    let x = choose|x: int| 0 <= x < near@.len() && near@[x] == k;
                    assert(out@[n - 1 - x] == near@[x]);
                }
            }
            assert forall|x: int, y: int| 0 <= x < y < out@.len() implies near_before(
                m,
                *f,
                out@[y],
                out@[x],
            ) by {
                assert(out@[x] == near@[n - 1 - x]);
                assert(out@[y] == near@[n - 1 - y]);
                assert(near_before(m, *f, near@[n - 1 - y], near@[n - 1 - x]));
            }
        }
        out
    }

    /// Rewrites the record under `k`, key kept; permitted only while the
    /// new bounding box stays within the key's current bucket (otherwise
    /// remove and reinsert).
    pub fn update_in_place(&mut self, k: u64, rec: ShapeRec)
        requires
            old(self).wf(),
            old(self)@.dom().contains(k),
            rec_wf(rec),
            bucket_of(rec.bbox) == bucket_of(old(self)@[k].bbox),
        ensures
            final(self).wf(),
            final(self)@ == old(self)@.insert(k, rec),
            final(self).key_bound() == old(self).key_bound(),
    {
        proof {
            self.lemma_distinct();
            lemma_map_of_props(self.entries@);
        }
        let i = self.find(k);
        proof {
            lemma_map_of_update(self.entries@, i as int, rec);
        }
        self.entries.set(i, (k, rec));
        proof {
            let s = old(self).entries@;
            let s2 = self.entries@;
            assert(s2 =~= s.update(i as int, (s[i as int].0, rec)));
            assert forall|a: int, b: int| 0 <= a < b < s2.len() implies s2[a].0 < s2[b].0 by {
                assert(s2[a].0 == s[a].0);
                assert(s2[b].0 == s[b].0);
            }
        }
    }
}

/// Two strictly front-to-back sequences over the same map and frustum that
/// hold the same keys are the same sequence: the draw order is determined.
pub proof fn lemma_near_sorted_unique(m: Map<u64, ShapeRec>, f: Frustum, s1: Seq<u64>, s2: Seq<
    u64,
>)
    requires
        near_sorted(m, f, s1),
        near_sorted(m, f, s2),
        forall|k: u64| #[trigger] s1.contains(k) <==> #[trigger] s2.contains(k),
    ensures
        s1 == s2,
    decreases s1.len(),
{
    if s1.len() == 0 {
        if s2.len() > 0 {
            assert(s2.contains(s2[0]));
            assert(s1.contains(s2[0]));
            let x = choose|x: int| 0 <= x < s1.len() && s1[x] == s2[0];
            assert(false);
        }
        assert(s1 =~= s2);
    } else {
        assert(s1.contains(s1[0]));
        assert(s2.contains(s1[0]));
        let q = choose|q: int| 0 <= q < s2.len() && s2[q] == s1[0];
        assert(s2.contains(s2[0]));
        assert(s1.contains(s2[0]));
        let p = choose|p: int| 0 <= p < s1.len() && s1[p] == s2[0];
        if q > 0 && p > 0 {
            assert(near_before(m, f, s2[0], s2[q]));
            assert(near_before(m, f, s1[0], s1[p]));
            assert(false);
        }
        assert(s1[0] == s2[0]);
        let t1 = s1.drop_first();
        let t2 = s2.drop_first();
        assert forall|i: int, j: int| 0 <= i < j < t1.len() implies near_before(
            m,
            f,
            t1[i],
            t1[j],
        ) by {
            assert(near_before(m, f, s1[i + 1], s1[j + 1]));
        }
        assert forall|i: int, j: int| 0 <= i < j < t2.len() implies near_before(
            m,
            f,
            t2[i],
            t2[j],
        ) by {
            assert(near_before(m, f, s2[i + 1], s2[j + 1]));
        }
        assert forall|k: u64| #[trigger] t1.contains(k) <==> #[trigger] t2.contains(k) by {
            if t1.contains(k) {
                let x = choose|x: int| 0 <= x < t1.len() && t1[x] == k;
                assert(s1[x + 1] == k);
                assert(s1.contains(k));
                assert(near_before(m, f, s1[0], s1[x + 1]));
                assert(k != s2[0]);
                assert(s2.contains(k));
                let y = choose|y: int| 0 <= y < s2.len() && s2[y] == k;
                assert(y != 0);
                assert(t2[y - 1] == k);
            }
            if t2.contains(k) {
                let x = choose|x: int| 0 <= x < t2.len() && t2[x] == k;
                assert(s2[x + 1] == k);
                assert(s2.contains(k));
                assert(near_before(m, f, s2[0], s2[x + 1]));
                assert(k != s1[0]);
                assert(s1.contains(k));
                let y = choose|y: int| 0 <= y < s1.len() && s1[y] == k;
                assert(y != 0);
                assert(t1[y - 1] == k);
            }
        }
        lemma_near_sorted_unique(m, f, t1, t2);
        assert(s1.len() == s2.len());
        assert forall|i: int| 0 <= i < s1.len() implies s1[i] == s2[i] by {
            if i > 0 {
                assert(t1[i - 1] == t2[i - 1]);
            }
        }
        assert(s1 =~= s2);
    }
}

/// Reversing the back-to-front order yields exactly the front-to-back
/// order: the two pass queries agree on the set and are each other's
/// inverse.
pub proof fn lemma_far_reverses_near(m: Map<u64, ShapeRec>, f: Frustum, near: Seq<u64>, far: Seq<
    u64,
>)
    requires
        is_near_order(m, f, near),
        is_far_order(m, f, far),
    ensures
        far.reverse() == near,
        far == near.reverse(),
{
    let rev = far.reverse();
    assert(rev.len() == far.len());
    assert forall|i: int, j: int| 0 <= i < j < rev.len() implies near_before(
        m,
        f,
        rev[i],
        rev[j],
    ) by {
        let l = far.len() as int;
        assert(rev[i] == far[l - 1 - i]);
        assert(rev[j] == far[l - 1 - j]);
        assert(near_before(m, f, far[l - 1 - i], far[l - 1 - j]));
    }
    assert forall|k: u64| #[trigger] rev.contains(k) <==> #[trigger] near.contains(k) by {
        let l = far.len() as int;
        if rev.contains(k) {
            let x = choose|x: int| 0 <= x < rev.len() && rev[x] == k;
            assert(far[l - 1 - x] == k);
            assert(far.contains(k));
        }
        if near.contains(k) {
            assert(in_query(m, f, k));
            assert(far.contains(k));
            let y = choose|y: int| 0 <= y < far.len() && far[y] == k;
            assert(rev[l - 1 - y] == far[y]);
        }
    }
    lemma_near_sorted_unique(m, f, rev, near);
    assert forall|i: int| 0 <= i < far.len() implies far[i] == near.reverse()[i] by {
        let l = far.len() as int;
        assert(near.reverse()[i] == near[l - 1 - i]);
        assert(near[l - 1 - i] == rev[l - 1 - i]);
        assert(rev[l - 1 - i] == far[i]);
    }
    assert(far =~= near.reverse());
}

/// Insert-then-remove round trip: removing a freshly inserted key returns
/// exactly the inserted record and leaves the map as it was.
pub proof fn lemma_insert_remove_round_trip(m: Map<u64, ShapeRec>, k: u64, rec: ShapeRec)
    requires
        !m.dom().contains(k),
    ensures
        m.insert(k, rec)[k] == rec,
        m.insert(k, rec).remove(k) == m,
{
    assert(m.insert(k, rec).remove(k) =~= m);
}

} // verus!
