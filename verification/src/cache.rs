//! The task cache: the last-known snapshot of every task, by identity, and an
//! index of the same tasks by the time at which they are due.

use std::collections::HashMap;
use vstd::prelude::*;
use crate::task::{Identity, TaskSnapshot, TaskSnapshotView};

verus! {

broadcast use vstd::std_specs::hash::group_hash_axioms;

/// One cached task: the key it was inserted under and its snapshot.
struct CacheEntry {
    identity: Identity,
    snapshot: TaskSnapshot,
}

/// The cache. `data` holds one entry per identity; `index` lists, for every
/// due time that some cached task has, the identities due at that time.
pub struct TaskCache {
    data: Vec<CacheEntry>,
    index: HashMap<i64, Vec<Identity>>,
}

/// The time index that a by-identity map calls for: each due time that occurs
/// maps to the set of identities due then, and no other time has a bucket.
pub open spec fn time_index(by_identity: Map<Identity, TaskSnapshotView>) -> Map<
    i64,
    Set<Identity>,
> {
    Map::new(
        |t: i64|
            exists|id: Identity| #[trigger]
                by_identity.contains_key(id) && by_identity[id].schedule.due_at == t,
        |t: i64|
            Set::new(
                |id: Identity| by_identity.contains_key(id) && by_identity[id].schedule.due_at == t,
            ),
    )
}

/// The coupling between the two halves of a cache: every identity sits in the
/// bucket of its own due time, every identity in a bucket is cached with that
/// due time, and no bucket is empty.
pub open spec fn consistent(
    by_identity: Map<Identity, TaskSnapshotView>,
    by_time: Map<i64, Set<Identity>>,
) -> bool {
    &&& forall|id: Identity| #[trigger]
        by_identity.contains_key(id) ==> by_time.contains_key(by_identity[id].schedule.due_at)
            && by_time[by_identity[id].schedule.due_at].contains(id)
    &&& forall|t: i64, id: Identity|
        by_time.contains_key(t) && #[trigger] by_time[t].contains(id)
            ==> by_identity.contains_key(id) && by_identity[id].schedule.due_at == t
    &&& forall|t: i64| #[trigger]
        by_time.contains_key(t) ==> exists|id: Identity| #[trigger] by_time[t].contains(id)
}

/// No identity has two entries.
spec fn distinct(d: Seq<CacheEntry>) -> bool {
    forall|i: int, j: int| 0 <= i < j < d.len() ==> d[i].identity != d[j].identity
}

/// Some entry is keyed by `id`.
spec fn holds(d: Seq<CacheEntry>, id: Identity) -> bool {
    exists|i: int| 0 <= i < d.len() && (#[trigger] d[i]).identity == id
}

/// The position of the entry keyed by `id`.
spec fn slot(d: Seq<CacheEntry>, id: Identity) -> int {
    choose|i: int| 0 <= i < d.len() && (#[trigger] d[i]).identity == id
}

/// The entries as a map from identity to snapshot.
spec fn entries_map(d: Seq<CacheEntry>) -> Map<Identity, TaskSnapshotView> {
    Map::new(|id: Identity| holds(d, id), |id: Identity| d[slot(d, id)].snapshot@)
}

/// Some entry is keyed by `id` and due at `t`.
spec fn has_at(d: Seq<CacheEntry>, id: Identity, t: i64) -> bool {
    exists|i: int|
        0 <= i < d.len() && (#[trigger] d[i]).identity == id && d[i].snapshot.schedule.due_at == t
}

/// Every entry is filed in the bucket of its due time.
spec fn indexed(d: Seq<CacheEntry>, idx: Map<i64, Vec<Identity>>) -> bool {
    forall|i: int|
        0 <= i < d.len() ==> idx.contains_key((#[trigger] d[i]).snapshot.schedule.due_at)
            && idx[d[i].snapshot.schedule.due_at]@.contains(d[i].identity)
}

/// Every identity in a bucket has an entry due at the bucket's time.
spec fn backed(d: Seq<CacheEntry>, idx: Map<i64, Vec<Identity>>) -> bool {
    forall|t: i64, id: Identity|
        idx.contains_key(t) && #[trigger] idx[t]@.contains(id) ==> has_at(d, id, t)
}

/// No bucket is empty and none names an identity twice.
spec fn tidy(idx: Map<i64, Vec<Identity>>) -> bool {
    forall|t: i64| #[trigger]
        idx.contains_key(t) ==> idx[t]@.len() > 0 && idx[t]@.no_duplicates()
}

/// The entry at position `i` is the one that the map shows for its identity.
proof fn lemma_slot(d: Seq<CacheEntry>, i: int)
    requires
        distinct(d),
        0 <= i < d.len(),
    ensures
        holds(d, d[i].identity),
        slot(d, d[i].identity) == i,
        entries_map(d).contains_key(d[i].identity),
        entries_map(d)[d[i].identity] == d[i].snapshot@,
{
    let id = d[i].identity;
    assert(holds(d, id));
    let s = slot(d, id);
    assert(0 <= s < d.len() && d[s].identity == id);
    if s < i {
        assert(d[s].identity != d[i].identity);
    }
    if i < s {
        assert(d[i].identity != d[s].identity);
    }
}

/// An identity in the map has an entry, at the position returned.
proof fn lemma_held(d: Seq<CacheEntry>, id: Identity) -> (i: int)
    requires
        distinct(d),
        entries_map(d).contains_key(id),
    ensures
        0 <= i < d.len(),
        d[i].identity == id,
        entries_map(d)[id] == d[i].snapshot@,
{
    let i = slot(d, id);
    assert(holds(d, id));
    lemma_slot(d, i);
    i
}

/// Taking out the entry at `p` removes its identity from the map and nothing
/// else.
proof fn lemma_map_remove(d: Seq<CacheEntry>, p: int)
    requires
        distinct(d),
        0 <= p < d.len(),
    ensures
        distinct(d.remove(p)),
        entries_map(d.remove(p)) == entries_map(d).remove(d[p].identity),
{
    let e = d.remove(p);
    let rid = d[p].identity;
    assert(distinct(e)) by {
        assert forall|i: int, j: int| 0 <= i < j < e.len() implies e[i].identity
            != e[j].identity by {
            let a = if i < p { i } else { i + 1 };
            let b = if j < p { j } else { j + 1 };
            assert(e[i] == d[a] && e[j] == d[b]);
        }
    }
    assert forall|id: Identity| entries_map(e).contains_key(id) implies entries_map(
        d,
    ).contains_key(id) && id != rid && entries_map(d)[id] == entries_map(e)[id] by {
        let i = lemma_held(e, id);
        let a = if i < p { i } else { i + 1 };
        assert(e[i] == d[a]);
        lemma_slot(d, a);
        if a < p {
            assert(d[a].identity != d[p].identity);
        } else {
            assert(d[p].identity != d[a].identity);
        }
    }
    assert forall|id: Identity| entries_map(d).contains_key(id) && id != rid implies entries_map(
        e,
    ).contains_key(id) by {
        let a = lemma_held(d, id);
        let i = if a < p { a } else { a - 1 };
        assert(e[i] == d[a]);
        lemma_slot(e, i);
    }
    assert(entries_map(e) =~= entries_map(d).remove(rid));
}

/// Appending an entry for a new identity inserts it into the map.
proof fn lemma_map_push(d: Seq<CacheEntry>, x: CacheEntry)
    requires
        distinct(d),
        !entries_map(d).contains_key(x.identity),
    ensures
        distinct(d.push(x)),
        entries_map(d.push(x)) == entries_map(d).insert(x.identity, x.snapshot@),
{
    let e = d.push(x);
    assert(distinct(e)) by {
        assert forall|i: int, j: int| 0 <= i < j < e.len() implies e[i].identity
            != e[j].identity by {
            if j == d.len() {
                assert(e[i] == d[i]);
                lemma_slot(d, i);
            } else {
                assert(e[i] == d[i] && e[j] == d[j]);
            }
        }
    }
    lemma_slot(e, d.len() as int);
    assert forall|id: Identity| entries_map(e).contains_key(id) && id != x.identity implies entries_map(
        d,
    ).contains_key(id) && entries_map(d)[id] == entries_map(e)[id] by {
        let i = lemma_held(e, id);
        assert(e[i] == d[i]);
        lemma_slot(d, i);
    }
    assert forall|id: Identity| entries_map(d).contains_key(id) implies entries_map(
        e,
    ).contains_key(id) by {
        let i = lemma_held(d, id);
        assert(e[i] == d[i]);
        lemma_slot(e, i);
    }
    assert(entries_map(e) =~= entries_map(d).insert(x.identity, x.snapshot@));
}

/// Takes `id` out of the bucket of `due`, and drops the bucket if that
/// empties it.
fn bucket_remove(index: &mut HashMap<i64, Vec<Identity>>, due: i64, id: Identity)
    requires
        tidy(old(index)@),
        old(index)@.contains_key(due),
        old(index)@[due]@.contains(id),
    ensures
        tidy(final(index)@),
        forall|t: i64|
            t != due ==> (#[trigger] final(index)@.contains_key(t)) == old(index)@.contains_key(t),
        forall|t: i64|
            t != due && old(index)@.contains_key(t) ==> (#[trigger] final(index)@[t]) == old(
                index,
            )@[t],
        forall|x: Identity|
            (final(index)@.contains_key(due) && final(index)@[due]@.contains(x)) <==> (old(
                index,
            )@[due]@.contains(x) && x != id),
{
    let taken = index.remove(&due);
    match taken {
        Some(mut bucket) => {
            let ghost before = bucket@;
            let mut q: usize = 0;
            while q < bucket.len() && !(bucket[q] == id)
                invariant
                    q <= bucket.len(),
                    bucket@ == before,
                    forall|k: int| 0 <= k < q ==> before[k] != id,
                decreases bucket.len() - q,
            {
                q += 1;
            }
            assert(q < bucket.len()) by {
                let w = choose|k: int| 0 <= k < before.len() && before[k] == id;
                assert(0 <= w < before.len() && before[w] == id);
            }
            let _ = bucket.remove(q);
            let ghost after = bucket@;
            assert(after == before.remove(q as int));
            assert forall|x: Identity| after.contains(x) <==> (before.contains(x) && x != id) by {
                if after.contains(x) {
                    let k = choose|k: int| 0 <= k < after.len() && after[k] == x;
                    let a = if k < q { k } else { k + 1 };
                    assert(before[a] == x);
                    assert(a != q);
                }
                if before.contains(x) && x != id {
                    let a = choose|a: int| 0 <= a < before.len() && before[a] == x;
                    let k = if a < q { a } else { a - 1 };
                    assert(after[k] == x);
                }
            }
            assert(after.no_duplicates()) by {
                assert forall|i: int, j: int|
                    0 <= i < after.len() && 0 <= j < after.len() && i != j implies after[i]
                    != after[j] by {
                    let a = if i < q { i } else { i + 1 };
                    let b = if j < q { j } else { j + 1 };
                    assert(after[i] == before[a] && after[j] == before[b]);
                }
            }
            if bucket.len() > 0 {
                index.insert(due, bucket);
            } else {
                assert forall|x: Identity| !(before.contains(x) && x != id) by {
                    if before.contains(x) && x != id {
                        assert(after.contains(x));
                    }
                }
            }
        },
        None => {},
    }
}

/// Puts `id` into the bucket of `due`, making the bucket if there is none.
fn bucket_add(index: &mut HashMap<i64, Vec<Identity>>, due: i64, id: Identity)
    requires
        tidy(old(index)@),
        !(old(index)@.contains_key(due) && old(index)@[due]@.contains(id)),
    ensures
        tidy(final(index)@),
        final(index)@.contains_key(due),
        forall|t: i64|
            t != due ==> (#[trigger] final(index)@.contains_key(t)) == old(index)@.contains_key(t),
        forall|t: i64|
            t != due && old(index)@.contains_key(t) ==> (#[trigger] final(index)@[t]) == old(
                index,
            )@[t],
        forall|x: Identity|
            final(index)@[due]@.contains(x) <==> (x == id || (old(index)@.contains_key(due) && old(
                index,
            )@[due]@.contains(x))),
{
    let taken = index.remove(&due);
    let mut bucket = match taken {
        Some(b) => b,
        None => Vec::new(),
    };
    let ghost before = bucket@;
    bucket.push(id);
    let ghost after = bucket@;
    assert forall|x: Identity| after.contains(x) <==> (x == id || before.contains(x)) by {
        if after.contains(x) {
            let k = choose|k: int| 0 <= k < after.len() && after[k] == x;
            if k < before.len() {
                assert(before[k] == x);
            }
        }
        if before.contains(x) {
            let k = choose|k: int| 0 <= k < before.len() && before[k] == x;
            assert(after[k] == x);
        }
        assert(after[before.len() as int] == id);
    }
    assert(after.no_duplicates()) by {
        assert forall|i: int, j: int|
            0 <= i < after.len() && 0 <= j < after.len() && i != j implies after[i]
            != after[j] by {
            if i < before.len() {
                assert(before[i] == after[i]);
                assert(before.contains(after[i]));
            }
            if j < before.len() {
                assert(before[j] == after[j]);
                assert(before.contains(after[j]));
            }
        }
    }
    index.insert(due, bucket);
}

/// Whether `out` lists exactly the cached tasks due from `low` to `high`, both
/// included: each element is a cached identity with a copy of its snapshot,
/// no identity occurs twice, earlier due times come first, and no cached task
/// due in the range is missing.
pub open spec fn listed(
    by_identity: Map<Identity, TaskSnapshotView>,
    out: Seq<(Identity, TaskSnapshot)>,
    low: int,
    high: int,
) -> bool {
    &&& forall|k: int|
        0 <= k < out.len() ==> by_identity.contains_key((#[trigger] out[k]).0)
            && by_identity[out[k].0] == out[k].1@ && low <= out[k].1.schedule.due_at <= high
    &&& forall|k1: int, k2: int|
        0 <= k1 < k2 < out.len() ==> (#[trigger] out[k1]).0 != (#[trigger] out[k2]).0
            && out[k1].1.schedule.due_at <= out[k2].1.schedule.due_at
    &&& forall|id: Identity| #[trigger]
        by_identity.contains_key(id) && low <= by_identity[id].schedule.due_at <= high
            ==> exists|k: int| 0 <= k < out.len() && (#[trigger] out[k]).0 == id
}

/// A listing up to `t - 1` followed by a listing of `t` alone is a listing up
/// to `t`.
proof fn lemma_listed_append(
    m: Map<Identity, TaskSnapshotView>,
    a: Seq<(Identity, TaskSnapshot)>,
    b: Seq<(Identity, TaskSnapshot)>,
    low: int,
    t: int,
)
    requires
        listed(m, a, low, t - 1),
        listed(m, b, t, t),
        low <= t,
    ensures
        listed(m, a + b, low, t),
{
    let c = a + b;
    assert forall|k: int| 0 <= k < c.len() implies m.contains_key((#[trigger] c[k]).0) && m[c[k].0]
        == c[k].1@ && low <= c[k].1.schedule.due_at <= t by {
        if k < a.len() {
            assert(c[k] == a[k]);
        } else {
            assert(c[k] == b[k - a.len()]);
        }
    }
    assert forall|k1: int, k2: int| 0 <= k1 < k2 < c.len() implies (#[trigger] c[k1]).0 != (
    #[trigger] c[k2]).0 && c[k1].1.schedule.due_at <= c[k2].1.schedule.due_at by {
        if k2 < a.len() {
            assert(c[k1] == a[k1] && c[k2] == a[k2]);
        } else if k1 < a.len() {
            assert(c[k1] == a[k1] && c[k2] == b[k2 - a.len()]);
        } else {
            assert(c[k1] == b[k1 - a.len()] && c[k2] == b[k2 - a.len()]);
        }
    }
    assert forall|id: Identity| #[trigger]
        m.contains_key(id) && low <= m[id].schedule.due_at <= t implies exists|k: int|
        0 <= k < c.len() && (#[trigger] c[k]).0 == id by {
        if m[id].schedule.due_at <= t - 1 {
            let k = choose|k: int| 0 <= k < a.len() && (#[trigger] a[k]).0 == id;
            assert(c[k] == a[k]);
        } else {
            let k = choose|k: int| 0 <= k < b.len() && (#[trigger] b[k]).0 == id;
            assert(c[k + a.len()] == b[k]);
        }
    }
}

impl TaskCache {
    /// The snapshot cached for each identity.
    pub closed spec fn by_identity(&self) -> Map<Identity, TaskSnapshotView> {
        entries_map(self.data@)
    }

    /// The identities filed under each due time.
    pub closed spec fn by_time(&self) -> Map<i64, Set<Identity>> {
        Map::new(|t: i64| self.index@.contains_key(t), |t: i64| self.index@[t]@.to_set())
    }

    /// The invariant that couples the two halves of the cache.
    pub closed spec fn wf(&self) -> bool {
        &&& distinct(self.data@)
        &&& indexed(self.data@, self.index@)
        &&& backed(self.data@, self.index@)
        &&& tidy(self.index@)
    }

    /// In a well-formed cache the two halves agree: the time index is the
    /// one that the by-identity map calls for, with no entry missing and none
    /// left over.
    pub proof fn lemma_consistent(&self)
        requires
            self.wf(),
        ensures
            consistent(self.by_identity(), self.by_time()),
            self.by_time() == time_index(self.by_identity()),
    {
        let d = self.data@;
        let idx = self.index@;
        let m = self.by_identity();
        let bt = self.by_time();
        assert forall|id: Identity| #[trigger] m.contains_key(id) implies bt.contains_key(
            m[id].schedule.due_at,
        ) && bt[m[id].schedule.due_at].contains(id) by {
            let i = lemma_held(d, id);
        }
        assert forall|t: i64, id: Identity| bt.contains_key(t) && #[trigger] bt[t].contains(
            id,
        ) implies m.contains_key(id) && m[id].schedule.due_at == t by {
            assert(idx[t]@.contains(id));
            assert(has_at(d, id, t));
            let i = choose|i: int|
                0 <= i < d.len() && (#[trigger] d[i]).identity == id
                    && d[i].snapshot.schedule.due_at == t;
            lemma_slot(d, i);
        }
        assert forall|t: i64| #[trigger] bt.contains_key(t) implies exists|id: Identity| #[trigger]
            bt[t].contains(id) by {
            assert(idx[t]@.len() > 0);
            assert(idx[t]@.contains(idx[t]@[0]));
            assert(bt[t].contains(idx[t]@[0]));
        }
        let ti = time_index(m);
        assert forall|t: i64| bt.contains_key(t) <==> ti.contains_key(t) by {
            if bt.contains_key(t) {
                let id = choose|id: Identity| #[trigger] bt[t].contains(id);
                assert(m.contains_key(id) && m[id].schedule.due_at == t);
            }
            if ti.contains_key(t) {
                let id = choose|id: Identity| #[trigger]
                    m.contains_key(id) && m[id].schedule.due_at == t;
                assert(bt.contains_key(m[id].schedule.due_at));
            }
        }
        assert forall|t: i64| bt.contains_key(t) implies #[trigger] bt[t] =~= ti[t] by {
            assert forall|id: Identity| bt[t].contains(id) <==> ti[t].contains(id) by {
                if ti[t].contains(id) {
                    assert(m.contains_key(id));
                    assert(bt[m[id].schedule.due_at].contains(id));
                }
            }
        }
        assert(bt =~= ti);
    }

    /// An empty cache.
    pub fn new() -> (r: TaskCache)
        ensures
            r.wf(),
            r.by_identity() == Map::<Identity, TaskSnapshotView>::empty(),
            r.by_time() == Map::<i64, Set<Identity>>::empty(),
    {
        let r = TaskCache { data: Vec::new(), index: HashMap::new() };
        assert(r.by_identity() =~= Map::<Identity, TaskSnapshotView>::empty());
        assert(r.by_time() =~= Map::<i64, Set<Identity>>::empty());
        r
    }

    /// The position of the entry keyed by `identity`, if there is one.
    fn find(&self, identity: &Identity) -> (r: Option<usize>)
        ensures
            match r {
                Some(p) => p < self.data.len() && self.data[p as int].identity == *identity,
                None => !holds(self.data@, *identity),
            },
    {
        let mut i: usize = 0;
        while i < self.data.len()
            invariant
                i <= self.data.len(),
                forall|k: int| 0 <= k < i ==> self.data[k].identity != *identity,
            decreases self.data.len() - i,
        {
            if self.data[i].identity == *identity {
                return Some(i);
            }
            i += 1;
        }
        None
    }

    /// Whether a snapshot is cached for `identity`.
    pub fn contains(&self, identity: &Identity) -> (r: bool)
        requires
            self.wf(),
        ensures
            r == self.by_identity().contains_key(*identity),
    {
        match self.find(identity) {
            Some(p) => {
                proof {
                    lemma_slot(self.data@, p as int);
                }
                true
            },
            None => false,
        }
    }

    /// A copy of the snapshot cached for `identity`, if there is one.
    pub fn get(&self, identity: &Identity) -> (r: Option<TaskSnapshot>)
        requires
            self.wf(),
        ensures
            r is Some <==> self.by_identity().contains_key(*identity),
            r is Some ==> r->Some_0@ == self.by_identity()[*identity],
    {
        match self.find(identity) {
            Some(p) => {
                proof {
                    lemma_slot(self.data@, p as int);
                }
                Some(self.data[p].snapshot.duplicate())
            },
            None => None,
        }
    }

    /// Whether the cache holds no task at all.
    pub fn is_empty(&self) -> (r: bool)
        requires
            self.wf(),
        ensures
            r == (self.by_identity() == Map::<Identity, TaskSnapshotView>::empty()),
    {
        proof {
            if self.data.len() == 0 {
                assert(self.by_identity() =~= Map::<Identity, TaskSnapshotView>::empty());
            } else {
                lemma_slot(self.data@, 0);
            }
        }
        self.data.len() == 0
    }

    /// Removes the task from both halves of the cache, if it is there.
    pub fn delete(&mut self, identity: Identity)
        requires
            old(self).wf(),
        ensures
            final(self).wf(),
            final(self).by_identity() == old(self).by_identity().remove(identity),
            final(self).by_time() == time_index(final(self).by_identity()),
    {
        self.unlink(identity);
        proof {
            self.lemma_consistent();
        }
    }

    /// Takes the task out of the entries and out of its bucket.
    fn unlink(&mut self, identity: Identity)
        requires
            old(self).wf(),
        ensures
            final(self).wf(),
            final(self).by_identity() == old(self).by_identity().remove(identity),
    {
        match self.find(&identity) {
            None => {
                assert(self.by_identity() =~= self.by_identity().remove(identity));
            },
            Some(p) => {
                let due = self.data[p].snapshot.schedule.due_at;
                let ghost d = self.data@;
                let ghost idx = self.index@;
                proof {
                    lemma_map_remove(d, p as int);
                    assert(idx.contains_key(d[p as int].snapshot.schedule.due_at));
                }
                let _ = self.data.remove(p);
                bucket_remove(&mut self.index, due, identity);
                proof {
                    let e = self.data@;
                    let idx2 = self.index@;
                    assert(e == d.remove(p as int));
                    assert forall|i: int| 0 <= i < e.len() implies idx2.contains_key(
                        (#[trigger] e[i]).snapshot.schedule.due_at,
                    ) && idx2[e[i].snapshot.schedule.due_at]@.contains(e[i].identity) by {
                        let a = if i < p { i } else { i + 1 };
                        assert(e[i] == d[a]);
                        let t = d[a].snapshot.schedule.due_at;
                        assert(idx.contains_key(t) && idx[t]@.contains(d[a].identity));
                        if a < p {
                            assert(d[a].identity != d[p as int].identity);
                        } else {
                            assert(d[p as int].identity != d[a].identity);
                        }
                        if t != due {
                            assert(idx2.contains_key(t));
                            assert(idx2[t] == idx[t]);
                        }
                    }
                    assert forall|t: i64, id: Identity|
                        idx2.contains_key(t) && #[trigger] idx2[t]@.contains(id) implies has_at(
                        e,
                        id,
                        t,
                    ) by {
                        if t != due {
                            assert(idx.contains_key(t));
                            assert(idx2[t] == idx[t]);
                        }
                        assert(idx[t]@.contains(id));
                        assert(has_at(d, id, t));
                        let a = choose|a: int|
                            0 <= a < d.len() && (#[trigger] d[a]).identity == id
                                && d[a].snapshot.schedule.due_at == t;
                        assert(a != p);
                        let i = if a < p { a } else { a - 1 };
                        assert(e[i] == d[a]);
                    }
                }
            },
        }
    }

    /// Inserts the snapshot under `identity`, or replaces the one that is
    /// there. A task whose due time changed moves to the bucket of the new
    /// due time.
    pub fn insert(&mut self, identity: Identity, snapshot: TaskSnapshot)
        requires
            old(self).wf(),
        ensures
            final(self).wf(),
            final(self).by_identity() == old(self).by_identity().insert(identity, snapshot@),
            final(self).by_time() == time_index(final(self).by_identity()),
    {
        self.link(identity, snapshot);
        proof {
            self.lemma_consistent();
        }
    }

    /// Takes out what is cached for the task, then appends the new entry and
    /// files it under its due time.
    fn link(&mut self, identity: Identity, snapshot: TaskSnapshot)
        requires
            old(self).wf(),
        ensures
            final(self).wf(),
            final(self).by_identity() == old(self).by_identity().insert(identity, snapshot@),
    {
        self.unlink(identity);
        let due = snapshot.schedule.due_at;
        let entry = CacheEntry { identity, snapshot };
        let ghost d = self.data@;
        let ghost idx = self.index@;
        proof {
            lemma_map_push(d, entry);
            if idx.contains_key(due) && idx[due]@.contains(identity) {
                assert(has_at(d, identity, due));
                let a = choose|a: int|
                    0 <= a < d.len() && (#[trigger] d[a]).identity == identity
                        && d[a].snapshot.schedule.due_at == due;
                lemma_slot(d, a);
            }
            assert(old(self).by_identity().remove(identity).insert(identity, entry.snapshot@)
                =~= old(self).by_identity().insert(identity, entry.snapshot@));
        }
        self.data.push(entry);
        bucket_add(&mut self.index, due, identity);
        proof {
            let e = self.data@;
            let idx2 = self.index@;
            assert forall|i: int| 0 <= i < e.len() implies idx2.contains_key(
                (#[trigger] e[i]).snapshot.schedule.due_at,
            ) && idx2[e[i].snapshot.schedule.due_at]@.contains(e[i].identity) by {
                if i < d.len() {
                    assert(e[i] == d[i]);
                    let t = d[i].snapshot.schedule.due_at;
                    assert(idx.contains_key(t) && idx[t]@.contains(d[i].identity));
                    if t != due {
                        assert(idx2.contains_key(t));
                        assert(idx2[t] == idx[t]);
                    }
                }
            }
            assert forall|t: i64, id: Identity|
                idx2.contains_key(t) && #[trigger] idx2[t]@.contains(id) implies has_at(
                e,
                id,
                t,
            ) by {
                if t == due && id == identity {
                    assert(e[d.len() as int].identity == id);
                } else {
                    if t != due {
                        assert(idx.contains_key(t));
                        assert(idx2[t] == idx[t]);
                    }
                    assert(idx.contains_key(t) && idx[t]@.contains(id));
                    assert(has_at(d, id, t));
                    let a = choose|a: int|
                        0 <= a < d.len() && (#[trigger] d[a]).identity == id
                            && d[a].snapshot.schedule.due_at == t;
                    assert(e[a] == d[a]);
                }
            }
        }
    }

    /// The cached tasks due exactly at `t`, each with a copy of its snapshot.
    pub fn due_at(&self, t: i64) -> (r: Vec<(Identity, TaskSnapshot)>)
        requires
            self.wf(),
        ensures
            listed(self.by_identity(), r@, t as int, t as int),
    {
        let mut out: Vec<(Identity, TaskSnapshot)> = Vec::new();
        let ghost m = self.by_identity();
        let ghost d = self.data@;
        match self.index.get(&t) {
            None => {
                proof {
                    assert forall|id: Identity| #[trigger]
                        m.contains_key(id) implies m[id].schedule.due_at != t by {
                        let i = lemma_held(d, id);
                    }
                }
            },
            Some(bucket) => {
                let mut j: usize = 0;
                while j < bucket.len()
                    invariant
                        j <= bucket.len(),
                        self.wf(),
                        m == self.by_identity(),
                        d == self.data@,
                        self.index@.contains_key(t),
                        bucket@ == self.index@[t]@,
                        out.len() == j,
                        forall|k: int|
                            0 <= k < j ==> (#[trigger] out[k]).0 == bucket[k] && m.contains_key(
                                out[k].0,
                            ) && m[out[k].0] == out[k].1@ && out[k].1.schedule.due_at == t,
                    decreases bucket.len() - j,
                {
                    let id = bucket[j];
                    proof {
                        assert(self.index@[t]@.contains(id));
                        assert(has_at(d, id, t));
                    }
                    match self.find(&id) {
                        Some(p) => {
                            let snap = self.data[p].snapshot.duplicate();
                            proof {
                                let a = choose|a: int|
                                    0 <= a < d.len() && (#[trigger] d[a]).identity == id
                                        && d[a].snapshot.schedule.due_at == t;
                                lemma_slot(d, a);
                                lemma_slot(d, p as int);
                            }
                            out.push((id, snap));
                        },
                        None => {
                            proof {
                                let a = choose|a: int|
                                    0 <= a < d.len() && (#[trigger] d[a]).identity == id
                                        && d[a].snapshot.schedule.due_at == t;
                                assert(holds(d, id));
                                assert(false);
                            }
                        },
                    }
                    j += 1;
                }
                proof {
                    let r = out@;
                    assert forall|k1: int, k2: int| 0 <= k1 < k2 < r.len() implies (
                    #[trigger] r[k1]).0 != (#[trigger] r[k2]).0 by {
                        assert(bucket@[k1] != bucket@[k2]);
                    }
                    assert forall|id: Identity| #[trigger]
                        m.contains_key(id) && m[id].schedule.due_at == t implies exists|k: int|
                        0 <= k < r.len() && (#[trigger] r[k]).0 == id by {
                        let i = lemma_held(d, id);
                        assert(bucket@.contains(d[i].identity));
                        let k = choose|k: int| 0 <= k < bucket@.len() && bucket@[k] == id;
                        assert(r[k].0 == id);
                    }
                }
            },
        }
        out
    }

    /// The cached tasks due from `low` to `high`, both included, by rising due
    /// time, each with a copy of its snapshot as it is cached now. The index
    /// is asked once for every time in the range, so the work grows with the
    /// width of the range.
    pub fn due_between(&self, low: i64, high: i64) -> (r: Vec<(Identity, TaskSnapshot)>)
        requires
            self.wf(),
        ensures
            listed(self.by_identity(), r@, low as int, high as int),
    {
        let mut out: Vec<(Identity, TaskSnapshot)> = Vec::new();
        if low > high {
            return out;
        }
        let ghost m = self.by_identity();
        let mut t: i64 = low;
        while t < high
            invariant
                low <= t <= high,
                self.wf(),
                m == self.by_identity(),
                listed(m, out@, low as int, t - 1),
            decreases high - t,
        {
            let mut part = self.due_at(t);
            proof {
                lemma_listed_append(m, out@, part@, low as int, t as int);
            }
            out.append(&mut part);
            t = t + 1;
        }
        let mut part = self.due_at(high);
        proof {
            lemma_listed_append(m, out@, part@, low as int, high as int);
        }
        out.append(&mut part);
        out
    }
}

} // verus!
