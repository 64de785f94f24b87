//! Laws that hold across the engine's operations, proved from their
//! contracts.

use vstd::prelude::*;
use crate::attempt::{after_attempt, AttemptOutcomeView};
use crate::cache::{listed, TaskCache};
use crate::task::{Identity, TaskSnapshot, TaskSnapshotView, TaskStatus};

verus! {

/// Whether the listing names the task.
pub open spec fn names(out: Seq<(Identity, TaskSnapshot)>, id: Identity) -> bool {
    exists|k: int| 0 <= k < out.len() && (#[trigger] out[k]).0 == id
}

/// Inserting the same snapshot under the same identity a second time leaves
/// both halves of the cache as the first insert left them.
pub proof fn lemma_insert_idempotent(
    before: TaskCache,
    once: TaskCache,
    twice: TaskCache,
    identity: Identity,
    snapshot: TaskSnapshotView,
)
    requires
        once.wf(),
        twice.wf(),
        once.by_identity() == before.by_identity().insert(identity, snapshot),
        twice.by_identity() == once.by_identity().insert(identity, snapshot),
    ensures
        twice.by_identity() == once.by_identity(),
        twice.by_time() == once.by_time(),
{
    assert(once.by_identity().insert(identity, snapshot) =~= once.by_identity());
    once.lemma_consistent();
    twice.lemma_consistent();
}

/// Deleting a task that was just inserted into a cache that did not hold it
/// gives back the cache as it was.
pub proof fn lemma_delete_undoes_insert(
    before: TaskCache,
    inserted: TaskCache,
    deleted: TaskCache,
    identity: Identity,
    snapshot: TaskSnapshotView,
)
    requires
        before.wf(),
        inserted.wf(),
        deleted.wf(),
        !before.by_identity().contains_key(identity),
        inserted.by_identity() == before.by_identity().insert(identity, snapshot),
        deleted.by_identity() == inserted.by_identity().remove(identity),
    ensures
        deleted.by_identity() == before.by_identity(),
        deleted.by_time() == before.by_time(),
{
    assert(before.by_identity().insert(identity, snapshot).remove(identity)
        =~= before.by_identity());
    before.lemma_consistent();
    deleted.lemma_consistent();
}

/// A scan at time `now` that looks back `lookback` seconds names a task if
/// and only if the task is cached and due within the window, both ends
/// included.
pub proof fn lemma_scan_exact(
    tasks: Map<Identity, TaskSnapshotView>,
    out: Seq<(Identity, TaskSnapshot)>,
    now: i64,
    lookback: i64,
    id: Identity,
)
    requires
        listed(tasks, out, now - lookback, now as int),
    ensures
        names(out, id) <==> tasks.contains_key(id) && now - lookback
            <= tasks[id].schedule.due_at <= now,
{
    if names(out, id) {
        let k = choose|k: int| 0 <= k < out.len() && (#[trigger] out[k]).0 == id;
        assert(tasks.contains_key(out[k].0));
    }
}

/// Of three tasks due at `t1 < t2 < t3`, a scan at `t3` that looks back
/// `t3 - t1` seconds names all three, and a scan at `t3` that does not look
/// back at all names the third only.
pub proof fn lemma_lookback_window(
    tasks: Map<Identity, TaskSnapshotView>,
    first: Identity,
    second: Identity,
    third: Identity,
    t1: i64,
    t2: i64,
    t3: i64,
    wide: Seq<(Identity, TaskSnapshot)>,
    narrow: Seq<(Identity, TaskSnapshot)>,
)
    requires
        t1 < t2 < t3,
        tasks.contains_key(first) && tasks[first].schedule.due_at == t1,
        tasks.contains_key(second) && tasks[second].schedule.due_at == t2,
        tasks.contains_key(third) && tasks[third].schedule.due_at == t3,
        listed(tasks, wide, t3 - (t3 - t1), t3 as int),
        listed(tasks, narrow, t3 - 0, t3 as int),
    ensures
        names(wide, first) && names(wide, second) && names(wide, third),
        !names(narrow, first) && !names(narrow, second) && names(narrow, third),
{
    if names(narrow, first) {
        let k = choose|k: int| 0 <= k < narrow.len() && (#[trigger] narrow[k]).0 == first;
        assert(tasks.contains_key(narrow[k].0));
    }
    if names(narrow, second) {
        let k = choose|k: int| 0 <= k < narrow.len() && (#[trigger] narrow[k]).0 == second;
        assert(tasks.contains_key(narrow[k].0));
    }
}

/// After a failed submission, a refetch that shows the task still queued
/// leaves it in the cache with the refetched snapshot, and every later scan
/// whose window holds its due time names it again. A refetch that shows the
/// task done or cancelled leaves the cache without it. A refetch that fails
/// leaves the cache as it was.
pub proof fn lemma_retry_on_failure(
    tasks: Map<Identity, TaskSnapshotView>,
    identity: Identity,
    refetched: TaskSnapshotView,
    out: Seq<(Identity, TaskSnapshot)>,
    low: int,
    high: int,
)
    ensures
        ({
            let after = after_attempt(
                tasks,
                identity,
                AttemptOutcomeView::Failed { refetched: Some(refetched) },
            );
            &&& refetched.status == TaskStatus::Queued ==> after.contains_key(identity)
                && after[identity] == refetched
            &&& refetched.status == TaskStatus::Queued && listed(after, out, low, high) && low
                <= refetched.schedule.due_at <= high ==> names(out, identity)
            &&& refetched.status != TaskStatus::Queued ==> !after.contains_key(identity)
            &&& forall|other: Identity|
                other != identity ==> after.contains_key(other) == tasks.contains_key(other)
        }),
        after_attempt(tasks, identity, AttemptOutcomeView::Failed { refetched: None }) == tasks,
        after_attempt(tasks, identity, AttemptOutcomeView::Submitted) == tasks,
{
}

} // verus!
