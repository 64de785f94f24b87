//! The attempt lock pool: one lock per task instance, that is per pair of a
//! task's identity and a due time, so that at most one execution attempt is
//! in flight for it at any moment.

use vstd::prelude::*;
use crate::task::Identity;

verus! {

/// The key of a lock: the task and the due time of the instance.
pub type LockKey = (Identity, i64);

/// One lock of the pool. Locks come into being when first asked for and stay.
struct LockSlot {
    identity: Identity,
    due_at: i64,
    held: bool,
}

/// The pool of locks. A pool carries a number, which its guards carry too, so
/// that a guard left over from another pool cannot release a lock of this one.
pub struct AttemptLockPool {
    run: u64,
    slots: Vec<LockSlot>,
}

/// The proof that an attempt holds the lock of its task instance. It is made
/// by `try_acquire` only and is used up by `release`.
#[derive(Debug)]
pub struct AttemptGuard {
    run: u64,
    identity: Identity,
    due_at: i64,
}

/// One operation on the pool, as the set of held keys sees it.
pub enum PoolOp {
    TryAcquire(Identity, i64),
    Release(Identity, i64),
}

/// Whether a `try_acquire` for the key is granted when `held` are held.
pub open spec fn grants(held: Set<LockKey>, identity: Identity, due_at: i64) -> bool {
    !held.contains((identity, due_at))
}

/// The held keys after one operation. An acquire that is refused changes
/// nothing, because the key is held already.
pub open spec fn step(held: Set<LockKey>, op: PoolOp) -> Set<LockKey> {
    match op {
        PoolOp::TryAcquire(identity, due_at) => held.insert((identity, due_at)),
        PoolOp::Release(identity, due_at) => held.remove((identity, due_at)),
    }
}

/// The held keys after a sequence of operations.
pub open spec fn run(held: Set<LockKey>, ops: Seq<PoolOp>) -> Set<LockKey>
    decreases ops.len(),
{
    if ops.len() == 0 {
        held
    } else {
        step(run(held, ops.drop_last()), ops.last())
    }
}

/// While a key is held and nobody releases it, it stays held whatever else
/// happens to the pool, so every further `try_acquire` for it is refused: of
/// any number of attempts on one task instance exactly the first is granted.
pub proof fn lemma_at_most_one_in_flight(held: Set<LockKey>, key: LockKey, ops: Seq<PoolOp>)
    requires
        held.contains(key),
        forall|i: int| 0 <= i < ops.len() ==> #[trigger] ops[i] != PoolOp::Release(key.0, key.1),
    ensures
        run(held, ops).contains(key),
        !grants(run(held, ops), key.0, key.1),
    decreases ops.len(),
{
    if ops.len() > 0 {
        let init = ops.drop_last();
        assert forall|i: int| 0 <= i < init.len() implies #[trigger] init[i] != PoolOp::Release(
            key.0,
            key.1,
        ) by {
            assert(init[i] == ops[i]);
        }
        lemma_at_most_one_in_flight(held, key, init);
        assert(ops.last() == ops[ops.len() - 1]);
    }
}

/// A granted acquire makes the key held, and releasing the guard makes the
/// key grantable again at once.
pub proof fn lemma_release_frees(held: Set<LockKey>, key: LockKey)
    ensures
        !grants(step(held, PoolOp::TryAcquire(key.0, key.1)), key.0, key.1),
        grants(step(held, PoolOp::Release(key.0, key.1)), key.0, key.1),
{
}

/// Operations on one key leave every other key as it was.
pub proof fn lemma_keys_independent(held: Set<LockKey>, key: LockKey, other: LockKey)
    requires
        key != other,
    ensures
        grants(step(held, PoolOp::TryAcquire(other.0, other.1)), key.0, key.1) == grants(
            held,
            key.0,
            key.1,
        ),
        grants(step(held, PoolOp::Release(other.0, other.1)), key.0, key.1) == grants(
            held,
            key.0,
            key.1,
        ),
{
}

impl AttemptGuard {
    /// The task instance whose lock this guard holds.
    pub open spec fn key(&self) -> LockKey {
        (self.identity(), self.due_at())
    }

    /// The task that the guarded attempt works on.
    pub closed spec fn identity(&self) -> Identity {
        self.identity
    }

    /// The due time of the guarded task instance.
    pub closed spec fn due_at(&self) -> i64 {
        self.due_at
    }

    /// The number of the pool that made the guard.
    pub closed spec fn run(&self) -> u64 {
        self.run
    }

    /// The number of the pool that made the guard.
    pub fn run_number(&self) -> (r: u64)
        ensures
            r == self.run(),
    {
        self.run
    }

    /// The task that the guarded attempt works on.
    pub fn task(&self) -> (r: Identity)
        ensures
            r == self.identity(),
    {
        self.identity
    }

    /// The due time of the guarded task instance.
    pub fn instant(&self) -> (r: i64)
        ensures
            r == self.due_at(),
    {
        self.due_at
    }
}

/// The key that a lock belongs to.
spec fn slot_key(s: LockSlot) -> LockKey {
    (s.identity, s.due_at)
}

impl AttemptLockPool {
    /// The keys whose lock is held now.
    pub closed spec fn held(&self) -> Set<LockKey> {
        Set::new(
            |k: LockKey|
                exists|i: int|
                    0 <= i < self.slots.len() && slot_key(#[trigger] self.slots[i]) == k
                        && self.slots[i].held,
        )
    }

    /// The number of the pool.
    pub closed spec fn run(&self) -> u64 {
        self.run
    }

    /// The keys for which a lock exists, held or not.
    pub closed spec fn known(&self) -> Set<LockKey> {
        Set::new(
            |k: LockKey|
                exists|i: int| 0 <= i < self.slots.len() && slot_key(#[trigger] self.slots[i]) == k,
        )
    }

    /// No key has two locks.
    pub closed spec fn wf(&self) -> bool {
        forall|i: int, j: int|
            0 <= i < j < self.slots.len() ==> slot_key(#[trigger] self.slots[i]) != slot_key(
                #[trigger] self.slots[j],
            )
    }

    /// Only a key that has a lock can be held.
    pub proof fn lemma_held_known(&self)
        ensures
            self.held().subset_of(self.known()),
    {
    }

    /// A pool without any lock, with the number zero.
    pub fn new() -> (r: AttemptLockPool)
        ensures
            r.wf(),
            r.run() == 0,
            r.held() == Set::<LockKey>::empty(),
            r.known() == Set::<LockKey>::empty(),
    {
        AttemptLockPool::numbered(0)
    }

    /// A pool without any lock, with the given number.
    pub fn numbered(run: u64) -> (r: AttemptLockPool)
        ensures
            r.wf(),
            r.run() == run,
            r.held() == Set::<LockKey>::empty(),
            r.known() == Set::<LockKey>::empty(),
    {
        let r = AttemptLockPool { run, slots: Vec::new() };
        assert(r.held() =~= Set::<LockKey>::empty());
        assert(r.known() =~= Set::<LockKey>::empty());
        r
    }

    /// The number of the pool.
    pub fn run_number(&self) -> (r: u64)
        ensures
            r == self.run(),
    {
        self.run
    }

    /// The position of the lock of the task instance, if it has one.
    fn find(&self, identity: &Identity, due_at: i64) -> (r: Option<usize>)
        ensures
            match r {
                Some(p) => p < self.slots.len() && slot_key(self.slots[p as int]) == (
                    *identity,
                    due_at,
                ),
                None => !self.known().contains((*identity, due_at)),
            },
    {
        let mut i: usize = 0;
        while i < self.slots.len()
            invariant
                i <= self.slots.len(),
                forall|k: int| 0 <= k < i ==> slot_key(#[trigger] self.slots[k]) != (*identity, due_at),
            decreases self.slots.len() - i,
        {
            if self.slots[i].due_at == due_at && self.slots[i].identity == *identity {
                return Some(i);
            }
            i += 1;
        }
        None
    }

    /// Whether the lock of the task instance is held now.
    pub fn is_held(&self, identity: &Identity, due_at: i64) -> (r: bool)
        requires
            self.wf(),
        ensures
            r == self.held().contains((*identity, due_at)),
    {
        match self.find(identity, due_at) {
            Some(p) => {
                proof {
                    if self.held().contains((*identity, due_at)) {
                        let i = choose|i: int|
                            0 <= i < self.slots.len() && slot_key(#[trigger] self.slots[i]) == (
                                *identity,
                                due_at,
                            ) && self.slots[i].held;
                        assert(i == p) by {
                            if i < p {
                                assert(slot_key(self.slots[i]) != slot_key(self.slots[p as int]));
                            }
                            if p < i {
                                assert(slot_key(self.slots[p as int]) != slot_key(self.slots[i]));
                            }
                        }
                    }
                }
                self.slots[p].held
            },
            None => false,
        }
    }

    /// Takes the lock of the task instance if nobody holds it, and returns at
    /// once with `None` if somebody does. The lock is made on first use.
    pub fn try_acquire(&mut self, identity: Identity, due_at: i64) -> (r: Option<AttemptGuard>)
        requires
            old(self).wf(),
        ensures
            final(self).wf(),
            final(self).run() == old(self).run(),
            r is Some <==> grants(old(self).held(), identity, due_at),
            r is Some ==> r->Some_0.key() == (identity, due_at) && r->Some_0.run() == old(
                self,
            ).run(),
            final(self).held() == step(old(self).held(), PoolOp::TryAcquire(identity, due_at)),
            final(self).known() == old(self).known().insert((identity, due_at)),
    {
        let ghost before = self.slots@;
        let ghost key = (identity, due_at);
        match self.find(&identity, due_at) {
            Some(p) => {
                if self.slots[p].held {
                    assert(self.held().contains(key));
                    assert(self.held().insert(key) =~= self.held());
                    assert(self.known().contains(key));
                    assert(self.known().insert(key) =~= self.known());
                    None
                } else {
                    proof {
                        if self.held().contains(key) {
                            let i = choose|i: int|
                                0 <= i < before.len() && slot_key(#[trigger] before[i]) == key
                                    && before[i].held;
                            if i < p {
                                assert(slot_key(before[i]) != slot_key(before[p as int]));
                            }
                            if p < i {
                                assert(slot_key(before[p as int]) != slot_key(before[i]));
                            }
                        }
                    }
                    self.slots[p] = LockSlot { identity, due_at, held: true };
                    proof {
                        let after = self.slots@;
                        assert(after == before.update(p as int, after[p as int]));
                        assert forall|k: LockKey|
                            self.held().contains(k) <==> old(self).held().insert(key).contains(
                                k,
                            ) by {
                            if self.held().contains(k) {
                                let i = choose|i: int|
                                    0 <= i < after.len() && slot_key(#[trigger] after[i]) == k
                                        && after[i].held;
                                if i != p {
                                    assert(slot_key(before[i]) == k && before[i].held);
                                }
                            }
                            if old(self).held().contains(k) {
                                let i = choose|i: int|
                                    0 <= i < before.len() && slot_key(#[trigger] before[i]) == k
                                        && before[i].held;
                                assert(slot_key(after[i]) == k && after[i].held);
                            }
                            if k == key {
                                assert(slot_key(after[p as int]) == k && after[p as int].held);
                            }
                        }
                        assert(self.held() =~= old(self).held().insert(key));
                        assert forall|k: LockKey|
                            self.known().contains(k) <==> old(self).known().insert(key).contains(
                                k,
                            ) by {
                            if self.known().contains(k) {
                                let i = choose|i: int|
                                    0 <= i < after.len() && slot_key(#[trigger] after[i]) == k;
                                assert(slot_key(before[i]) == k);
                            }
                            if old(self).known().contains(k) {
                                let i = choose|i: int|
                                    0 <= i < before.len() && slot_key(#[trigger] before[i]) == k;
                                assert(slot_key(after[i]) == k);
                            }
                            if k == key {
                                assert(slot_key(after[p as int]) == k);
                            }
                        }
                        assert(self.known() =~= old(self).known().insert(key));
                        assert forall|i: int, j: int| 0 <= i < j < after.len() implies slot_key(
                            #[trigger] after[i],
                        ) != slot_key(#[trigger] after[j]) by {
                            assert(slot_key(after[i]) == slot_key(before[i]));
                            assert(slot_key(after[j]) == slot_key(before[j]));
                        }
                    }
                    Some(AttemptGuard { run: self.run, identity, due_at })
                }
            },
            None => {
                proof {
                    if self.held().contains(key) {
                        let i = choose|i: int|
                            0 <= i < before.len() && slot_key(#[trigger] before[i]) == key
                                && before[i].held;
                        assert(self.known().contains(key));
                    }
                }
                self.slots.push(LockSlot { identity, due_at, held: true });
                proof {
                    let after = self.slots@;
                    let n = before.len() as int;
                    assert forall|k: LockKey|
                        self.held().contains(k) <==> old(self).held().insert(key).contains(k) by {
                        if self.held().contains(k) {
                            let i = choose|i: int|
                                0 <= i < after.len() && slot_key(#[trigger] after[i]) == k
                                    && after[i].held;
                            if i < n {
                                assert(slot_key(before[i]) == k && before[i].held);
                            }
                        }
                        if old(self).held().contains(k) {
                            let i = choose|i: int|
                                0 <= i < before.len() && slot_key(#[trigger] before[i]) == k
                                    && before[i].held;
                            assert(slot_key(after[i]) == k && after[i].held);
                        }
                        if k == key {
                            assert(slot_key(after[n]) == k && after[n].held);
                        }
                    }
                    assert(self.held() =~= old(self).held().insert(key));
                    assert forall|k: LockKey|
                        self.known().contains(k) <==> old(self).known().insert(key).contains(
                            k,
                        ) by {
                        if self.known().contains(k) {
                            let i = choose|i: int|
                                0 <= i < after.len() && slot_key(#[trigger] after[i]) == k;
                            if i < n {
                                assert(slot_key(before[i]) == k);
                            }
                        }
                        if old(self).known().contains(k) {
                            let i = choose|i: int|
                                0 <= i < before.len() && slot_key(#[trigger] before[i]) == k;
                            assert(slot_key(after[i]) == k);
                        }
                        if k == key {
                            assert(slot_key(after[n]) == k);
                        }
                    }
                    assert(self.known() =~= old(self).known().insert(key));
                    assert forall|i: int, j: int| 0 <= i < j < after.len() implies slot_key(
                        #[trigger] after[i],
                    ) != slot_key(#[trigger] after[j]) by {
                        assert(after[i] == before[i]);
                        if j < n {
                            assert(after[j] == before[j]);
                        } else {
                            assert(old(self).known().contains(slot_key(before[i])));
                        }
                    }
                }
                Some(AttemptGuard { run: self.run, identity, due_at })
            },
        }
    }

    /// Gives the lock back. The key can be acquired again at once; the lock
    /// itself stays in the pool. A guard that another pool made releases
    /// nothing.
    pub fn release(&mut self, guard: AttemptGuard)
        requires
            old(self).wf(),
        ensures
            final(self).wf(),
            final(self).run() == old(self).run(),
            final(self).held() == if guard.run() == old(self).run() {
                step(old(self).held(), PoolOp::Release(guard.identity(), guard.due_at()))
            } else {
                old(self).held()
            },
            final(self).known() == old(self).known(),
    {
        if guard.run != self.run {
            return;
        }
        let ghost before = self.slots@;
        let ghost key = (guard.identity, guard.due_at);
        match self.find(&guard.identity, guard.due_at) {
            Some(p) => {
                self.slots[p] = LockSlot {
                    identity: guard.identity,
                    due_at: guard.due_at,
                    held: false,
                };
                proof {
                    let after = self.slots@;
                    assert forall|i: int, j: int| 0 <= i < j < after.len() implies slot_key(
                        #[trigger] after[i],
                    ) != slot_key(#[trigger] after[j]) by {
                        assert(slot_key(after[i]) == slot_key(before[i]));
                        assert(slot_key(after[j]) == slot_key(before[j]));
                    }
                    assert forall|k: LockKey|
                        self.held().contains(k) <==> old(self).held().remove(key).contains(k) by {
                        if self.held().contains(k) {
                            let i = choose|i: int|
                                0 <= i < after.len() && slot_key(#[trigger] after[i]) == k
                                    && after[i].held;
                            assert(i != p);
                            assert(slot_key(before[i]) == k && before[i].held);
                            if i < p {
                                assert(slot_key(before[i]) != slot_key(before[p as int]));
                            } else {
                                assert(slot_key(before[p as int]) != slot_key(before[i]));
                            }
                        }
                        if old(self).held().contains(k) && k != key {
                            let i = choose|i: int|
                                0 <= i < before.len() && slot_key(#[trigger] before[i]) == k
                                    && before[i].held;
                            assert(slot_key(after[i]) == k && after[i].held);
                        }
                    }
                    assert(self.held() =~= old(self).held().remove(key));
                    assert forall|k: LockKey|
                        self.known().contains(k) <==> old(self).known().contains(k) by {
                        if self.known().contains(k) {
                            let i = choose|i: int|
                                0 <= i < after.len() && slot_key(#[trigger] after[i]) == k;
                            assert(slot_key(before[i]) == k);
                        }
                        if old(self).known().contains(k) {
                            let i = choose|i: int|
                                0 <= i < before.len() && slot_key(#[trigger] before[i]) == k;
                            assert(slot_key(after[i]) == k);
                        }
                    }
                    assert(self.known() =~= old(self).known());
                }
            },
            None => {
                proof {
                    if self.held().contains(key) {
                        let i = choose|i: int|
                            0 <= i < before.len() && slot_key(#[trigger] before[i]) == key
                                && before[i].held;
                        assert(self.known().contains(key));
                    }
                    assert(self.held() =~= self.held().remove(key));
                }
            },
        }
    }
}

} // verus!
