use cronos_plugin::{AttemptLockPool, Identity};

fn id(n: u8) -> Identity {
    Identity::new([n; 32])
}

#[test]
fn first_acquire_is_granted_and_second_refused() {
    let mut pool = AttemptLockPool::new();
    assert!(!pool.is_held(&id(1), 5));
    let guard = pool.try_acquire(id(1), 5);
    assert!(guard.is_some());
    assert!(pool.is_held(&id(1), 5));
    assert!(pool.try_acquire(id(1), 5).is_none());
    assert!(pool.try_acquire(id(1), 5).is_none());
    assert!(pool.is_held(&id(1), 5));
}

#[test]
fn guard_names_its_task_instance() {
    let mut pool = AttemptLockPool::new();
    let guard = pool.try_acquire(id(3), -7).unwrap();
    assert_eq!(guard.task(), id(3));
    assert_eq!(guard.instant(), -7);
}

#[test]
fn release_makes_the_key_acquirable_again() {
    let mut pool = AttemptLockPool::new();
    let guard = pool.try_acquire(id(1), 5).unwrap();
    pool.release(guard);
    assert!(!pool.is_held(&id(1), 5));
    let again = pool.try_acquire(id(1), 5);
    assert!(again.is_some());
    assert!(pool.try_acquire(id(1), 5).is_none());
}

#[test]
fn other_keys_are_not_blocked() {
    let mut pool = AttemptLockPool::new();
    let a = pool.try_acquire(id(1), 100);
    let b = pool.try_acquire(id(2), 100);
    let c = pool.try_acquire(id(1), 101);
    assert!(a.is_some() && b.is_some() && c.is_some());
    pool.release(b.unwrap());
    assert!(pool.is_held(&id(1), 100));
    assert!(!pool.is_held(&id(2), 100));
    assert!(pool.is_held(&id(1), 101));
}

#[test]
fn identities_differ_by_any_byte() {
    let mut one = [0u8; 32];
    one[31] = 1;
    assert!(Identity::new(one) != Identity::new([0u8; 32]));
    assert!(Identity::new(one) == Identity::new(one));
    let mut pool = AttemptLockPool::new();
    assert!(pool.try_acquire(Identity::new(one), 0).is_some());
    assert!(pool.try_acquire(Identity::new([0u8; 32]), 0).is_some());
}

#[test]
fn guard_of_another_pool_releases_nothing() {
    let mut first = AttemptLockPool::numbered(1);
    let mut second = AttemptLockPool::numbered(2);
    assert_eq!(first.run_number(), 1);
    let foreign = first.try_acquire(id(1), 5).unwrap();
    let own = second.try_acquire(id(1), 5).unwrap();
    assert_eq!(foreign.run_number(), 1);
    assert_eq!(own.run_number(), 2);
    second.release(foreign);
    assert!(second.is_held(&id(1), 5));
    second.release(own);
    assert!(!second.is_held(&id(1), 5));
    assert_eq!(AttemptLockPool::new().run_number(), 0);
}
