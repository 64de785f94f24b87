use cronos_plugin::{
    execute_pending_tasks, AccountMetaData, Action, Identity, Schedule, TaskCache, TaskSnapshot,
    TaskStatus,
};

fn id(n: u8) -> Identity {
    Identity::new([n; 32])
}

fn task(n: u8, due_at: i64, status: TaskStatus) -> TaskSnapshot {
    TaskSnapshot {
        identity: id(n),
        owner: id(200),
        action: Action {
            program_id: id(201),
            accounts: vec![AccountMetaData { pubkey: id(202), is_signer: true, is_writable: true }],
            data: vec![n, 1, 2, 3],
        },
        schedule: Schedule { due_at, stop_at: due_at + 100, interval: 0 },
        status,
    }
}

fn keys(found: &Vec<(Identity, TaskSnapshot)>) -> Vec<u8> {
    found.iter().map(|(k, _)| k.bytes[0]).collect()
}

#[test]
fn new_cache_is_empty() {
    let cache = TaskCache::new();
    assert!(cache.is_empty());
    assert!(!cache.contains(&id(1)));
    assert!(cache.get(&id(1)).is_none());
    assert!(cache.due_between(i64::MIN, i64::MIN + 3).is_empty());
    assert!(cache.due_at(0).is_empty());
}

#[test]
fn insert_then_get_returns_the_snapshot() {
    let mut cache = TaskCache::new();
    cache.insert(id(1), task(1, 50, TaskStatus::Queued));
    assert!(!cache.is_empty());
    assert!(cache.contains(&id(1)));
    let got = cache.get(&id(1)).unwrap();
    assert_eq!(got.identity, id(1));
    assert_eq!(got.owner, id(200));
    assert_eq!(got.schedule, Schedule { due_at: 50, stop_at: 150, interval: 0 });
    assert_eq!(got.status, TaskStatus::Queued);
    assert_eq!(got.action.program_id, id(201));
    assert_eq!(got.action.data, vec![1, 1, 2, 3]);
    assert_eq!(got.action.accounts.len(), 1);
    assert_eq!(got.action.accounts[0].pubkey, id(202));
}

#[test]
fn every_cached_task_sits_in_exactly_its_own_bucket() {
    let mut cache = TaskCache::new();
    cache.insert(id(1), task(1, 10, TaskStatus::Queued));
    cache.insert(id(2), task(2, 10, TaskStatus::Queued));
    cache.insert(id(3), task(3, 20, TaskStatus::Queued));
    cache.insert(id(1), task(1, 20, TaskStatus::Queued));
    cache.delete(id(2));
    cache.delete(id(9));
    assert!(cache.due_at(10).is_empty());
    let at_twenty = cache.due_at(20);
    let mut found = keys(&at_twenty);
    found.sort();
    assert_eq!(found, vec![1, 3]);
    assert_eq!(cache.due_between(0, 100).len(), 2);
    assert!(cache.contains(&id(1)));
    assert!(!cache.contains(&id(2)));
    assert!(cache.contains(&id(3)));
}

#[test]
fn inserting_twice_is_inserting_once() {
    let mut once = TaskCache::new();
    once.insert(id(7), task(7, 33, TaskStatus::Queued));
    let mut twice = TaskCache::new();
    twice.insert(id(7), task(7, 33, TaskStatus::Queued));
    twice.insert(id(7), task(7, 33, TaskStatus::Queued));
    assert_eq!(keys(&once.due_between(0, 100)), vec![7]);
    assert_eq!(keys(&twice.due_between(0, 100)), vec![7]);
    assert_eq!(keys(&twice.due_at(33)), vec![7]);
    assert_eq!(twice.get(&id(7)).unwrap().schedule.due_at, 33);
}

#[test]
fn a_changed_due_time_moves_the_task_to_the_new_bucket() {
    let mut cache = TaskCache::new();
    cache.insert(id(4), task(4, 10, TaskStatus::Queued));
    cache.insert(id(4), task(4, 15, TaskStatus::Queued));
    assert!(cache.due_at(10).is_empty());
    assert_eq!(keys(&cache.due_at(15)), vec![4]);
    assert_eq!(cache.get(&id(4)).unwrap().schedule.due_at, 15);
}

#[test]
fn delete_removes_from_both_halves() {
    let mut cache = TaskCache::new();
    cache.insert(id(5), task(5, 10, TaskStatus::Queued));
    cache.delete(id(5));
    assert!(cache.is_empty());
    assert!(cache.get(&id(5)).is_none());
    assert!(cache.due_at(10).is_empty());
    cache.delete(id(5));
    assert!(cache.is_empty());
}

#[test]
fn due_between_includes_both_ends_and_orders_by_due_time() {
    let mut cache = TaskCache::new();
    cache.insert(id(3), task(3, 30, TaskStatus::Queued));
    cache.insert(id(1), task(1, 10, TaskStatus::Queued));
    cache.insert(id(2), task(2, 20, TaskStatus::Queued));
    cache.insert(id(4), task(4, 31, TaskStatus::Queued));
    cache.insert(id(0), task(0, 9, TaskStatus::Queued));
    let found = cache.due_between(10, 30);
    assert_eq!(keys(&found), vec![1, 2, 3]);
    assert_eq!(found[0].1.schedule.due_at, 10);
    assert_eq!(found[2].1.schedule.due_at, 30);
    assert_eq!(found[1].1.action.data, vec![2, 1, 2, 3]);
    assert!(cache.due_between(30, 10).is_empty());
    assert_eq!(keys(&cache.due_between(31, 31)), vec![4]);
}

#[test]
fn due_between_hands_out_copies() {
    let mut cache = TaskCache::new();
    cache.insert(id(1), task(1, 10, TaskStatus::Queued));
    let found = cache.due_between(10, 10);
    cache.delete(id(1));
    assert_eq!(keys(&found), vec![1]);
    assert!(cache.due_between(10, 10).is_empty());
}

#[test]
fn due_between_reaches_the_ends_of_time() {
    let mut cache = TaskCache::new();
    cache.insert(id(1), task(1, i64::MAX - 100, TaskStatus::Queued));
    cache.insert(id(2), task(2, i64::MIN, TaskStatus::Queued));
    assert_eq!(keys(&cache.due_between(i64::MAX - 3, i64::MAX)), Vec::<u8>::new());
    assert_eq!(keys(&cache.due_between(i64::MIN, i64::MIN + 2)), vec![2]);
}

#[test]
fn lookback_of_the_whole_span_finds_all_and_of_zero_finds_the_last() {
    let mut cache = TaskCache::new();
    cache.insert(id(1), task(1, 100, TaskStatus::Queued));
    cache.insert(id(2), task(2, 130, TaskStatus::Queued));
    cache.insert(id(3), task(3, 170, TaskStatus::Queued));
    assert_eq!(keys(&execute_pending_tasks(&cache, 170, 70)), vec![1, 2, 3]);
    assert_eq!(keys(&execute_pending_tasks(&cache, 170, 0)), vec![3]);
    assert_eq!(keys(&execute_pending_tasks(&cache, 170, 69)), vec![2, 3]);
}

#[test]
fn scan_with_negative_lookback_finds_nothing() {
    let mut cache = TaskCache::new();
    cache.insert(id(1), task(1, 100, TaskStatus::Queued));
    assert!(execute_pending_tasks(&cache, 100, -1).is_empty());
}

#[test]
fn scan_window_stops_at_the_start_of_time() {
    let mut cache = TaskCache::new();
    cache.insert(id(1), task(1, i64::MIN + 1, TaskStatus::Queued));
    assert_eq!(keys(&execute_pending_tasks(&cache, i64::MIN + 2, 10)), vec![1]);
}

#[test]
fn duplicate_copies_every_field() {
    let original = task(9, 77, TaskStatus::Cancelled);
    let copy = original.duplicate();
    assert_eq!(copy.identity, original.identity);
    assert_eq!(copy.owner, original.owner);
    assert_eq!(copy.schedule, original.schedule);
    assert_eq!(copy.status, TaskStatus::Cancelled);
    assert_eq!(copy.action.program_id, original.action.program_id);
    assert_eq!(copy.action.accounts, original.action.accounts);
    assert_eq!(copy.action.data, vec![9, 1, 2, 3]);
    assert!(!copy.is_queued());
    assert!(task(9, 77, TaskStatus::Queued).is_queued());
    assert!(!task(9, 77, TaskStatus::Done).is_queued());
}
