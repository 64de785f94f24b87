use cronos_plugin::{
    build_request, config_address, fee_address, read_clock, AccountMetaData, Action,
    AttemptOutcome, AttemptRefusal, CronosPlugin, CronosPluginError, Filter, Identity,
    Notification, Schedule, TaskSnapshot, TaskStatus, UpdateKind, LOOKBACK_WINDOW,
};
use solana_program::clock::Clock;
use solana_program::pubkey::Pubkey;

const PROGRAM: u8 = 250;
const CLOCK: u8 = 251;

fn id(n: u8) -> Identity {
    Identity::new([n; 32])
}

fn task(n: u8, due_at: i64, status: TaskStatus) -> TaskSnapshot {
    TaskSnapshot {
        identity: id(n),
        owner: id(200),
        action: Action {
            program_id: id(201),
            accounts: vec![
                AccountMetaData { pubkey: id(202), is_signer: true, is_writable: true },
                AccountMetaData { pubkey: id(203), is_signer: false, is_writable: false },
            ],
            data: vec![n],
        },
        schedule: Schedule { due_at, stop_at: due_at + 100, interval: 0 },
        status,
    }
}

fn clock_payload(unix_timestamp: i64) -> Vec<u8> {
    let clock = Clock {
        slot: 7,
        epoch_start_timestamp: -3,
        epoch: 2,
        leader_schedule_epoch: 3,
        unix_timestamp,
    };
    bincode::serialize(&clock).unwrap()
}

fn clock_update(unix_timestamp: i64) -> Notification {
    Notification {
        owner_id: id(1),
        account_id: id(CLOCK),
        raw_payload: clock_payload(unix_timestamp),
        is_startup_replay: false,
    }
}

fn task_update(n: u8) -> Notification {
    Notification {
        owner_id: id(PROGRAM),
        account_id: id(n),
        raw_payload: vec![1, 2, 3],
        is_startup_replay: false,
    }
}

fn started(lookback: i64) -> CronosPlugin {
    let mut engine = CronosPlugin::new();
    engine.start(Filter::new(id(PROGRAM), id(CLOCK)), lookback);
    engine
}

fn keys(found: &Vec<(Identity, TaskSnapshot)>) -> Vec<u8> {
    found.iter().map(|(k, _)| k.bytes[0]).collect()
}

#[test]
fn read_clock_takes_the_fifth_field() {
    assert_eq!(read_clock(&clock_payload(1_650_000_000)), Some(1_650_000_000));
    assert_eq!(read_clock(&clock_payload(-2)), Some(-2));
    assert_eq!(read_clock(&clock_payload(i64::MIN)), Some(i64::MIN));
    assert_eq!(read_clock(&clock_payload(i64::MAX)), Some(i64::MAX));
}

#[test]
fn read_clock_decodes_little_endian_bytes() {
    let mut payload = vec![0xffu8; 32];
    payload.extend_from_slice(&[0x08, 0x07, 0x06, 0x05, 0x04, 0x03, 0x02, 0x01]);
    assert_eq!(read_clock(&payload), Some(0x0102_0304_0506_0708));
    let mut negative = vec![0u8; 32];
    negative.extend_from_slice(&[0xfe, 0xff, 0xff, 0xff, 0xff, 0xff, 0xff, 0xff]);
    assert_eq!(read_clock(&negative), Some(-2));
}

#[test]
fn read_clock_ignores_trailing_bytes_and_rejects_short_payloads() {
    let mut long = clock_payload(77);
    long.extend_from_slice(&[9, 9, 9]);
    assert_eq!(read_clock(&long), Some(77));
    let full = clock_payload(77);
    assert_eq!(full.len(), 40);
    assert_eq!(read_clock(&full[..39]), None);
    assert_eq!(read_clock(&[]), None);
}

#[test]
fn new_engine_is_stopped() {
    let engine = CronosPlugin::new();
    assert!(!engine.is_running());
    assert_eq!(engine.latest_clock_value(), 0);
    assert_eq!(LOOKBACK_WINDOW, 900);
    assert!(engine.execute_tasks_in_lookback_window().is_empty());
}

#[test]
fn stopped_engine_refuses_updates() {
    let mut engine = CronosPlugin::new();
    assert_eq!(engine.route(&clock_update(5)), UpdateKind::Refused);
    let err = engine.handle_update(&clock_update(5), None).unwrap_err();
    assert!(matches!(err, CronosPluginError::CacheError { .. }));
    assert_eq!(
        err.message(),
        "Error reading and/or writing to local cache. Error message: (There is no available cache to update account data)"
    );
    assert_eq!(engine.latest_clock_value(), 0);
}

#[test]
fn error_messages() {
    assert_eq!(
        CronosPluginError::TaskAccountInfoError.message(),
        "Error deserializing task data"
    );
    assert_eq!(
        CronosPluginError::ClockAccountInfoError.message(),
        "Error deserializing sysvar clock data"
    );
    assert_eq!(
        CronosPluginError::CacheError { msg: String::from("x") }.message(),
        "Error reading and/or writing to local cache. Error message: (x)"
    );
}

#[test]
fn startup_replay_is_ignored_even_when_stopped() {
    let mut engine = CronosPlugin::new();
    let mut update = clock_update(5);
    update.is_startup_replay = true;
    assert_eq!(engine.route(&update), UpdateKind::Ignored);
    assert!(engine.handle_update(&update, None).unwrap().is_empty());
    let mut engine = started(10);
    let mut update = task_update(1);
    update.is_startup_replay = true;
    assert!(engine.handle_update(&update, Some(task(1, 5, TaskStatus::Queued))).unwrap().is_empty());
    assert!(engine.cached(&id(1)).is_none());
}

#[test]
fn irrelevant_update_is_dropped() {
    let mut engine = started(10);
    let update = Notification {
        owner_id: id(9),
        account_id: id(1),
        raw_payload: vec![],
        is_startup_replay: false,
    };
    assert_eq!(engine.route(&update), UpdateKind::Ignored);
    assert!(engine.handle_update(&update, Some(task(1, 5, TaskStatus::Queued))).unwrap().is_empty());
    assert!(engine.cached(&id(1)).is_none());
}

#[test]
fn filter_predicates() {
    let filter = Filter::new(id(PROGRAM), id(CLOCK));
    assert!(filter.wants_program(&id(PROGRAM)));
    assert!(!filter.wants_program(&id(CLOCK)));
    assert!(filter.is_clock(&id(CLOCK)));
    assert!(filter.is_relevant(&task_update(1)));
    assert!(filter.is_relevant(&clock_update(1)));
    let other = Notification {
        owner_id: id(9),
        account_id: id(1),
        raw_payload: vec![],
        is_startup_replay: false,
    };
    assert!(!filter.is_relevant(&other));
}

#[test]
fn malformed_clock_payload_is_an_error_and_changes_nothing() {
    let mut engine = started(10);
    let mut update = clock_update(5);
    update.raw_payload.truncate(39);
    let err = engine.handle_update(&update, None).unwrap_err();
    assert!(matches!(err, CronosPluginError::ClockAccountInfoError));
    assert_eq!(engine.latest_clock_value(), 0);
}

#[test]
fn undecodable_task_payload_is_an_error_and_changes_nothing() {
    let mut engine = started(10);
    assert_eq!(engine.route(&task_update(1)), UpdateKind::Task);
    let err = engine.handle_update(&task_update(1), None).unwrap_err();
    assert!(matches!(err, CronosPluginError::TaskAccountInfoError));
    assert!(engine.cached(&id(1)).is_none());
}

#[test]
fn queued_task_is_cached_and_finished_task_is_dropped() {
    let mut engine = started(10);
    engine.handle_update(&task_update(1), Some(task(1, 5, TaskStatus::Queued))).unwrap();
    assert_eq!(engine.cached(&id(1)).unwrap().schedule.due_at, 5);
    engine.handle_update(&task_update(1), Some(task(1, 9, TaskStatus::Queued))).unwrap();
    assert_eq!(engine.cached(&id(1)).unwrap().schedule.due_at, 9);
    engine.handle_update(&task_update(1), Some(task(1, 9, TaskStatus::Done))).unwrap();
    assert!(engine.cached(&id(1)).is_none());
    engine.handle_update(&task_update(2), Some(task(2, 9, TaskStatus::Queued))).unwrap();
    engine.handle_update(&task_update(2), Some(task(2, 9, TaskStatus::Cancelled))).unwrap();
    assert!(engine.cached(&id(2)).is_none());
}

#[test]
fn clock_only_moves_forward() {
    let mut engine = started(10);
    assert_eq!(engine.route(&clock_update(5)), UpdateKind::Clock);
    engine.handle_update(&clock_update(5), None).unwrap();
    assert_eq!(engine.latest_clock_value(), 5);
    engine.handle_update(&clock_update(3), None).unwrap();
    assert_eq!(engine.latest_clock_value(), 5);
    engine.handle_update(&clock_update(5), None).unwrap();
    assert_eq!(engine.latest_clock_value(), 5);
    engine.handle_update(&clock_update(6), None).unwrap();
    assert_eq!(engine.latest_clock_value(), 6);
}

#[test]
fn task_due_at_five_is_attempted_once_when_the_clock_reaches_five() {
    let mut engine = started(10);
    engine.handle_update(&task_update(1), Some(task(1, 5, TaskStatus::Queued))).unwrap();
    assert!(engine.handle_update(&clock_update(4), None).unwrap().is_empty());
    let attempts = engine.handle_update(&clock_update(5), None).unwrap();
    assert_eq!(keys(&attempts), vec![1]);
    let first = engine.begin_attempt(attempts[0].0, &attempts[0].1);
    assert!(first.is_ok());
    assert!(engine.is_in_flight(&id(1), 5));
    assert!(engine.handle_update(&clock_update(5), None).unwrap().is_empty());
    assert_eq!(
        engine.begin_attempt(attempts[0].0, &attempts[0].1).unwrap_err(),
        AttemptRefusal::LockUnavailable
    );
    let later = engine.handle_update(&clock_update(6), None).unwrap();
    assert_eq!(keys(&later), vec![1]);
    assert_eq!(
        engine.begin_attempt(later[0].0, &later[0].1).unwrap_err(),
        AttemptRefusal::LockUnavailable
    );
    let (guard, _) = first.unwrap();
    engine.finish_attempt(guard, AttemptOutcome::Submitted);
    assert!(!engine.is_in_flight(&id(1), 5));
    assert!(engine.begin_attempt(later[0].0, &later[0].1).is_ok());
}

#[test]
fn two_tasks_due_together_are_both_attempted() {
    let mut engine = started(10);
    engine.handle_update(&task_update(1), Some(task(1, 100, TaskStatus::Queued))).unwrap();
    engine.handle_update(&task_update(2), Some(task(2, 100, TaskStatus::Queued))).unwrap();
    let attempts = engine.handle_update(&clock_update(100), None).unwrap();
    let mut found = keys(&attempts);
    found.sort();
    assert_eq!(found, vec![1, 2]);
    let a = engine.begin_attempt(attempts[0].0, &attempts[0].1);
    let b = engine.begin_attempt(attempts[1].0, &attempts[1].1);
    assert!(a.is_ok() && b.is_ok());
    assert!(engine.is_in_flight(&id(1), 100));
    assert!(engine.is_in_flight(&id(2), 100));
    let (guard_b, _) = b.unwrap();
    engine.finish_attempt(guard_b, AttemptOutcome::Submitted);
    assert!(engine.is_in_flight(&attempts[0].0, 100));
    assert!(!engine.is_in_flight(&attempts[1].0, 100));
}

#[test]
fn scan_looks_back_over_the_whole_window() {
    let mut engine = started(70);
    engine.handle_update(&task_update(1), Some(task(1, 100, TaskStatus::Queued))).unwrap();
    engine.handle_update(&task_update(2), Some(task(2, 130, TaskStatus::Queued))).unwrap();
    engine.handle_update(&task_update(3), Some(task(3, 170, TaskStatus::Queued))).unwrap();
    engine.handle_update(&task_update(4), Some(task(4, 171, TaskStatus::Queued))).unwrap();
    let attempts = engine.handle_update(&clock_update(170), None).unwrap();
    assert_eq!(keys(&attempts), vec![1, 2, 3]);
    assert_eq!(keys(&engine.execute_tasks_in_lookback_window()), vec![1, 2, 3]);
    let mut narrow = started(0);
    narrow.handle_update(&task_update(1), Some(task(1, 100, TaskStatus::Queued))).unwrap();
    narrow.handle_update(&task_update(2), Some(task(2, 130, TaskStatus::Queued))).unwrap();
    narrow.handle_update(&task_update(3), Some(task(3, 170, TaskStatus::Queued))).unwrap();
    assert_eq!(keys(&narrow.handle_update(&clock_update(170), None).unwrap()), vec![3]);
}

#[test]
fn failed_submission_with_queued_refetch_is_retried_on_the_next_scan() {
    let mut engine = started(10);
    engine.handle_update(&task_update(1), Some(task(1, 5, TaskStatus::Queued))).unwrap();
    let attempts = engine.handle_update(&clock_update(5), None).unwrap();
    let (guard, _) = engine.begin_attempt(attempts[0].0, &attempts[0].1).unwrap();
    engine.finish_attempt(
        guard,
        AttemptOutcome::Failed { refetched: Some(task(1, 5, TaskStatus::Queued)) },
    );
    assert!(engine.cached(&id(1)).is_some());
    assert!(!engine.is_in_flight(&id(1), 5));
    let again = engine.handle_update(&clock_update(6), None).unwrap();
    assert_eq!(keys(&again), vec![1]);
    assert!(engine.begin_attempt(again[0].0, &again[0].1).is_ok());
}

#[test]
fn failed_submission_with_done_refetch_drops_the_task() {
    let mut engine = started(10);
    engine.handle_update(&task_update(1), Some(task(1, 5, TaskStatus::Queued))).unwrap();
    let attempts = engine.handle_update(&clock_update(5), None).unwrap();
    let (guard, _) = engine.begin_attempt(attempts[0].0, &attempts[0].1).unwrap();
    engine.finish_attempt(
        guard,
        AttemptOutcome::Failed { refetched: Some(task(1, 5, TaskStatus::Done)) },
    );
    assert!(engine.cached(&id(1)).is_none());
    assert!(!engine.is_in_flight(&id(1), 5));
    assert!(engine.handle_update(&clock_update(6), None).unwrap().is_empty());
}

#[test]
fn failed_submission_with_failed_refetch_leaves_the_cache_as_it_was() {
    let mut engine = started(10);
    engine.handle_update(&task_update(1), Some(task(1, 5, TaskStatus::Queued))).unwrap();
    let attempts = engine.handle_update(&clock_update(5), None).unwrap();
    let (guard, _) = engine.begin_attempt(attempts[0].0, &attempts[0].1).unwrap();
    engine.finish_attempt(guard, AttemptOutcome::Failed { refetched: None });
    assert_eq!(engine.cached(&id(1)).unwrap().schedule.due_at, 5);
    assert!(!engine.is_in_flight(&id(1), 5));
}

#[test]
fn refetch_with_a_new_due_time_moves_the_task() {
    let mut engine = started(10);
    engine.handle_update(&task_update(1), Some(task(1, 5, TaskStatus::Queued))).unwrap();
    let attempts = engine.handle_update(&clock_update(5), None).unwrap();
    let (guard, _) = engine.begin_attempt(attempts[0].0, &attempts[0].1).unwrap();
    engine.finish_attempt(
        guard,
        AttemptOutcome::Failed { refetched: Some(task(1, 50, TaskStatus::Queued)) },
    );
    assert!(engine.handle_update(&clock_update(20), None).unwrap().is_empty());
    assert_eq!(keys(&engine.handle_update(&clock_update(50), None).unwrap()), vec![1]);
}

#[test]
fn successful_submission_leaves_the_cache_alone() {
    let mut engine = started(10);
    engine.handle_update(&task_update(1), Some(task(1, 5, TaskStatus::Queued))).unwrap();
    let attempts = engine.handle_update(&clock_update(5), None).unwrap();
    let (guard, _) = engine.begin_attempt(attempts[0].0, &attempts[0].1).unwrap();
    engine.finish_attempt(guard, AttemptOutcome::Submitted);
    assert_eq!(engine.cached(&id(1)).unwrap().schedule.due_at, 5);
}

#[test]
fn request_lists_the_action_accounts_then_the_program() {
    let snapshot = task(1, 5, TaskStatus::Queued);
    let request = build_request(id(1), &snapshot, id(7), id(8));
    assert_eq!(request.task, id(1));
    assert_eq!(request.owner, id(200));
    assert_eq!(request.due_at, 5);
    assert_eq!(request.config, id(7));
    assert_eq!(request.fee, id(8));
    assert_eq!(
        request.accounts,
        vec![
            AccountMetaData { pubkey: id(202), is_signer: false, is_writable: true },
            AccountMetaData { pubkey: id(203), is_signer: false, is_writable: false },
            AccountMetaData { pubkey: id(201), is_signer: false, is_writable: false },
        ]
    );
}

#[test]
fn begin_attempt_builds_the_request() {
    let mut engine = started(10);
    engine.handle_update(&clock_update(5), None).unwrap();
    let snapshot = task(1, 5, TaskStatus::Queued);
    let (guard, request) = engine.begin_attempt(id(1), &snapshot).unwrap();
    assert_eq!(guard.task(), id(1));
    assert_eq!(guard.instant(), 5);
    assert_eq!(request.task, id(1));
    assert_eq!(request.owner, id(200));
    assert_eq!(request.due_at, 5);
    assert_eq!(request.accounts.len(), 3);
    assert_eq!(Some(request.config), config_address(&id(PROGRAM)));
    assert_eq!(Some(request.fee), fee_address(&id(PROGRAM), &id(200)));
    assert!(request.config != request.fee);
}

#[test]
fn config_address_is_the_ledgers_derived_address() {
    let program = Pubkey::new_from_array([PROGRAM; 32]);
    let (expected, _) = Pubkey::find_program_address(&[b"config"], &program);
    let found = config_address(&id(PROGRAM)).unwrap();
    assert_eq!(found.bytes, expected.to_bytes());
    assert!(found != id(PROGRAM));
    let other = config_address(&id(3)).unwrap();
    assert!(other != found);
}

#[test]
fn fee_address_is_the_ledgers_derived_address() {
    let program = Pubkey::new_from_array([PROGRAM; 32]);
    let owner = [200u8; 32];
    let (expected, _) = Pubkey::find_program_address(&[b"fee", &owner], &program);
    let found = fee_address(&id(PROGRAM), &id(200)).unwrap();
    assert_eq!(found.bytes, expected.to_bytes());
    assert!(found != id(200));
    assert!(found != id(PROGRAM));
    assert!(fee_address(&id(PROGRAM), &id(201)).unwrap() != found);
}

#[test]
fn filter_for_program_listens_to_the_ledgers_clock() {
    let filter = Filter::for_program(id(PROGRAM));
    assert_eq!(filter.watched_program, id(PROGRAM));
    assert_eq!(
        filter.clock_account.bytes,
        [
            6, 167, 213, 23, 24, 199, 116, 201, 40, 86, 99, 152, 105, 29, 94, 182, 139, 94, 184,
            163, 155, 75, 109, 92, 115, 85, 91, 33, 0, 0, 0, 0
        ]
    );
    assert_eq!(filter.clock_account.bytes, solana_program::sysvar::clock::id().to_bytes());
    let update = Notification {
        owner_id: id(1),
        account_id: filter.clock_account,
        raw_payload: clock_payload(9),
        is_startup_replay: false,
    };
    let mut engine = CronosPlugin::new();
    engine.start(filter, 10);
    assert_eq!(engine.route(&update), UpdateKind::Clock);
    engine.handle_update(&update, None).unwrap();
    assert_eq!(engine.latest_clock_value(), 9);
}

#[test]
fn stop_drops_all_state_and_start_begins_from_scratch() {
    let mut engine = started(10);
    engine.handle_update(&task_update(1), Some(task(1, 5, TaskStatus::Queued))).unwrap();
    let attempts = engine.handle_update(&clock_update(5), None).unwrap();
    let (guard, _) = engine.begin_attempt(attempts[0].0, &attempts[0].1).unwrap();
    engine.stop();
    assert!(!engine.is_running());
    assert!(engine.cached(&id(1)).is_none());
    assert!(!engine.is_in_flight(&id(1), 5));
    assert_eq!(
        engine.begin_attempt(attempts[0].0, &attempts[0].1).unwrap_err(),
        AttemptRefusal::EngineStopped
    );
    engine.finish_attempt(
        guard,
        AttemptOutcome::Failed { refetched: Some(task(1, 5, TaskStatus::Queued)) },
    );
    assert!(engine.cached(&id(1)).is_none());
    engine.start(Filter::new(id(PROGRAM), id(CLOCK)), 10);
    assert!(engine.is_running());
    assert_eq!(engine.latest_clock_value(), 0);
    assert!(engine.cached(&id(1)).is_none());
}

#[test]
fn attempt_left_over_from_an_earlier_run_leaves_no_trace() {
    let mut engine = started(10);
    engine.handle_update(&task_update(1), Some(task(1, 5, TaskStatus::Queued))).unwrap();
    let attempts = engine.handle_update(&clock_update(5), None).unwrap();
    let (stale, _) = engine.begin_attempt(attempts[0].0, &attempts[0].1).unwrap();
    engine.stop();
    engine.start(Filter::new(id(PROGRAM), id(CLOCK)), 10);
    engine.handle_update(&task_update(1), Some(task(1, 5, TaskStatus::Queued))).unwrap();
    let attempts = engine.handle_update(&clock_update(5), None).unwrap();
    let (fresh, _) = engine.begin_attempt(attempts[0].0, &attempts[0].1).unwrap();
    assert!(stale.run_number() != fresh.run_number());
    engine.finish_attempt(
        stale,
        AttemptOutcome::Failed { refetched: Some(task(1, 5, TaskStatus::Done)) },
    );
    assert!(engine.cached(&id(1)).is_some());
    assert!(engine.is_in_flight(&id(1), 5));
    engine.finish_attempt(fresh, AttemptOutcome::Submitted);
    assert!(!engine.is_in_flight(&id(1), 5));
}
