//! The engine itself: it takes state updates, keeps the cache and the clock,
//! and says on every advance of the clock which tasks are to be attempted.

use vstd::prelude::*;
use vstd::string::StringExecFns;
use crate::address::{config_address, config_address_of, fee_address, fee_address_of};
use crate::attempt::{
    after_attempt, build_request, request_accounts, AttemptOutcome, AttemptRefusal,
    ExecutionRequest,
};
use crate::cache::{consistent, listed, time_index, TaskCache};
use crate::clock::{clock_timestamp, read_clock};
use crate::filter::{Filter, Notification};
use crate::lock::{grants, AttemptGuard, AttemptLockPool, LockKey};
use crate::task::{Identity, TaskSnapshot, TaskSnapshotView, TaskStatus};

verus! {

/// Seconds that a scan looks back by default.
pub const LOOKBACK_WINDOW: i64 = 60 * 15;

/// Why an update was not applied.
#[derive(Debug)]
pub enum CronosPluginError {
    /// The engine is stopped and has no cache to apply the update to.
    CacheError { msg: String },
    /// The payload of a task account did not decode.
    TaskAccountInfoError,
    /// The payload of the clock account did not decode.
    ClockAccountInfoError,
}

impl CronosPluginError {
    /// The text of the error.
    pub open spec fn message_text(&self) -> Seq<char> {
        match self {
            CronosPluginError::CacheError { msg } =>
                "Error reading and/or writing to local cache. Error message: ("@ + msg@ + ")"@,
            CronosPluginError::TaskAccountInfoError => "Error deserializing task data"@,
            CronosPluginError::ClockAccountInfoError => "Error deserializing sysvar clock data"@,
        }
    }

    /// The text of the error, for logs.
    pub fn message(&self) -> (r: String)
        ensures
            r@ == self.message_text(),
    {
        match self {
            CronosPluginError::CacheError { msg } => {
                let mut out = String::from_str(
                    "Error reading and/or writing to local cache. Error message: (",
                );
                out.append(msg.as_str());
                out.append(")");
                out
            },
            CronosPluginError::TaskAccountInfoError => String::from_str(
                "Error deserializing task data",
            ),
            CronosPluginError::ClockAccountInfoError => String::from_str(
                "Error deserializing sysvar clock data",
            ),
        }
    }
}

/// What the engine does with an update.
#[derive(Clone, Copy, Debug, PartialEq, Eq, Structural)]
pub enum UpdateKind {
    /// Nothing: a startup replay, or an update that the filter drops.
    Ignored,
    /// Nothing, and it says so: the engine is stopped.
    Refused,
    /// The update is the external clock.
    Clock,
    /// The update is a task account of the watched program.
    Task,
}

/// Whether every task in the map waits for execution.
pub open spec fn all_queued(tasks: Map<Identity, TaskSnapshotView>) -> bool {
    forall|id: Identity| #[trigger]
        tasks.contains_key(id) ==> tasks[id].status == TaskStatus::Queued
}

/// Whether every listed task may be attempted at time `now`: it is queued and
/// its due time has come.
pub open spec fn ready(now: i64, out: Seq<(Identity, TaskSnapshot)>) -> bool {
    forall|k: int|
        0 <= k < out.len() ==> (#[trigger] out[k]).1.status == TaskStatus::Queued
            && out[k].1.schedule.due_at <= now
}

/// The cached tasks after a task update for `identity`: a queued task is
/// inserted or replaced, a finished one is dropped.
pub open spec fn after_task_update(
    tasks: Map<Identity, TaskSnapshotView>,
    identity: Identity,
    task: TaskSnapshotView,
) -> Map<Identity, TaskSnapshotView> {
    if task.status == TaskStatus::Queued {
        tasks.insert(identity, task)
    } else {
        tasks.remove(identity)
    }
}

/// The number of the run that follows run `run`.
pub open spec fn next_run(run: u64) -> u64 {
    if run == u64::MAX {
        0
    } else {
        (run + 1) as u64
    }
}

/// The text of the error that a stopped engine answers with.
pub open spec fn no_cache_text() -> Seq<char> {
    "There is no available cache to update account data"@
}

/// The cached tasks to attempt at time `blocktime`: those due within the
/// last `lookback` seconds, both ends of the window included, by rising due
/// time. A negative `lookback` leaves the window empty.
pub fn execute_pending_tasks(store: &TaskCache, blocktime: i64, lookback: i64) -> (r: Vec<
    (Identity, TaskSnapshot),
>)
    requires
        store.wf(),
    ensures
        listed(store.by_identity(), r@, blocktime - lookback, blocktime as int),
{
    if lookback < 0 {
        return Vec::new();
    }
    let low: i64 = if blocktime >= i64::MIN + lookback {
        blocktime - lookback
    } else {
        i64::MIN
    };
    store.due_between(low, blocktime)
}

/// The engine. It owns all of its state; a host that runs attempts on other
/// threads shares the engine as a whole and calls it for one short step at a
/// time, never across a submission.
pub struct CronosPlugin {
    filter: Option<Filter>,
    cache: Option<TaskCache>,
    bucket: Option<AttemptLockPool>,
    latest_clock_value: i64,
    lookback: i64,
    runs: u64,
}

impl CronosPlugin {
    /// The filter in use, if the engine runs.
    pub closed spec fn filter(&self) -> Option<Filter> {
        self.filter
    }

    /// The cached snapshot of each task. A stopped engine caches nothing.
    pub closed spec fn tasks(&self) -> Map<Identity, TaskSnapshotView> {
        match self.cache {
            Some(c) => c.by_identity(),
            None => Map::empty(),
        }
    }

    /// The identities filed under each due time.
    pub closed spec fn index(&self) -> Map<i64, Set<Identity>> {
        match self.cache {
            Some(c) => c.by_time(),
            None => Map::empty(),
        }
    }

    /// The task instances with an attempt in flight.
    pub closed spec fn in_flight(&self) -> Set<LockKey> {
        match self.bucket {
            Some(p) => p.held(),
            None => Set::empty(),
        }
    }

    /// The latest value of the external clock that the engine has seen.
    pub closed spec fn clock(&self) -> i64 {
        self.latest_clock_value
    }

    /// Seconds that a scan looks back.
    pub closed spec fn lookback(&self) -> i64 {
        self.lookback
    }

    /// The number of the current run, or of the last one if the engine is
    /// stopped. Every start begins a new run.
    pub closed spec fn run(&self) -> u64 {
        self.runs
    }

    /// Whether the engine has been started and not stopped since.
    pub open spec fn running(&self) -> bool {
        self.filter() is Some
    }

    /// The engine's invariant: it has all of its state or none, the cache
    /// and the lock pool are well-formed, and only queued tasks are cached.
    pub closed spec fn wf(&self) -> bool {
        &&& self.cache is Some <==> self.filter is Some
        &&& self.bucket is Some <==> self.filter is Some
        &&& self.cache is Some ==> self.cache->Some_0.wf()
        &&& self.bucket is Some ==> self.bucket->Some_0.wf() && self.bucket->Some_0.run()
            == self.runs
        &&& all_queued(self.tasks())
    }

    /// What the engine does with the update.
    pub open spec fn classify(&self, update: Notification) -> UpdateKind {
        if update.is_startup_replay {
            UpdateKind::Ignored
        } else if !self.running() {
            UpdateKind::Refused
        } else if !self.filter()->Some_0.relevant(update.owner_id, update.account_id) {
            UpdateKind::Ignored
        } else if update.account_id == self.filter()->Some_0.clock_account {
            UpdateKind::Clock
        } else {
            UpdateKind::Task
        }
    }

    /// In every reachable state the time index of the engine is the one
    /// that its cached tasks call for.
    pub proof fn lemma_index_consistent(&self)
        requires
            self.wf(),
        ensures
            consistent(self.tasks(), self.index()),
            self.index() == time_index(self.tasks()),
    {
        match self.cache {
            Some(c) => {
                c.lemma_consistent();
            },
            None => {
                assert(self.index() =~= time_index(self.tasks()));
            },
        }
    }

    /// Only queued tasks are ever cached.
    pub proof fn lemma_cached_are_queued(&self)
        requires
            self.wf(),
        ensures
            all_queued(self.tasks()),
    {
    }

    /// A stopped engine with the default lookback.
    pub fn new() -> (r: CronosPlugin)
        ensures
            r.wf(),
            !r.running(),
            r.clock() == 0,
            r.lookback() == LOOKBACK_WINDOW,
            r.run() == 0,
            r.tasks() == Map::<Identity, TaskSnapshotView>::empty(),
            r.in_flight() == Set::<LockKey>::empty(),
    {
        CronosPlugin {
            filter: None,
            cache: None,
            bucket: None,
            latest_clock_value: 0,
            lookback: LOOKBACK_WINDOW,
            runs: 0,
        }
    }

    /// Starts the engine from scratch: an empty cache, no lock, the clock at
    /// zero. The run gets the next number, so that an attempt left over from
    /// the run before cannot touch this one.
    pub fn start(&mut self, filter: Filter, lookback: i64)
        ensures
            final(self).wf(),
            final(self).running(),
            final(self).filter() == Some(filter),
            final(self).lookback() == lookback,
            final(self).clock() == 0,
            final(self).run() == next_run(old(self).run()),
            final(self).tasks() == Map::<Identity, TaskSnapshotView>::empty(),
            final(self).in_flight() == Set::<LockKey>::empty(),
    {
        let run: u64 = if self.runs == u64::MAX {
            0
        } else {
            self.runs + 1
        };
        self.filter = Some(filter);
        self.cache = Some(TaskCache::new());
        self.bucket = Some(AttemptLockPool::numbered(run));
        self.latest_clock_value = 0;
        self.lookback = lookback;
        self.runs = run;
    }

    /// Stops the engine and drops its state. Nothing is kept for a restart.
    pub fn stop(&mut self)
        ensures
            final(self).wf(),
            !final(self).running(),
            final(self).filter().is_none(),
            final(self).lookback() == old(self).lookback(),
            final(self).clock() == old(self).clock(),
            final(self).run() == old(self).run(),
            final(self).tasks() == Map::<Identity, TaskSnapshotView>::empty(),
            final(self).in_flight() == Set::<LockKey>::empty(),
    {
        self.filter = None;
        self.cache = None;
        self.bucket = None;
    }

    /// Whether the engine runs.
    pub fn is_running(&self) -> (r: bool)
        ensures
            r == self.running(),
    {
        self.filter.is_some()
    }

    /// The latest clock value seen.
    pub fn latest_clock_value(&self) -> (r: i64)
        ensures
            r == self.clock(),
    {
        self.latest_clock_value
    }

    /// A copy of the cached snapshot of the task, if it is cached.
    pub fn cached(&self, identity: &Identity) -> (r: Option<TaskSnapshot>)
        requires
            self.wf(),
        ensures
            r is Some <==> self.tasks().contains_key(*identity),
            r is Some ==> r->Some_0@ == self.tasks()[*identity],
    {
        match &self.cache {
            Some(c) => c.get(identity),
            None => None,
        }
    }

    /// Whether an attempt on the task instance is in flight.
    pub fn is_in_flight(&self, identity: &Identity, due_at: i64) -> (r: bool)
        requires
            self.wf(),
        ensures
            r == self.in_flight().contains((*identity, due_at)),
    {
        match &self.bucket {
            Some(p) => p.is_held(identity, due_at),
            None => false,
        }
    }

    /// What the engine will do with the update. A host decodes the payload
    /// as a task only for `UpdateKind::Task`.
    pub fn route(&self, update: &Notification) -> (r: UpdateKind)
        ensures
            r == self.classify(*update),
    {
        if update.is_startup_replay {
            return UpdateKind::Ignored;
        }
        match &self.filter {
            None => UpdateKind::Refused,
            Some(f) => {
                if !f.is_relevant(update) {
                    UpdateKind::Ignored
                } else if f.is_clock(&update.account_id) {
                    UpdateKind::Clock
                } else {
                    UpdateKind::Task
                }
            },
        }
    }

    /// Takes a reading of the external clock. The engine's clock moves only
    /// forward: a reading that is not later than the clock changes nothing.
    /// The result says whether the clock advanced, which calls for a scan.
    pub fn advance_clock(&mut self, now: i64) -> (advanced: bool)
        requires
            old(self).wf(),
        ensures
            final(self).wf(),
            advanced == (now > old(self).clock()),
            final(self).clock() == if advanced {
                now
            } else {
                old(self).clock()
            },
            final(self).clock() >= old(self).clock(),
            final(self).filter() == old(self).filter(),
            final(self).lookback() == old(self).lookback(),
            final(self).run() == old(self).run(),
            final(self).tasks() == old(self).tasks(),
            final(self).in_flight() == old(self).in_flight(),
    {
        if self.latest_clock_value < now {
            self.latest_clock_value = now;
            true
        } else {
            false
        }
    }

    /// Applies a task snapshot that came with an update or a refetch: a
    /// queued task is cached, any other leaves the cache.
    pub fn replicate_task(&mut self, key: Identity, task: TaskSnapshot)
        requires
            old(self).wf(),
        ensures
            final(self).wf(),
            final(self).filter() == old(self).filter(),
            final(self).lookback() == old(self).lookback(),
            final(self).run() == old(self).run(),
            final(self).clock() == old(self).clock(),
            final(self).in_flight() == old(self).in_flight(),
            final(self).tasks() == if old(self).running() {
                after_task_update(old(self).tasks(), key, task@)
            } else {
                old(self).tasks()
            },
    {
        match &mut self.cache {
            Some(c) => {
                if task.is_queued() {
                    c.insert(key, task);
                } else {
                    c.delete(key);
                }
            },
            None => {},
        }
    }

    /// The scan: every cached task that is due within the lookback window
    /// that ends at the current clock value, by rising due time. Each of them
    /// is queued and due, so each is fit for `begin_attempt`.
    pub fn execute_tasks_in_lookback_window(&self) -> (r: Vec<(Identity, TaskSnapshot)>)
        requires
            self.wf(),
        ensures
            listed(self.tasks(), r@, self.clock() - self.lookback(), self.clock() as int),
            ready(self.clock(), r@),
    {
        match &self.cache {
            Some(c) => execute_pending_tasks(c, self.latest_clock_value, self.lookback),
            None => Vec::new(),
        }
    }

    /// The synchronous entry point for the update feed. `task` is the
    /// update's payload decoded as a task snapshot, or `None` if it does not
    /// decode; it is looked at only where `route` says `UpdateKind::Task`.
    /// The result lists the attempts to spawn, which is empty unless the
    /// update advanced the clock.
    pub fn handle_update(&mut self, update: &Notification, task: Option<TaskSnapshot>) -> (r:
        Result<Vec<(Identity, TaskSnapshot)>, CronosPluginError>)
        requires
            old(self).wf(),
        ensures
            final(self).wf(),
            final(self).filter() == old(self).filter(),
            final(self).lookback() == old(self).lookback(),
            final(self).run() == old(self).run(),
            final(self).in_flight() == old(self).in_flight(),
            final(self).clock() >= old(self).clock(),
            match old(self).classify(*update) {
                UpdateKind::Ignored => {
                    &&& r is Ok && r->Ok_0@.len() == 0
                    &&& final(self).tasks() == old(self).tasks()
                    &&& final(self).clock() == old(self).clock()
                },
                UpdateKind::Refused => {
                    &&& r is Err && r->Err_0 is CacheError && r->Err_0->msg@ == no_cache_text()
                    &&& final(self).tasks() == old(self).tasks()
                    &&& final(self).clock() == old(self).clock()
                },
                UpdateKind::Clock => {
                    &&& final(self).tasks() == old(self).tasks()
                    &&& match clock_timestamp(update.raw_payload@) {
                        None => {
                            &&& r is Err && r->Err_0 is ClockAccountInfoError
                            &&& final(self).clock() == old(self).clock()
                        },
                        Some(now) => if now > old(self).clock() {
                            &&& final(self).clock() == now
                            &&& r is Ok
                            &&& listed(old(self).tasks(), r->Ok_0@, now - old(self).lookback(), now)
                            &&& ready(final(self).clock(), r->Ok_0@)
                        } else {
                            &&& final(self).clock() == old(self).clock()
                            &&& r is Ok && r->Ok_0@.len() == 0
                        },
                    }
                },
                UpdateKind::Task => {
                    &&& final(self).clock() == old(self).clock()
                    &&& match task {
                        None => {
                            &&& r is Err && r->Err_0 is TaskAccountInfoError
                            &&& final(self).tasks() == old(self).tasks()
                        },
                        Some(s) => {
                            &&& r is Ok && r->Ok_0@.len() == 0
                            &&& final(self).tasks() == after_task_update(
                                old(self).tasks(),
                                update.account_id,
                                s@,
                            )
                        },
                    }
                },
            },
    {
        match self.route(update) {
            UpdateKind::Ignored => Ok(Vec::new()),
            UpdateKind::Refused => Err(
                CronosPluginError::CacheError {
                    msg: String::from_str("There is no available cache to update account data"),
                },
            ),
            UpdateKind::Clock => {
                match read_clock(update.raw_payload.as_slice()) {
                    None => Err(CronosPluginError::ClockAccountInfoError),
                    Some(now) => {
                        if self.advance_clock(now) {
                            Ok(self.execute_tasks_in_lookback_window())
                        } else {
                            Ok(Vec::new())
                        }
                    },
                }
            },
            UpdateKind::Task => {
                match task {
                    None => Err(CronosPluginError::TaskAccountInfoError),
                    Some(s) => {
                        self.replicate_task(update.account_id, s);
                        Ok(Vec::new())
                    },
                }
            },
        }
    }

    /// What `begin_attempt` answers in the state `self` for the task instance:
    /// the reason for which no attempt starts, or `None` if one starts.
    pub open spec fn refusal(&self, identity: Identity, owner: Identity, due_at: i64) -> Option<
        AttemptRefusal,
    > {
        if !self.running() {
            Some(AttemptRefusal::EngineStopped)
        } else if config_address_of(self.filter()->Some_0.watched_program) is None
            || fee_address_of(self.filter()->Some_0.watched_program, owner) is None {
            Some(AttemptRefusal::AddressUnavailable)
        } else if !grants(self.in_flight(), identity, due_at) {
            Some(AttemptRefusal::LockUnavailable)
        } else {
            None
        }
    }

    /// The first step of an execution attempt: derives the bookkeeping
    /// accounts, takes the lock of the task instance and builds the request.
    /// A refusal leaves the engine as it was; a start changes nothing but the
    /// lock.
    pub fn begin_attempt(&mut self, identity: Identity, snapshot: &TaskSnapshot) -> (r: Result<
        (AttemptGuard, ExecutionRequest),
        AttemptRefusal,
    >)
        requires
            old(self).wf(),
            snapshot.status == TaskStatus::Queued,
            snapshot.schedule.due_at <= old(self).clock(),
        ensures
            final(self).wf(),
            final(self).filter() == old(self).filter(),
            final(self).lookback() == old(self).lookback(),
            final(self).run() == old(self).run(),
            final(self).clock() == old(self).clock(),
            final(self).tasks() == old(self).tasks(),
            match r {
                Ok((guard, request)) => {
                    &&& old(self).refusal(identity, snapshot.owner, snapshot.schedule.due_at)
                        is None
                    &&& final(self).in_flight() == old(self).in_flight().insert(
                        (identity, snapshot.schedule.due_at),
                    )
                    &&& guard.key() == (identity, snapshot.schedule.due_at)
                    &&& guard.run() == old(self).run()
                    &&& request.task == identity
                    &&& request.owner == snapshot.owner
                    &&& request.due_at == snapshot.schedule.due_at
                    &&& Some(request.config@) == config_address_of(
                        old(self).filter()->Some_0.watched_program,
                    )
                    &&& Some(request.fee@) == fee_address_of(
                        old(self).filter()->Some_0.watched_program,
                        snapshot.owner,
                    )
                    &&& request.accounts@ == request_accounts(snapshot.action@)
                },
                Err(why) => {
                    &&& old(self).refusal(identity, snapshot.owner, snapshot.schedule.due_at)
                        == Some(why)
                    &&& final(self).in_flight() == old(self).in_flight()
                },
            },
    {
        let program = match &self.filter {
            Some(f) => f.watched_program,
            None => {
                return Err(AttemptRefusal::EngineStopped);
            },
        };
        let config = match config_address(&program) {
            Some(a) => a,
            None => {
                return Err(AttemptRefusal::AddressUnavailable);
            },
        };
        let fee = match fee_address(&program, &snapshot.owner) {
            Some(a) => a,
            None => {
                return Err(AttemptRefusal::AddressUnavailable);
            },
        };
        match &mut self.bucket {
            Some(p) => {
                match p.try_acquire(identity, snapshot.schedule.due_at) {
                    Some(guard) => Ok((guard, build_request(identity, snapshot, config, fee))),
                    None => {
                        assert(self.in_flight() =~= old(self).in_flight());
                        Err(AttemptRefusal::LockUnavailable)
                    },
                }
            },
            None => Err(AttemptRefusal::EngineStopped),
        }
    }

    /// Whether an attempt that holds `guard` belongs to the current run of a
    /// running engine. An attempt that outlived its run leaves no trace.
    pub open spec fn current(&self, guard: AttemptGuard) -> bool {
        self.running() && guard.run() == self.run()
    }

    /// The last step of an execution attempt: after a failed submission the
    /// refetched snapshot goes to the cache, so that the next scan sees the
    /// task as the ledger has it; then the lock is given back, whatever the
    /// outcome.
    pub fn finish_attempt(&mut self, guard: AttemptGuard, outcome: AttemptOutcome)
        requires
            old(self).wf(),
        ensures
            final(self).wf(),
            final(self).filter() == old(self).filter(),
            final(self).lookback() == old(self).lookback(),
            final(self).run() == old(self).run(),
            final(self).clock() == old(self).clock(),
            final(self).in_flight() == if old(self).current(guard) {
                old(self).in_flight().remove(guard.key())
            } else {
                old(self).in_flight()
            },
            final(self).tasks() == if old(self).current(guard) {
                after_attempt(old(self).tasks(), guard.identity(), outcome@)
            } else {
                old(self).tasks()
            },
    {
        if self.filter.is_none() || guard.run_number() != self.runs {
            return;
        }
        let key = guard.task();
        match outcome {
            AttemptOutcome::Submitted => {},
            AttemptOutcome::Failed { refetched } => {
                match refetched {
                    Some(s) => {
                        self.replicate_task(key, s);
                    },
                    None => {},
                }
            },
        }
        match &mut self.bucket {
            Some(p) => {
                p.release(guard);
            },
            None => {},
        }
    }
}

} // verus!
