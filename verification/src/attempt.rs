//! What one execution attempt hands to the submitter, and what it reports
//! back when the submission is over.

use vstd::prelude::*;
use crate::task::{
    AccountMetaData, ActionView, Identity, TaskSnapshot, TaskSnapshotView, TaskStatus,
};

verus! {

/// What the submitter needs for one execution of a task: the task and its
/// owner, the due time of the instance, the two bookkeeping accounts, and
/// the accounts that the task's action needs.
#[derive(Debug)]
pub struct ExecutionRequest {
    pub task: Identity,
    pub owner: Identity,
    pub due_at: i64,
    pub config: Identity,
    pub fee: Identity,
    pub accounts: Vec<AccountMetaData>,
}

/// Why an attempt did not start. None of these is a failure of the engine.
#[derive(Clone, Copy, Debug, PartialEq, Eq, Structural)]
pub enum AttemptRefusal {
    /// The engine is stopped.
    EngineStopped,
    /// The ledger derives no address for one of the bookkeeping accounts.
    AddressUnavailable,
    /// Another attempt on the same task instance is in flight.
    LockUnavailable,
}

/// How a submission ended.
#[derive(Debug)]
pub enum AttemptOutcome {
    /// The ledger accepted the request. The new state of the task arrives
    /// with a later update.
    Submitted,
    /// The submission failed. `refetched` is the task as the ledger holds it
    /// now, or `None` if that could not be fetched or decoded either.
    Failed { refetched: Option<TaskSnapshot> },
}

/// An `AttemptOutcome` as mathematical values.
pub enum AttemptOutcomeView {
    Submitted,
    Failed { refetched: Option<TaskSnapshotView> },
}

impl View for AttemptOutcome {
    type V = AttemptOutcomeView;

    open spec fn view(&self) -> AttemptOutcomeView {
        match self {
            AttemptOutcome::Submitted => AttemptOutcomeView::Submitted,
            AttemptOutcome::Failed { refetched } => AttemptOutcomeView::Failed {
                refetched: match refetched {
                    Some(s) => Some(s@),
                    None => None,
                },
            },
        }
    }
}

/// The account that a request passes on for one account of the action: the
/// same key, writable as the action says, and never a signer.
pub open spec fn passed_on(account: AccountMetaData) -> AccountMetaData {
    AccountMetaData { pubkey: account.pubkey, is_signer: false, is_writable: account.is_writable }
}

/// The account list of a request: the action's accounts in their order, then
/// the action's program, read-only.
pub open spec fn request_accounts(action: ActionView) -> Seq<AccountMetaData> {
    Seq::new(
        action.accounts.len() + 1,
        |i: int|
            if i < action.accounts.len() {
                passed_on(action.accounts[i])
            } else {
                AccountMetaData { pubkey: action.program_id, is_signer: false, is_writable: false }
            },
    )
}

/// The cached tasks after an attempt on `identity` ended with `outcome`. Only
/// a failed submission touches the cache: the refetched snapshot replaces the
/// cached one if the task is still queued, and the task leaves the cache if
/// it is done or cancelled. Without a refetched snapshot nothing changes.
pub open spec fn after_attempt(
    tasks: Map<Identity, TaskSnapshotView>,
    identity: Identity,
    outcome: AttemptOutcomeView,
) -> Map<Identity, TaskSnapshotView> {
    match outcome {
        AttemptOutcomeView::Submitted => tasks,
        AttemptOutcomeView::Failed { refetched: None } => tasks,
        AttemptOutcomeView::Failed { refetched: Some(s) } => if s.status == TaskStatus::Queued {
            tasks.insert(identity, s)
        } else {
            tasks.remove(identity)
        },
    }
}

/// Builds the request for one execution of the task, given the addresses of
/// the two bookkeeping accounts.
pub fn build_request(
    identity: Identity,
    snapshot: &TaskSnapshot,
    config: Identity,
    fee: Identity,
) -> (r: ExecutionRequest)
    ensures
        r.task == identity,
        r.owner == snapshot.owner,
        r.due_at == snapshot.schedule.due_at,
        r.config == config,
        r.fee == fee,
        r.accounts@ == request_accounts(snapshot.action@),
{
    let mut accounts: Vec<AccountMetaData> = Vec::new();
    let mut i: usize = 0;
    while i < snapshot.action.accounts.len()
        invariant
            i <= snapshot.action.accounts.len(),
            accounts.len() == i,
            forall|k: int| 0 <= k < i ==> accounts[k] == passed_on(snapshot.action.accounts[k]),
        decreases snapshot.action.accounts.len() - i,
    {
        let acc = snapshot.action.accounts[i];
        accounts.push(
            AccountMetaData { pubkey: acc.pubkey, is_signer: false, is_writable: acc.is_writable },
        );
        i += 1;
    }
    accounts.push(
        AccountMetaData { pubkey: snapshot.action.program_id, is_signer: false, is_writable: false },
    );
    assert(accounts@ =~= request_accounts(snapshot.action@));
    ExecutionRequest {
        task: identity,
        owner: snapshot.owner,
        due_at: snapshot.schedule.due_at,
        config,
        fee,
        accounts,
    }
}

} // verus!
