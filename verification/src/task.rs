//! The values the engine handles: identities, schedules and task snapshots.

use vstd::prelude::*;

verus! {

broadcast use vstd::array::group_array_axioms;

/// An opaque 32-byte key: the address of a task, an owner or a program.
#[derive(Clone, Copy, Debug, Eq, Hash)]
pub struct Identity {
    pub bytes: [u8; 32],
}

impl PartialEq for Identity {
    fn eq(&self, other: &Identity) -> (r: bool) {
        let mut i: usize = 0;
        while i < 32
            invariant
                i <= 32,
                forall|k: int| 0 <= k < i ==> self.bytes[k] == other.bytes[k],
            decreases 32 - i,
        {
            if self.bytes[i] != other.bytes[i] {
                return false;
            }
            i += 1;
        }
        assert(self.bytes =~= other.bytes);
        true
    }
}

impl vstd::std_specs::cmp::PartialEqSpecImpl for Identity {
    open spec fn obeys_eq_spec() -> bool {
        true
    }

    open spec fn eq_spec(&self, other: &Identity) -> bool {
        *self == *other
    }
}

impl View for Identity {
    type V = Seq<u8>;

    open spec fn view(&self) -> Seq<u8> {
        self.bytes@
    }
}

impl Identity {
    /// Wraps 32 raw bytes as an identity.
    pub fn new(bytes: [u8; 32]) -> (r: Identity)
        ensures
            r.bytes == bytes,
    {
        Identity { bytes }
    }
}

/// When a task is due, when it stops recurring, and how often it recurs.
/// An `interval` of zero means that the task does not recur.
#[derive(Clone, Copy, Debug, PartialEq, Eq, Structural)]
pub struct Schedule {
    pub due_at: i64,
    pub stop_at: i64,
    pub interval: i64,
}

/// The ledger-side state of a task. The engine acts on `Queued` only.
#[derive(Clone, Copy, Debug, PartialEq, Eq, Structural)]
pub enum TaskStatus {
    Queued,
    Done,
    Cancelled,
}

/// One account that a task's action touches.
#[derive(Clone, Copy, Debug, Eq)]
pub struct AccountMetaData {
    pub pubkey: Identity,
    pub is_signer: bool,
    pub is_writable: bool,
}

impl PartialEq for AccountMetaData {
    fn eq(&self, other: &AccountMetaData) -> (r: bool) {
        self.pubkey == other.pubkey && self.is_signer == other.is_signer && self.is_writable
            == other.is_writable
    }
}

impl vstd::std_specs::cmp::PartialEqSpecImpl for AccountMetaData {
    open spec fn obeys_eq_spec() -> bool {
        true
    }

    open spec fn eq_spec(&self, other: &AccountMetaData) -> bool {
        *self == *other
    }
}

/// The encoded instruction of a task: its target program, the accounts it
/// needs and its payload. The engine never looks inside `data`.
#[derive(Debug)]
pub struct Action {
    pub program_id: Identity,
    pub accounts: Vec<AccountMetaData>,
    pub data: Vec<u8>,
}

/// What an `Action` holds, as mathematical values.
pub struct ActionView {
    pub program_id: Identity,
    pub accounts: Seq<AccountMetaData>,
    pub data: Seq<u8>,
}

impl View for Action {
    type V = ActionView;

    open spec fn view(&self) -> ActionView {
        ActionView { program_id: self.program_id, accounts: self.accounts@, data: self.data@ }
    }
}

/// The engine's last-known copy of one task.
#[derive(Debug)]
pub struct TaskSnapshot {
    pub identity: Identity,
    pub owner: Identity,
    pub action: Action,
    pub schedule: Schedule,
    pub status: TaskStatus,
}

/// What a `TaskSnapshot` holds, as mathematical values.
pub struct TaskSnapshotView {
    pub identity: Identity,
    pub owner: Identity,
    pub action: ActionView,
    pub schedule: Schedule,
    pub status: TaskStatus,
}

impl View for TaskSnapshot {
    type V = TaskSnapshotView;

    open spec fn view(&self) -> TaskSnapshotView {
        TaskSnapshotView {
            identity: self.identity,
            owner: self.owner,
            action: self.action@,
            schedule: self.schedule,
            status: self.status,
        }
    }
}

/// A copy of the account list.
fn copy_accounts(src: &Vec<AccountMetaData>) -> (r: Vec<AccountMetaData>)
    ensures
        r@ == src@,
{
    let mut out: Vec<AccountMetaData> = Vec::new();
    let mut i: usize = 0;
    while i < src.len()
        invariant
            i <= src.len(),
            out@ == src@.subrange(0, i as int),
        decreases src.len() - i,
    {
        out.push(src[i]);
        assert(out@ =~= src@.subrange(0, i + 1));
        i += 1;
    }
    assert(src@.subrange(0, src.len() as int) =~= src@);
    out
}

/// A copy of the bytes.
fn copy_bytes(src: &Vec<u8>) -> (r: Vec<u8>)
    ensures
        r@ == src@,
{
    let mut out: Vec<u8> = Vec::new();
    let mut i: usize = 0;
    while i < src.len()
        invariant
            i <= src.len(),
            out@ == src@.subrange(0, i as int),
        decreases src.len() - i,
    {
        out.push(src[i]);
        assert(out@ =~= src@.subrange(0, i + 1));
        i += 1;
    }
    assert(src@.subrange(0, src.len() as int) =~= src@);
    out
}

impl Action {
    /// An independent copy of this action.
    pub fn duplicate(&self) -> (r: Action)
        ensures
            r@ == self@,
    {
        Action {
            program_id: self.program_id,
            accounts: copy_accounts(&self.accounts),
            data: copy_bytes(&self.data),
        }
    }
}

impl TaskSnapshot {
    /// An independent copy of this snapshot.
    pub fn duplicate(&self) -> (r: TaskSnapshot)
        ensures
            r@ == self@,
    {
        TaskSnapshot {
            identity: self.identity,
            owner: self.owner,
            action: self.action.duplicate(),
            schedule: self.schedule,
            status: self.status,
        }
    }

    /// Whether the task still waits for execution.
    pub fn is_queued(&self) -> (r: bool)
        ensures
            r == (self.status == TaskStatus::Queued),
    {
        match self.status {
            TaskStatus::Queued => true,
            _ => false,
        }
    }
}

} // verus!
