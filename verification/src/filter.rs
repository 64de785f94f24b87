//! The update filter: which state updates concern the engine at all.

use vstd::prelude::*;
use crate::task::Identity;

verus! {

/// One state update as the feed delivers it.
#[derive(Debug)]
pub struct Notification {
    /// The program that owns the updated account.
    pub owner_id: Identity,
    /// The updated account.
    pub account_id: Identity,
    /// The account's new contents, undecoded.
    pub raw_payload: Vec<u8>,
    /// Whether the update replays old state while the host starts up.
    pub is_startup_replay: bool,
}

/// The two identities the engine listens for: the program whose task
/// accounts it mirrors, and the account that holds the external clock.
#[derive(Clone, Copy, Debug)]
pub struct Filter {
    pub watched_program: Identity,
    pub clock_account: Identity,
}

/// The bytes of the well-known account that holds the ledger's clock.
pub open spec fn clock_sysvar_bytes() -> Seq<u8> {
    seq![
        6u8, 167, 213, 23, 24, 199, 116, 201, 40, 86, 99, 152, 105, 29, 94, 182, 139, 94, 184, 163,
        155, 75, 109, 92, 115, 85, 91, 33, 0, 0, 0, 0,
    ]
}

/// Calls `solana_program::sysvar::clock::id` and hands out its bytes.
/// Trusted: the id is the constant key that the ledger gives its clock
/// account, whose 32 bytes are those of `clock_sysvar_bytes`.
#[verifier::external_body]
fn clock_sysvar_id() -> (r: Identity)
    ensures
        r@ == clock_sysvar_bytes(),
{
    Identity { bytes: solana_program::sysvar::clock::id().to_bytes() }
}

impl Filter {
    /// A filter for one watched program and the ledger's own clock account.
    pub fn for_program(watched_program: Identity) -> (r: Filter)
        ensures
            r.watched_program == watched_program,
            r.clock_account@ == clock_sysvar_bytes(),
    {
        Filter { watched_program, clock_account: clock_sysvar_id() }
    }

    /// A filter for one watched program and one clock account.
    pub fn new(watched_program: Identity, clock_account: Identity) -> (r: Filter)
        ensures
            r.watched_program == watched_program,
            r.clock_account == clock_account,
    {
        Filter { watched_program, clock_account }
    }

    /// An update is relevant if the watched program owns the account, or if
    /// the account is the clock itself.
    pub open spec fn relevant(&self, owner_id: Identity, account_id: Identity) -> bool {
        owner_id == self.watched_program || account_id == self.clock_account
    }

    /// Whether the engine watches the program.
    pub fn wants_program(&self, program: &Identity) -> (r: bool)
        ensures
            r == (*program == self.watched_program),
    {
        *program == self.watched_program
    }

    /// Whether the account is the external clock.
    pub fn is_clock(&self, account: &Identity) -> (r: bool)
        ensures
            r == (*account == self.clock_account),
    {
        *account == self.clock_account
    }

    /// Whether the update is to be applied at all.
    pub fn is_relevant(&self, update: &Notification) -> (r: bool)
        ensures
            r == self.relevant(update.owner_id, update.account_id),
    {
        self.wants_program(&update.owner_id) || self.is_clock(&update.account_id)
    }
}

} // verus!
