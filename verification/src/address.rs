//! The bookkeeping accounts of an execution request: addresses that the
//! ledger derives from the watched program and fixed seeds.

use vstd::prelude::*;
use crate::task::Identity;

verus! {

/// The address and bump seed that the ledger derives for a program from a
/// list of seeds, or `None` where it derives none.
pub uninterp spec fn program_address(seeds: Seq<Seq<u8>>, program: Seq<u8>) -> Option<
    (Seq<u8>, u8),
>;

/// Calls `solana_program::pubkey::Pubkey::try_find_program_address` with the
/// seeds and the program's key. Trusted: the call computes from its arguments
/// alone, so its result is `program_address` of them; nothing is claimed of
/// which address that is.
#[verifier::external_body]
fn try_find_program_address(seeds: &Vec<Vec<u8>>, program: &Identity) -> (r: Option<(Identity, u8)>)
    ensures
        match r {
            Some((address, bump)) => program_address(seeds.deep_view(), program@) == Some(
                (address@, bump),
            ),
            None => program_address(seeds.deep_view(), program@) is None,
        },
{
    let mut parts: Vec<&[u8]> = Vec::new();
    for seed in seeds.iter() {
        parts.push(seed.as_slice());
    }
    let program = solana_program::pubkey::Pubkey::new_from_array(program.bytes);
    solana_program::pubkey::Pubkey::try_find_program_address(&parts, &program).map(
        |(key, bump)| (Identity { bytes: key.to_bytes() }, bump),
    )
}

/// The seed of a program's configuration account: the ASCII text `config`.
pub open spec fn config_seed() -> Seq<u8> {
    seq![0x63u8, 0x6f, 0x6e, 0x66, 0x69, 0x67]
}

/// The first seed of a fee account: the ASCII text `fee`.
pub open spec fn fee_seed() -> Seq<u8> {
    seq![0x66u8, 0x65, 0x65]
}

/// The seeds of a program's configuration account.
pub open spec fn config_seeds() -> Seq<Seq<u8>> {
    seq![config_seed()]
}

/// The seeds of the fee account of a task owner.
pub open spec fn fee_seeds(owner: Identity) -> Seq<Seq<u8>> {
    seq![fee_seed(), owner@]
}

/// The address of the program's configuration account, where the ledger
/// derives one.
pub open spec fn config_address_of(program: Identity) -> Option<Seq<u8>> {
    match program_address(config_seeds(), program@) {
        Some((address, _)) => Some(address),
        None => None,
    }
}

/// The address of the fee account that the program keeps for a task owner,
/// where the ledger derives one.
pub open spec fn fee_address_of(program: Identity, owner: Identity) -> Option<Seq<u8>> {
    match program_address(fee_seeds(owner), program@) {
        Some((address, _)) => Some(address),
        None => None,
    }
}

/// The 32 bytes of the identity, as a seed.
fn identity_bytes(identity: &Identity) -> (r: Vec<u8>)
    ensures
        r@ == identity@,
{
    let mut out: Vec<u8> = Vec::new();
    let mut i: usize = 0;
    while i < 32
        invariant
            i <= 32,
            out@ == identity@.subrange(0, i as int),
        decreases 32 - i,
    {
        out.push(identity.bytes[i]);
        assert(out@ =~= identity@.subrange(0, i + 1));
        i += 1;
    }
    assert(identity@.subrange(0, 32) =~= identity@);
    out
}

/// The address of the program's configuration account.
pub fn config_address(program: &Identity) -> (r: Option<Identity>)
    ensures
        r is Some <==> config_address_of(*program) is Some,
        r is Some ==> Some(r->Some_0@) == config_address_of(*program),
{
    let mut seeds: Vec<Vec<u8>> = Vec::new();
    seeds.push(vec![0x63u8, 0x6f, 0x6e, 0x66, 0x69, 0x67]);
    assert(seeds.deep_view() =~= config_seeds()) by {
        assert(seeds.deep_view().len() == 1);
        assert(seeds.deep_view()[0] =~= config_seed());
    }
    match try_find_program_address(&seeds, program) {
        Some((address, _)) => Some(address),
        None => None,
    }
}

/// The address of the fee account that the program keeps for a task owner.
pub fn fee_address(program: &Identity, owner: &Identity) -> (r: Option<Identity>)
    ensures
        r is Some <==> fee_address_of(*program, *owner) is Some,
        r is Some ==> Some(r->Some_0@) == fee_address_of(*program, *owner),
{
    let mut seeds: Vec<Vec<u8>> = Vec::new();
    seeds.push(vec![0x66u8, 0x65, 0x65]);
    seeds.push(identity_bytes(owner));
    assert(seeds.deep_view() =~= fee_seeds(*owner)) by {
        assert(seeds.deep_view().len() == 2);
        assert(seeds.deep_view()[0] =~= fee_seed());
        assert(seeds.deep_view()[1] =~= owner@);
    }
    match try_find_program_address(&seeds, program) {
        Some((address, _)) => Some(address),
        None => None,
    }
}

} // verus!
