//! Reading the external clock out of the payload of the clock account.

use vstd::prelude::*;

verus! {

/// The error that the clock payload's decoder reports.
#[verifier::external_type_specification]
#[verifier::external_body]
pub struct ExBincodeErrorKind(bincode::ErrorKind);

/// The unsigned integer that eight bytes spell, least significant byte first.
pub open spec fn le_u64(b: Seq<u8>) -> int
    recommends
        b.len() == 8,
{
    b[0] + 0x100 * b[1] + 0x1_0000 * b[2] + 0x100_0000 * b[3] + 0x1_0000_0000 * b[4]
        + 0x100_0000_0000 * b[5] + 0x1_0000_0000_0000 * b[6] + 0x100_0000_0000_0000 * b[7]
}

/// The signed integer that eight bytes spell in two's complement, least
/// significant byte first.
pub open spec fn le_i64(b: Seq<u8>) -> int
    recommends
        b.len() == 8,
{
    if le_u64(b) >= 0x8000_0000_0000_0000 {
        le_u64(b) - 0x1_0000_0000_0000_0000
    } else {
        le_u64(b)
    }
}

/// Bytes that a clock payload must at least hold: five fields of eight bytes.
pub const CLOCK_PAYLOAD_LEN: usize = 40;

/// The timestamp that a clock payload carries, if it is long enough to hold
/// one. The payload is five fixed-width little-endian fields; the timestamp is
/// the last. Bytes after the fortieth are ignored.
pub open spec fn clock_timestamp(data: Seq<u8>) -> Option<int> {
    if data.len() >= 40 {
        Some(le_i64(data.subrange(32, 40)))
    } else {
        None
    }
}

/// Calls `bincode::deserialize` for a `solana_program::clock::Clock` and hands
/// out its `unix_timestamp`. Trusted: the call fails exactly on payloads
/// shorter than the five fixed-width fields of a `Clock`, and otherwise reads
/// the fifth field as a little-endian `i64`, whatever follows it.
#[verifier::external_body]
pub(crate) fn decode_clock(data: &[u8]) -> (r: Result<i64, Box<bincode::ErrorKind>>)
    ensures
        r is Ok <==> clock_timestamp(data@) is Some,
        r is Ok ==> Some(r->Ok_0 as int) == clock_timestamp(data@),
{
    bincode::deserialize::<solana_program::clock::Clock>(data).map(|clock| clock.unix_timestamp)
}

/// The timestamp in a clock payload, or `None` if the payload is malformed.
pub fn read_clock(data: &[u8]) -> (r: Option<i64>)
    ensures
        r is Some <==> data@.len() >= CLOCK_PAYLOAD_LEN,
        r is Some ==> Some(r->Some_0 as int) == clock_timestamp(data@),
{
    match decode_clock(data) {
        Ok(ts) => Some(ts),
        Err(_) => None,
    }
}

} // verus!
