//! SCALE encoding of account identifiers and the shard code derived from it.

use parity_scale_codec::Encode;
use vstd::prelude::*;

verus! {

/// Account identifiers are 64-bit integers.
pub type AccountId = u64;

/// Number of trailing bytes of an encoded account that form its shard code.
pub const SHARD_CODE_SIZE: usize = 2;

/// Byte `i` of the little-endian representation of `x`.
pub open spec fn le_byte(x: u64, i: int) -> u8 {
    ((x as int / vstd::arithmetic::power2::pow2((8 * i) as nat) as int) % 256) as u8
}

/// The eight little-endian bytes of `x`: the SCALE encoding of a `u64`.
pub open spec fn le_bytes_u64(x: u64) -> Seq<u8> {
    Seq::new(8, |i: int| le_byte(x, i))
}

/// The shard code of an account: the last `SHARD_CODE_SIZE` bytes of its encoding.
pub open spec fn account_shard_code(who: AccountId) -> Seq<u8> {
    le_bytes_u64(who).subrange(8 - SHARD_CODE_SIZE as int, 8)
}

/// Calls `parity_scale_codec::Encode::encode` on a `u64`. The codec writes a
/// fixed-width integer as its little-endian bytes (`to_le_bytes`), so the
/// result is exactly the eight bytes of `le_bytes_u64(who)`.
#[verifier::external_body]
fn encode_account(who: AccountId) -> (r: Vec<u8>)
    ensures
        r@ == le_bytes_u64(who),
{
    who.encode()
}

/// The shard code of `who`, taken from the tail of its SCALE encoding.
pub fn shard_code_of(who: AccountId) -> (r: Vec<u8>)
    ensures
        r@ == account_shard_code(who),
{
    let mut encoded = encode_account(who);
    let at = encoded.len() - SHARD_CODE_SIZE;
    let tail = encoded.split_off(at);
    assert(tail@ =~= account_shard_code(who));
    tail
}

} // verus!
