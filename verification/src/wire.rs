//! Decoding of the oracle's reply payload: one tag byte, then two
//! little-endian 128-bit integers — the request round and the random seed.

use vstd::prelude::*;

use crate::Error;

verus! {

/// 256 to the `n`th power: the weight of the `n`th byte of a little-endian
/// integer.
pub open spec fn pow256(n: int) -> int
    decreases n,
{
    if n <= 0 {
        1
    } else {
        256 * pow256(n - 1)
    }
}

/// The little-endian value of the bytes `s[lo..hi]`.
pub open spec fn le_value(s: Seq<u8>, lo: int, hi: int) -> int
    decreases hi - lo,
{
    if lo >= hi {
        0
    } else {
        s[lo] + 256 * le_value(s, lo + 1, hi)
    }
}

/// A little-endian value is nonnegative and below 256 to the byte count.
pub proof fn lemma_le_value_bound(s: Seq<u8>, lo: int, hi: int)
    ensures
        0 <= le_value(s, lo, hi) < pow256(hi - lo),
    decreases hi - lo,
{
    if lo >= hi {
    } else {
        lemma_le_value_bound(s, lo + 1, hi);
    }
}

/// Sixteen bytes fit a 128-bit integer exactly.
proof fn lemma_pow256_16()
    ensures
        pow256(16) == 0x100000000000000000000000000000000,
{
    reveal_with_fuel(pow256, 17);
}

/// Reads the little-endian integer held in `payload[lo..hi]`; at most 16
/// bytes.
fn read_le(payload: &Vec<u8>, lo: usize, hi: usize) -> (r: u128)
    requires
        lo <= hi <= payload@.len(),
        hi - lo <= 16,
    ensures
        r == le_value(payload@, lo as int, hi as int),
{
    proof {
        lemma_pow256_16();
        lemma_pow256_monotonic(hi - lo, 16);
    }
    let mut acc: u128 = 0;
    let mut i: usize = hi;
    while i > lo
        invariant
            lo <= i <= hi,
            acc == le_value(payload@, i as int, hi as int),
        decreases i - lo,
    {
        i = i - 1;
        proof {
            lemma_le_value_bound(payload@, i as int + 1, hi as int);
            lemma_pow256_monotonic(hi - i, 16);
        }
        acc = acc * 256 + (payload[i] as u128);
    }
    acc
}

/// More bytes weigh at least as much.
proof fn lemma_pow256_monotonic(m: int, n: int)
    requires
        m <= n,
    ensures
        pow256(m) <= pow256(n),
    decreases n - m,
{
    if m < n {
        lemma_pow256_monotonic(m, n - 1);
        lemma_le_value_nonneg_helper(n);
    }
}

/// Powers of 256 are positive.
proof fn lemma_le_value_nonneg_helper(n: int)
    ensures
        pow256(n) >= 1,
    decreases n,
{
    if n > 0 {
        lemma_le_value_nonneg_helper(n - 1);
    }
}

/// Splits the oracle's reply payload into the request round and the random
/// seed. The payload must be exactly one tag byte followed by the two
/// little-endian 128-bit integers; anything else does not decode.
pub fn decode_oracle_reply(payload: &Vec<u8>) -> (r: Result<(u128, u128), Error>)
    ensures
        payload@.len() != 33 ==> r == Err::<(u128, u128), Error>(Error::InvalidPayload),
        payload@.len() == 33 ==> (r matches Ok(p) && p.0 == le_value(payload@, 1, 17) && p.1
            == le_value(payload@, 17, 33)),
{
    if payload.len() != 33 {
        return Err(Error::InvalidPayload);
    }
    let round: u128 = read_le(payload, 1, 17);
    let seed: u128 = read_le(payload, 17, 33);
    Ok((round, seed))
}

} // verus!
