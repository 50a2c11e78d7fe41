//! Pseudo-random winner selection.
//!
//! The selection seed is the decimal rendering of a coarse timestamp followed
//! by the operator identity. A keccak-256 digest of the seed is folded to a
//! small integer by summing its bytes with 8-bit wraparound, and the winner's
//! position in the pool is that integer reduced modulo the pool size. The
//! scheme is deterministic in its inputs (and therefore replayable), but it is
//! not cryptographically sound: whoever controls the settlement time can
//! predict the outcome.

use vstd::prelude::*;

verus! {

use vstd::string::StringSliceAdditionalSpecFns;
use vstd::utf8::encode_utf8;

/// The decimal digits of `n` as ASCII bytes, most significant digit first.
pub open spec fn dec_digits(n: nat) -> Seq<u8>
    decreases n,
{
    if n < 10 {
        seq![(48 + n) as u8]
    } else {
        dec_digits(n / 10).push((48 + n % 10) as u8)
    }
}

/// Appends the decimal digits of `n` to `out`.
pub fn push_decimal(n: u64, out: &mut Vec<u8>)
    ensures
        final(out)@ == old(out)@ + dec_digits(n as nat),
    decreases n,
{
    if n < 10 {
        let d: u8 = n as u8;
        out.push(48 + d);
        proof {
            assert(out@ =~= old(out)@ + dec_digits(n as nat));
        }
    } else {
        push_decimal(n / 10, out);
        let d: u8 = (n % 10) as u8;
        out.push(48 + d);
        proof {
            assert(out@ =~= old(out)@ + dec_digits(n as nat));
        }
    }
}

/// The bytes of `s` summed with 8-bit wraparound.
pub open spec fn sum_wrap(s: Seq<u8>) -> u8
    decreases s.len(),
{
    if s.len() == 0 {
        0u8
    } else {
        ((sum_wrap(s.drop_last()) + s.last()) % 256) as u8
    }
}

/// Sums the bytes of `bytes` with 8-bit wraparound.
pub fn byte_sum(bytes: &Vec<u8>) -> (r: u8)
    ensures
        r == sum_wrap(bytes@),
{
    let mut acc: u8 = 0;
    let mut i: usize = 0;
    while i < bytes.len()
        invariant
            i <= bytes@.len(),
            acc == sum_wrap(bytes@.take(i as int)),
        decreases bytes@.len() - i,
    {
        let b: u8 = bytes[i];
        acc = (((acc as u16) + (b as u16)) % 256) as u8;
        proof {
            assert(bytes@.take(i as int + 1).drop_last() =~= bytes@.take(i as int));
            assert(bytes@.take(i as int + 1).last() == bytes@[i as int]);
        }
        i = i + 1;
    }
    proof {
        assert(bytes@.take(bytes@.len() as int) =~= bytes@);
    }
    acc
}

/// The keccak-256 digest of a byte sequence, named so that contracts can
/// speak of it; the digest itself is computed by an outside crate.
pub uninterp spec fn keccak_of(input: Seq<u8>) -> Seq<u8>;

/// Relies on `near_sdk::env::keccak256_array`: the keccak-256 digest of the
/// input, 32 bytes, a function of the input bytes alone.
#[verifier::external_body]
pub(crate) fn keccak256(input: &Vec<u8>) -> (r: Vec<u8>)
    ensures
        r@ == keccak_of(input@),
        r@.len() == 32,
{
    near_sdk::env::keccak256_array(input.as_slice()).to_vec()
}

/// The selection seed: the decimal digits of the timestamp followed by the
/// UTF-8 bytes of the operator identity.
pub open spec fn derivation_input(timestamp: u64, operator: Seq<char>) -> Seq<u8> {
    dec_digits(timestamp as nat) + encode_utf8(operator)
}

/// Builds the selection seed for the given timestamp and operator.
pub fn derive_seed(timestamp: u64, operator: &str) -> (r: Vec<u8>)
    ensures
        r@ == derivation_input(timestamp, operator@),
{
    let mut out: Vec<u8> = Vec::new();
    push_decimal(timestamp, &mut out);
    proof {
        assert(out@ =~= dec_digits(timestamp as nat) + operator.spec_bytes().take(0));
    }
    let bytes: &[u8] = operator.as_bytes();
    let mut j: usize = 0;
    while j < bytes.len()
        invariant
            j <= bytes@.len(),
            bytes@ == operator.spec_bytes(),
            out@ == dec_digits(timestamp as nat) + bytes@.take(j as int),
        decreases bytes@.len() - j,
    {
        let b: u8 = bytes[j];
        out.push(b);
        proof {
            assert(bytes@.take(j as int + 1) =~= bytes@.take(j as int).push(bytes@[j as int]));
            assert(out@ =~= dec_digits(timestamp as nat) + bytes@.take(j as int + 1));
        }
        j = j + 1;
    }
    proof {
        assert(bytes@.take(bytes@.len() as int) =~= bytes@);
        assert(operator.spec_bytes() == encode_utf8(operator@));
    }
    out
}

/// The selection index for a pool of size `n`: the wrapped byte sum of the
/// keccak-256 digest of the seed, reduced modulo `n`.
pub open spec fn selection_index(timestamp: u64, operator: Seq<char>, n: nat) -> nat
    recommends
        n > 0,
{
    (sum_wrap(keccak_of(derivation_input(timestamp, operator))) as nat) % n
}

/// Selection bounds: for any non-empty pool of size `n` and any timestamp and
/// operator input, the selection index lies in `[0, n)`.
pub proof fn lemma_selection_index_in_bounds(timestamp: u64, operator: Seq<char>, n: nat)
    requires
        n > 0,
    ensures
        selection_index(timestamp, operator, n) < n,
{
}

} // verus!
