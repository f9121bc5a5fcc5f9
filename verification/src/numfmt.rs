//! Decimal rendering of integers as ASCII bytes.

use vstd::prelude::*;

verus! {

/// Decimal digits of `n`, most significant first, as ASCII bytes.
pub open spec fn dec_u64(n: nat) -> Seq<u8>
    decreases n,
{
    if n < 10 {
        seq![(48 + n) as u8]
    } else {
        dec_u64(n / 10).push((48 + n % 10) as u8)
    }
}

/// Decimal form of a signed value: a minus sign before the digits when negative.
pub open spec fn dec_i64(n: int) -> Seq<u8> {
    if n < 0 {
        seq![45u8] + dec_u64((-n) as nat)
    } else {
        dec_u64(n as nat)
    }
}

/// A decimal rendering is never empty and holds digit bytes alone.
pub proof fn lemma_dec_u64_digits(n: nat)
    ensures
        dec_u64(n).len() >= 1,
        forall|j: int| 0 <= j < dec_u64(n).len() ==> crate::jsontext::is_digit(dec_u64(n)[j]),
    decreases n,
{
    if n >= 10 {
        lemma_dec_u64_digits(n / 10);
    }
}

/// A signed decimal rendering holds digits after at most a minus sign.
pub proof fn lemma_dec_i64_bytes(n: int)
    ensures
        dec_i64(n).len() >= 1,
        forall|j: int|
            0 <= j < dec_i64(n).len() ==> crate::jsontext::is_number_byte(dec_i64(n)[j]),
{
    if n < 0 {
        lemma_dec_u64_digits((-n) as nat);
    } else {
        lemma_dec_u64_digits(n as nat);
    }
}

/// Appends the decimal digits of `n` to `out`.
pub fn push_dec_u64(out: &mut Vec<u8>, n: u64)
    ensures
        final(out)@ == old(out)@ + dec_u64(n as nat),
    decreases n,
{
    if n >= 10 {
        push_dec_u64(out, n / 10);
        let d: u8 = (n % 10) as u8;
        out.push(48 + d);
        proof {
            assert(out@ =~= old(out)@ + dec_u64(n as nat));
        }
    } else {
        let d: u8 = n as u8;
        out.push(48 + d);
        proof {
            assert(out@ =~= old(out)@ + dec_u64(n as nat));
        }
    }
}

/// Appends the decimal form of `n`, with a leading minus sign when negative.
pub fn push_dec_i32(out: &mut Vec<u8>, n: i32)
    ensures
        final(out)@ == old(out)@ + dec_i64(n as int),
{
    if n < 0 {
        out.push(45);
        let m: u64 = (-(n as i64)) as u64;
        push_dec_u64(out, m);
        proof {
            assert(out@ =~= old(out)@ + dec_i64(n as int));
        }
    } else {
        push_dec_u64(out, n as u64);
    }
}

} // verus!
