//! Byte counts written in megabytes, as a person reads them.

use crate::numeral::{decimal, push_decimal};
use vstd::arithmetic::power2::{lemma2_to64, lemma_pow2_pos, lemma_pow2_unfold, pow2};
use vstd::prelude::*;

verus! {

/// The bytes of one megabyte.
pub const MEGABYTE: u64 = 1024 * 1024;

/// The first whole number that double precision may round.
pub const DOUBLE_LIMIT: u64 = 0x20_0000_0000_0000;

/// The whole number nearest to `n / d`; of two that are equally near, the even one.
pub open spec fn rounded_quotient(n: nat, d: nat) -> nat
    recommends
        d > 0,
{
    let below = n / d;
    let rest = n % d;
    if 2 * rest < d || (2 * rest == d && below % 2 == 0) {
        below
    } else {
        below + 1
    }
}

/// The distance between neighbouring double-precision numbers from `n` on.
pub open spec fn double_spacing(n: nat) -> nat
    decreases n,
{
    if n < DOUBLE_LIMIT {
        1
    } else {
        2 * double_spacing(n / 2)
    }
}

/// `n` in double precision: 53 significant bits, rounded to the nearest, ties to even.
pub open spec fn in_double_precision(n: nat) -> nat {
    rounded_quotient(n, double_spacing(n)) * double_spacing(n)
}

/// A byte count in tenths of a megabyte, taken in double precision and rounded.
pub open spec fn tenths_of_megabyte(bytes: nat) -> nat {
    rounded_quotient(in_double_precision(bytes) * 10, MEGABYTE as nat)
}

/// A byte count in megabytes with one digit after the point.
pub open spec fn megabytes(bytes: nat) -> Seq<char> {
    let tenths = tenths_of_megabyte(bytes);
    decimal(tenths / 10) + seq!['.'] + decimal(tenths % 10)
}

fn round_quotient(n: u128, d: u128) -> (q: u128)
    requires
        0 < d <= 0x1_0000_0000,
        n / d < u128::MAX,
    ensures
        q == rounded_quotient(n as nat, d as nat),
{
    let below: u128 = n / d;
    let rest: u128 = n % d;
    if 2 * rest < d || (2 * rest == d && below % 2 == 0) {
        below
    } else {
        below + 1
    }
}

/// Counts up to 2^53 are whole numbers of double precision.
pub proof fn law_small_counts_are_exact(bytes: nat)
    requires
        bytes <= DOUBLE_LIMIT,
    ensures
        in_double_precision(bytes) == bytes,
{
    if bytes < DOUBLE_LIMIT {
        assert(bytes / 1 == bytes);
        assert(bytes % 1 == 0);
        assert(double_spacing(bytes) == 1);
    } else {
        assert(double_spacing(bytes / 2) == 1);
        assert(double_spacing(bytes) == 2);
    }
}

proof fn lemma_rounded_quotient_bound(n: nat, d: nat)
    requires
        d > 0,
    ensures
        rounded_quotient(n, d) * d <= n + d,
        rounded_quotient(n, d) <= n / d + 1,
{
    let below = n / d;
    assert(below * d <= n) by (nonlinear_arith)
        requires
            below == n / d,
            d > 0,
    ;
    assert((below + 1) * d == below * d + d) by (nonlinear_arith);
}

fn spacing_of_double(n: u64) -> (spacing: u64)
    ensures
        spacing == double_spacing(n as nat),
        1 <= spacing <= 4096,
{
    let mut spacing: u64 = 1;
    let mut top: u64 = n;
    while top >= DOUBLE_LIMIT
        invariant
            double_spacing(n as nat) == spacing * double_spacing(top as nat),
            1 <= spacing,
            spacing * top <= n,
            spacing <= 4096,
        decreases top,
    {
        proof {
            let half = (top / 2) as int;
            let s = spacing as int;
            let below = double_spacing(half as nat) as int;
            assert(s * (2 * below) == (2 * s) * below) by (nonlinear_arith);
            assert((2 * s) * half <= s * top) by (nonlinear_arith)
                requires
                    2 * half <= top,
                    s >= 1,
            ;
            assert(s <= 2048) by (nonlinear_arith)
                requires
                    s * top <= 0xFFFF_FFFF_FFFF_FFFF,
                    top >= 0x20_0000_0000_0000,
                    s >= 1,
            ;
        }
        top = top / 2;
        spacing = spacing * 2;
    }
    assert(spacing * double_spacing(top as nat) == spacing) by (nonlinear_arith)
        requires
            double_spacing(top as nat) == 1,
    ;
    spacing
}

/// Appends a byte count in megabytes with one digit after the point.
pub fn push_megabytes(out: &mut String, bytes: u64)
    ensures
        final(out)@ == old(out)@ + megabytes(bytes as nat),
{
    let spacing: u64 = spacing_of_double(bytes);
    let units: u128 = round_quotient(bytes as u128, spacing as u128);
    proof {
        lemma_rounded_quotient_bound(bytes as nat, spacing as nat);
        lemma_rounded_quotient_bound((units * spacing * 10) as nat, MEGABYTE as nat);
    }
    let double: u128 = units * (spacing as u128);
    let tenths: u128 = round_quotient(double * 10, MEGABYTE as u128);
    push_decimal(out, (tenths / 10) as u64);
    out.push('.');
    push_decimal(out, (tenths % 10) as u64);
    assert(out@ =~= old(out)@ + megabytes(bytes as nat));
}

proof fn lemma_rounded_quotient_is_nearest(n: nat, d: nat)
    requires
        d > 0,
    ensures
        2 * (rounded_quotient(n, d) * d - n) <= d,
        2 * (n - rounded_quotient(n, d) * d) <= d,
        2 * (rounded_quotient(n, d) * d - n) == d || 2 * (n - rounded_quotient(n, d) * d) == d
            ==> rounded_quotient(n, d) % 2 == 0,
{
    let below = n / d;
    let rest = n % d;
    assert(n == below * d + rest && rest < d) by (nonlinear_arith)
        requires
            below == n / d,
            rest == n % d,
            d > 0,
    ;
    assert((below + 1) * d == below * d + d) by (nonlinear_arith);
}

/// A byte count below 2^53 is written as the number of tenths of a megabyte that is
/// nearest to it; of two that are equally near, as the even one.
pub proof fn law_megabytes_are_nearest(bytes: nat)
    requires
        bytes <= 0x20_0000_0000_0000,
    ensures
        exists|tenths: nat|
            {
                &&& megabytes(bytes) == #[trigger] decimal(tenths / 10) + seq!['.'] + decimal(tenths % 10)
                &&& 2 * (tenths * 1048576 - bytes * 10) <= 1048576
                &&& 2 * (bytes * 10 - tenths * 1048576) <= 1048576
                &&& 2 * (tenths * 1048576 - bytes * 10) == 1048576 || 2 * (bytes * 10 - tenths * 1048576)
                    == 1048576 ==> tenths % 2 == 0
            },
{
    law_small_counts_are_exact(bytes);
    lemma_rounded_quotient_is_nearest(bytes * 10, 1048576);
    let tenths = tenths_of_megabyte(bytes);
    assert(megabytes(bytes) == decimal(tenths / 10) + seq!['.'] + decimal(tenths % 10));
}

/// Any byte count is written as the number of tenths of a megabyte that is nearest
/// to the count in double precision; of two that are equally near, as the even one.
pub proof fn law_megabytes_are_nearest_to_the_double(bytes: nat)
    ensures
        exists|tenths: nat|
            {
                let double = in_double_precision(bytes);
                &&& megabytes(bytes) == #[trigger] decimal(tenths / 10) + seq!['.'] + decimal(tenths % 10)
                &&& 2 * (tenths * 1048576 - double * 10) <= 1048576
                &&& 2 * (double * 10 - tenths * 1048576) <= 1048576
                &&& 2 * (tenths * 1048576 - double * 10) == 1048576 || 2 * (double * 10 - tenths * 1048576)
                    == 1048576 ==> tenths % 2 == 0
            },
{
    lemma_rounded_quotient_is_nearest(in_double_precision(bytes) * 10, 1048576);
    let tenths = tenths_of_megabyte(bytes);
    assert(megabytes(bytes) == decimal(tenths / 10) + seq!['.'] + decimal(tenths % 10));
}

/// Double precision keeps 53 significant bits: a number from 2^53 on becomes the
/// nearest multiple of the power of two by which it has 53 bits before the point; of
/// two that are equally near, the even multiple.
pub proof fn law_double_precision_has_53_bits(n: nat, e: nat)
    requires
        pow2(e) * 0x10_0000_0000_0000 <= n < pow2(e) * 0x20_0000_0000_0000,
    ensures
        exists|units: nat|
            {
                &&& in_double_precision(n) == #[trigger] (units * pow2(e))
                &&& 2 * (units * pow2(e) - n) <= pow2(e)
                &&& 2 * (n - units * pow2(e)) <= pow2(e)
                &&& 2 * (units * pow2(e) - n) == pow2(e) || 2 * (n - units * pow2(e)) == pow2(e)
                    ==> units % 2 == 0
            },
{
    lemma_double_spacing(n, e);
    lemma_pow2_pos(e);
    lemma_rounded_quotient_is_nearest(n, pow2(e));
    let units = rounded_quotient(n, pow2(e));
    assert(in_double_precision(n) == units * pow2(e));
}

proof fn lemma_double_spacing(n: nat, e: nat)
    requires
        pow2(e) * 0x10_0000_0000_0000 <= n < pow2(e) * 0x20_0000_0000_0000,
    ensures
        double_spacing(n) == pow2(e),
    decreases e,
{
    lemma2_to64();
    if e > 0 {
        lemma_pow2_unfold(e);
        lemma_pow2_pos((e - 1) as nat);
        lemma_double_spacing(n / 2, (e - 1) as nat);
    }
}


} // verus!
