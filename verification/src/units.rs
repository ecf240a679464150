//! Rates and amounts of traffic as text. Both are shown as double precision
//! numbers are: a count is first rounded to the nearest number of that format,
//! which is exact below 2^53.

use crate::text::{
    decimal, digit, is_numeral, law_decimals_read_back, number_in, push_decimal,
};
use vstd::arithmetic::power2::{lemma2_to64, lemma_pow2_unfold, pow2};
use vstd::prelude::*;

verus! {

/// A quotient rounded to the nearest integer, a tie to the even one.
pub open spec fn round_half_even(n: nat, d: nat) -> nat
    recommends
        d > 0,
{
    let r = n % d;
    if 2 * r > d || (2 * r == d && (n / d) % 2 == 1) {
        n / d + 1
    } else {
        n / d
    }
}

/// The distance between neighbours of the double precision format at `n`: its
/// significands have 53 bits.
pub open spec fn double_spacing(n: nat) -> nat
    decreases n,
{
    if n < 0x20_0000_0000_0000 {
        1
    } else {
        2 * double_spacing(n / 2)
    }
}

/// The double precision number that is nearest to `n`, of two the one with the
/// even significand.
pub open spec fn nearest_double(n: nat) -> nat {
    round_half_even(n, double_spacing(n)) * double_spacing(n)
}

/// A rate, to the nearest integer.
pub open spec fn rate(n: u64) -> Seq<char> {
    decimal(nearest_double(n as nat))
}

/// The tenths of a kilobyte in some bytes, rounded.
pub open spec fn kilobyte_tenths(bytes: u64) -> nat {
    round_half_even(nearest_double(bytes as nat) * 10, 1024)
}

/// Some bytes in kilobytes, to one decimal place.
pub open spec fn kilobytes(bytes: u64) -> Seq<char> {
    decimal(kilobyte_tenths(bytes) / 10).push('.').push(
        digit((kilobyte_tenths(bytes) % 10) as int),
    ) + " KB"@
}

/// Divides and rounds to the nearest integer, a tie to the even one.
fn div_round_half_even(n: u128, d: u128) -> (q: u128)
    requires
        0 < d < 0x1_0000_0000_0000_0000,
        n < 0x1_0000_0000_0000_0000_0000_0000,
    ensures
        q == round_half_even(n as nat, d as nat),
{
    let q: u128 = n / d;
    let r: u128 = n % d;
    if 2 * r > d || (2 * r == d && q % 2 == 1) {
        assert(n / d <= n) by (nonlinear_arith)
            requires
                0 < d,
        ;
        q + 1
    } else {
        q
    }
}

/// Rounds to the nearest double precision number.
fn round_to_double(n: u64) -> (d: u128)
    ensures
        d == nearest_double(n as nat),
        d <= 0x2_0000_0000_0000_0000,
{
    let mut spacing: u128 = 1;
    let mut m: u64 = n;
    while m >= 0x20_0000_0000_0000
        invariant
            1 <= spacing <= 4096,
            spacing * m <= n,
            double_spacing(n as nat) == spacing * double_spacing(m as nat),
        decreases m,
    {
        let ghost wide = spacing;
        assert(wide * 2 * (m / 2) <= wide * m) by (nonlinear_arith)
            requires
                wide >= 1,
        ;
        assert(wide <= n / 0x20_0000_0000_0000) by (nonlinear_arith)
            requires
                wide * m <= n,
                m >= 0x20_0000_0000_0000,
                wide >= 1,
        ;
        assert(wide * double_spacing(m as nat) == (wide * 2) * double_spacing((m / 2) as nat))
            by (nonlinear_arith)
            requires
                double_spacing(m as nat) == 2 * double_spacing((m / 2) as nat),
        ;
        m = m / 2;
        spacing = spacing * 2;
    }
    assert(spacing * double_spacing(m as nat) == spacing) by (nonlinear_arith)
        requires
            double_spacing(m as nat) == 1,
    ;
    let q: u128 = div_round_half_even(n as u128, spacing);
    assert(q * spacing <= n + spacing) by (nonlinear_arith)
        requires
            q <= n / spacing as u64 + 1,
            1 <= spacing <= 4096,
    ;
    q * spacing
}

/// A rate, to the nearest integer.
pub fn rate_text(n: u64) -> (s: String)
    ensures
        s@ == rate(n),
{
    let mut s = String::new();
    push_decimal(&mut s, round_to_double(n));
    s
}

/// Some bytes in kilobytes, to one decimal place.
pub fn kilobytes_text(bytes: u64) -> (s: String)
    ensures
        s@ == kilobytes(bytes),
{
    let tenths: u128 = div_round_half_even(round_to_double(bytes) * 10, 1024);
    let mut s = String::new();
    push_decimal(&mut s, tenths / 10);
    s.push('.');
    push_decimal(&mut s, tenths % 10);
    s.append(" KB");
    s
}

/// The spacing at a number that is not exact is a small part of the number.
proof fn lemma_spacing_is_small(n: nat)
    ensures
        double_spacing(n) >= 1,
        n >= 0x20_0000_0000_0000 ==> double_spacing(n) * 0x10_0000_0000_0000 <= n,
    decreases n,
{
    if n >= 0x20_0000_0000_0000 {
        lemma_spacing_is_small(n / 2);
    }
}

/// Counts below 2^53 are shown exactly.
pub proof fn law_small_counts_are_exact(n: nat)
    requires
        n < 0x20_0000_0000_0000,
    ensures
        nearest_double(n) == n,
{
    assert(double_spacing(n) == 1);
    assert(round_half_even(n, 1) == n);
}

/// Rounding a count moves it across no threshold of 32 bits.
pub proof fn law_rounding_crosses_no_threshold(n: nat, threshold: u32)
    ensures
        nearest_double(n) > threshold <==> n > threshold,
{
    if n < 0x20_0000_0000_0000 {
        law_small_counts_are_exact(n);
    } else {
        lemma_spacing_is_small(n);
        let d = double_spacing(n);
        assert(round_half_even(n, d) * d >= n - d) by (nonlinear_arith)
            requires
                d >= 1,
                round_half_even(n, d) >= n / d,
        ;
    }
}

/// Whether a rate exceeds a threshold.
pub fn exceeds(n: u64, threshold: u32) -> (b: bool)
    ensures
        b == (nearest_double(n as nat) > threshold),
        b == (n > threshold),
{
    proof {
        law_rounding_crosses_no_threshold(n as nat, threshold);
    }
    n > threshold as u64
}

/// A rounded quotient is at most one half away from the quotient, and even
/// where it is one half away.
pub proof fn law_rounding_goes_to_the_nearest(n: nat, d: nat)
    requires
        d > 0,
    ensures
        ({
            let q = round_half_even(n, d);
            &&& -(d as int) <= 2 * (q * d - n) <= d
            &&& 2 * (q * d - n) == d || 2 * (n - q * d) == d ==> q % 2 == 0
        }),
{
    let r = n % d;
    let f = n / d;
    assert(n == f * d + r && 0 <= r < d) by {
        vstd::arithmetic::div_mod::lemma_fundamental_div_mod(n as int, d as int);
        assert(d * f == f * d) by (nonlinear_arith);
    }
    assert((f + 1) * d == f * d + d) by (nonlinear_arith);
}

/// The distance between neighbouring double precision numbers is one up to
/// 2^53. Above it is the power of two of which a number has between 2^52 and
/// 2^53.
pub proof fn law_significands_have_53_bits(n: nat)
    ensures
        exists|k: nat| double_spacing(n) == #[trigger] pow2(k),
        n < 0x20_0000_0000_0000 ==> double_spacing(n) == 1,
        n >= 0x20_0000_0000_0000 ==> 0x10_0000_0000_0000 * double_spacing(n) <= n
            < 0x20_0000_0000_0000 * double_spacing(n),
    decreases n,
{
    if n < 0x20_0000_0000_0000 {
        lemma2_to64();
        assert(double_spacing(n) == pow2(0));
    } else {
        law_significands_have_53_bits(n / 2);
        let k = choose|k: nat| double_spacing(n / 2) == #[trigger] pow2(k);
        lemma_pow2_unfold(k + 1);
        assert(double_spacing(n) == pow2(k + 1));
    }
}

/// A count is rounded to a double precision number, and no double precision
/// number at that distance from its neighbours is nearer to it. Of two that are
/// equally near it is the one with the even significand.
pub proof fn law_no_double_is_nearer(n: nat, q: nat)
    ensures
        ({
            let s = double_spacing(n);
            let near = nearest_double(n);
            let off = if near >= n {
                near - n
            } else {
                n - near
            };
            let other = if q * s >= n {
                q * s - n
            } else {
                n - q * s
            };
            &&& near % s == 0
            &&& 2 * off <= s
            &&& 2 * off == s ==> (near / s) % 2 == 0
            &&& off <= other
        }),
{
    lemma_spacing_is_small(n);
    let s = double_spacing(n);
    let p = round_half_even(n, s);
    law_rounding_goes_to_the_nearest(n, s);
    assert((p * s) % s == 0) by {
        vstd::arithmetic::div_mod::lemma_mod_multiples_basic(p as int, s as int);
    }
    assert((p * s) / s == p) by {
        vstd::arithmetic::div_mod::lemma_div_by_multiple(p as int, s as int);
    }
    if q > p {
        assert(q * s >= p * s + s) by (nonlinear_arith)
            requires
                q >= p + 1,
        ;
    } else if q < p {
        assert(q * s + s <= p * s) by (nonlinear_arith)
            requires
                q + 1 <= p,
        ;
    }
}

/// A rate is shown in decimal digits that stand for the rounded count, which is
/// the count itself below 2^53.
pub proof fn law_a_rate_shows_its_count(n: u64)
    ensures
        is_numeral(rate(n)),
        number_in(rate(n)) == nearest_double(n as nat),
        n < 0x20_0000_0000_0000 ==> number_in(rate(n)) == n,
{
    law_decimals_read_back(nearest_double(n as nat));
    if n < 0x20_0000_0000_0000 {
        law_small_counts_are_exact(n as nat);
    }
}

/// An amount is shown as whole kilobytes, a point, one digit of tenths and the
/// unit. The tenths are those nearest to the bytes, of which a kilobyte has
/// 1024: at most half a tenth off, and even in the middle of two.
pub proof fn law_kilobytes_are_to_the_nearest_tenth(bytes: u64)
    ensures
        ({
            let tenths = kilobyte_tenths(bytes);
            let exact = nearest_double(bytes as nat) * 10;
            &&& kilobytes(bytes) == decimal(tenths / 10) + seq!['.'] + decimal(tenths % 10)
                + seq![' ', 'K', 'B']
            &&& -512 <= tenths * 1024 - exact <= 512
            &&& tenths * 1024 - exact == 512 || tenths * 1024 - exact == -512 ==> tenths % 2 == 0
            &&& bytes < 0x20_0000_0000_0000 ==> -512 <= tenths * 1024 - bytes * 10 <= 512
        }),
{
    reveal_strlit(" KB");
    let tenths = kilobyte_tenths(bytes);
    law_rounding_goes_to_the_nearest(nearest_double(bytes as nat) * 10, 1024);
    if bytes < 0x20_0000_0000_0000 {
        law_small_counts_are_exact(bytes as nat);
    }
    assert(kilobytes(bytes) =~= decimal(tenths / 10) + seq!['.'] + decimal(tenths % 10) + seq![
        ' ',
        'K',
        'B',
    ]);
}

/// Whole kilobytes are shown as such.
pub proof fn law_whole_kilobytes_have_no_tenths(k: u64)
    requires
        k < 0x800_0000_0000,
    ensures
        kilobytes((k * 1024) as u64) == decimal(k as nat) + seq!['.', '0', ' ', 'K', 'B'],
{
    let bytes = (k * 1024) as u64;
    law_kilobytes_are_to_the_nearest_tenth(bytes);
    assert(kilobyte_tenths(bytes) == k * 10);
    assert(decimal(0) =~= seq!['0']);
    assert(kilobytes(bytes) =~= decimal(k as nat) + seq!['.', '0', ' ', 'K', 'B']);
}

} // verus!
