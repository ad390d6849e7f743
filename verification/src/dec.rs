//! Exact decimal numbers.
//!
//! Every numeric weather value in the library is a decimal
//! `mant * 10^exp` held exactly, so that the normalization policy and
//! the unit conversions can be stated and proved without rounding.

use vstd::prelude::*;

verus! {

/// Largest mantissa magnitude (exclusive) of a decimal read from a
/// provider document: eighteen significant digits.
pub const READ_MANT_LIMIT: i128 = 1_000_000_000_000_000_000;

/// Lowest exponent of a decimal read from a provider document.
pub const READ_EXP_MIN: i32 = -35;

/// Highest exponent of a decimal read from a provider document.
pub const READ_EXP_MAX: i32 = 18;

/// Sentinel mantissa: with `SENTINEL_EXP` it denotes -999.99, the
/// reserved value standing for "observation field absent or unreadable".
pub const SENTINEL_MANT: i128 = -99999;

/// Sentinel exponent.
pub const SENTINEL_EXP: i32 = -2;

/// Mathematical power of ten.
pub open spec fn pow10(n: nat) -> int
    decreases n,
{
    if n == 0 {
        1
    } else {
        10 * pow10((n - 1) as nat)
    }
}

pub proof fn lemma_pow10_pos(n: nat)
    ensures
        pow10(n) >= 1,
    decreases n,
{
    if n > 0 {
        lemma_pow10_pos((n - 1) as nat);
    }
}

pub proof fn lemma_pow10_adds(a: nat, b: nat)
    ensures
        pow10(a + b) == pow10(a) * pow10(b),
    decreases a,
{
    if a == 0 {
    } else {
        lemma_pow10_adds((a - 1) as nat, b);
        assert(pow10(a + b) == 10 * pow10((a + b - 1) as nat));
        assert(10 * (pow10((a - 1) as nat) * pow10(b)) == (10 * pow10((a - 1) as nat)) * pow10(b))
            by (nonlinear_arith);
    }
}

pub proof fn lemma_pow10_increases(a: nat, b: nat)
    requires
        a <= b,
    ensures
        pow10(a) <= pow10(b),
    decreases b,
{
    if a < b {
        lemma_pow10_increases(a, (b - 1) as nat);
        lemma_pow10_pos((b - 1) as nat);
    }
}

/// An exact decimal number `mant * 10^exp`.
#[derive(Clone, Copy, PartialEq, Eq, Structural, Debug)]
pub struct Dec {
    pub mant: i128,
    pub exp: i32,
}

/// Canonical form: a zero mantissa forces exponent zero, a nonzero
/// mantissa carries no trailing decimal zero.
pub open spec fn canonical(d: Dec) -> bool {
    if d.mant == 0 {
        d.exp == 0
    } else {
        d.mant % 10 != 0
    }
}

/// Every decimal held by the library: canonical, with an exponent kept
/// in the window that the exact conversions stay inside.
pub open spec fn dec_wf(d: Dec) -> bool {
    &&& canonical(d)
    &&& -52 <= d.exp <= 60
}

/// A decimal as read from a provider document: at most seventeen
/// significant digits past the first and a moderate exponent, so that
/// every unit conversion of it is exactly representable.
pub open spec fn readable(d: Dec) -> bool {
    &&& canonical(d)
    &&& -(READ_MANT_LIMIT as int) < d.mant < READ_MANT_LIMIT as int
    &&& READ_EXP_MIN <= d.exp <= READ_EXP_MAX
}


/// The value of a decimal, scaled by 10^60 so that it is an integer
/// for every well-formed decimal.
pub open spec fn dec_val(d: Dec) -> int {
    if d.exp + 60 >= 0 {
        d.mant * pow10((d.exp + 60) as nat)
    } else {
        0
    }
}

/// The sentinel decimal, -999.99.
pub open spec fn spec_sentinel() -> Dec {
    Dec { mant: SENTINEL_MANT, exp: SENTINEL_EXP }
}

/// Returns the sentinel decimal -999.99.
pub fn sentinel() -> (r: Dec)
    ensures
        r == spec_sentinel(),
        readable(r),
{
    Dec { mant: SENTINEL_MANT, exp: SENTINEL_EXP }
}

/// The decimal zero.
pub open spec fn spec_zero() -> Dec {
    Dec { mant: 0, exp: 0 }
}

/// Returns the decimal zero.
pub fn zero() -> (r: Dec)
    ensures
        r == spec_zero(),
        readable(r),
{
    Dec { mant: 0, exp: 0 }
}

/// Canonicalization of a mantissa/exponent pair: trailing decimal
/// zeros move from the mantissa into the exponent.
pub open spec fn spec_norm(m: int, e: int) -> (int, int)
    decreases vstd::math::abs(m),
{
    if m == 0 {
        (0, 0)
    } else if m % 10 == 0 {
        spec_norm(m / 10, e + 1)
    } else {
        (m, e)
    }
}

pub proof fn lemma_norm_canonical(m: int, e: int)
    ensures
        ({
            let (m2, e2) = spec_norm(m, e);
            &&& (m2 == 0 ==> e2 == 0)
            &&& (m2 != 0 ==> m2 % 10 != 0)
        }),
    decreases vstd::math::abs(m),
{
    if m != 0 && m % 10 == 0 {
        lemma_norm_canonical(m / 10, e + 1);
    }
}


/// Canonicalization preserves the scaled value.
pub proof fn lemma_norm_preserves_val(m: int, e: int, s: int)
    requires
        e + s >= 0,
    ensures
        ({
            let (m2, e2) = spec_norm(m, e);
            &&& e2 + s >= 0 || m2 == 0
            &&& (m2 != 0 ==> m2 * pow10((e2 + s) as nat) == m * pow10((e + s) as nat))
            &&& (m2 == 0 ==> m == 0)
        }),
    decreases vstd::math::abs(m),
{
    if m == 0 {
    } else if m % 10 == 0 {
        lemma_norm_preserves_val(m / 10, e + 1, s);
        let (m2, e2) = spec_norm(m, e);
        if m2 != 0 {
            assert(m == 10 * (m / 10));
            assert(pow10((e + 1 + s) as nat) == pow10(1nat + (e + s) as nat));
            lemma_pow10_adds(1nat, (e + s) as nat);
            assert(pow10(1nat) == 10) by {
                reveal_with_fuel(pow10, 2);
            };
            assert((m / 10) * (10 * pow10((e + s) as nat)) == (10 * (m / 10)) * pow10(
                (e + s) as nat,
            )) by (nonlinear_arith);
        } else {
            assert(m / 10 == 0);
            assert(m == 10 * (m / 10));
        }
    }
}

/// The numeric value of `pow10(37)`, needed for overflow bounds.
pub proof fn lemma_pow10_37()
    ensures
        pow10(37) == 10_000_000_000_000_000_000_000_000_000_000_000_000int,
{
    reveal_with_fuel(pow10, 38);
}

/// Computes a small power of ten.
pub fn pow10_i128(n: u32) -> (r: i128)
    requires
        n <= 37,
    ensures
        r == pow10(n as nat),
{
    proof {
        lemma_pow10_37();
    }
    let mut acc: i128 = 1;
    let mut i: u32 = 0;
    while i < n
        invariant
            i <= n <= 37,
            acc == pow10(i as nat),
        decreases n - i,
    {
        proof {
            lemma_pow10_pos(i as nat);
            lemma_pow10_increases((i + 1) as nat, 37nat);
            lemma_pow10_37();
            assert(pow10((i + 1) as nat) == 10 * pow10(i as nat));
            assert(acc * 10 == 10 * pow10(i as nat));
        }
        acc = acc * 10;
        i = i + 1;
    }
    acc
}

/// The numeric value of `pow10(39)`, needed for overflow bounds.
pub proof fn lemma_pow10_39()
    ensures
        pow10(39) == 1_000_000_000_000_000_000_000_000_000_000_000_000_000int,
{
    reveal_with_fuel(pow10, 40);
}

/// Numeric values of the small powers of ten that the overflow bounds
/// of the conversions lean on.
pub proof fn lemma_pow10_vals()
    ensures
        pow10(17) == 100_000_000_000_000_000int,
        pow10(36) == 1_000_000_000_000_000_000_000_000_000_000_000_000int,
{
    reveal_with_fuel(pow10, 37);
}

/// Canonicalizes a mantissa/exponent pair.
pub fn normalize(m0: i128, e0: i128) -> (r: (i128, i128))
    requires
        -1_000_000_000_000 <= e0 <= 1_000_000_000_000,
    ensures
        (r.0 as int, r.1 as int) == spec_norm(m0 as int, e0 as int),
        e0 <= r.1 || r.0 == 0,
        r.1 <= e0 + 39 || r.0 == 0,
        (r.0 == 0 ==> r.1 == 0),
        vstd::math::abs(r.0 as int) <= vstd::math::abs(m0 as int),
{
    proof {
        lemma_pow10_39();
        assert(vstd::math::abs(m0 as int) < pow10(39nat));
    }
    let mut m: i128 = m0;
    let mut e: i128 = e0;
    while m != 0 && m % 10 == 0
        invariant
            -1_000_000_000_000 <= e0 <= 1_000_000_000_000,
            spec_norm(m as int, e as int) == spec_norm(m0 as int, e0 as int),
            vstd::math::abs(m as int) <= vstd::math::abs(m0 as int),
            m != 0 ==> e0 <= e && vstd::math::abs(m as int) * pow10((e - e0) as nat)
                <= vstd::math::abs(m0 as int),
            m != 0 ==> e <= e0 + 39,
            m == 0 ==> m0 == 0 && e == e0,
        decreases vstd::math::abs(m as int),
    {
        proof {
            assert(m as int != 0 && (m as int) % 10 == 0);
            assert((m as int) == 10 * ((m as int) / 10));
            assert(m / 10 != 0);
            let a = vstd::math::abs(m as int);
            let a2 = vstd::math::abs((m as int) / 10);
            assert(a == 10 * a2);
            let k = (e - e0) as nat;
            lemma_pow10_adds(1nat, k);
            assert(pow10(1nat) == 10) by {
                reveal_with_fuel(pow10, 2);
            };
            assert(a2 * pow10(k + 1) == a2 * (10 * pow10(k))) by {
                assert(pow10(k + 1) == pow10(1nat + k));
            };
            assert(a2 * (10 * pow10(k)) == (10 * a2) * pow10(k)) by (nonlinear_arith);
            // the exponent stays within 39 steps of where it began
            lemma_pow10_pos(k);
            assert(a2 >= 1);
            assert(pow10(k + 1) <= a2 * pow10(k + 1)) by (nonlinear_arith)
                requires
                    a2 >= 1,
                    pow10(k + 1) >= 1,
            ;
            if e + 1 > e0 + 39 {
                lemma_pow10_increases(40nat, k + 1);
                lemma_pow10_39();
                assert(pow10(40nat) == 10 * pow10(39nat));
                assert(false);
            }
        }
        m = m / 10;
        e = e + 1;
    }
    if m == 0 {
        proof {
            assert(spec_norm(m as int, e as int) == (0int, 0int));
        }
        (0, 0)
    } else {
        (m, e)
    }
}

/// Two well-formed decimals with the same value are the same decimal:
/// the canonical form is a unique representation.
pub proof fn lemma_val_injective(a: Dec, b: Dec)
    requires
        dec_wf(a),
        dec_wf(b),
        dec_val(a) == dec_val(b),
    ensures
        a == b,
{
    let sa = (a.exp + 60) as nat;
    let sb = (b.exp + 60) as nat;
    lemma_pow10_pos(sa);
    lemma_pow10_pos(sb);
    if a.mant == 0 {
        assert(a.mant * pow10(sa) == 0) by (nonlinear_arith)
            requires
                a.mant == 0,
        ;
        assert(b.mant == 0) by (nonlinear_arith)
            requires
                b.mant * pow10(sb) == 0,
                pow10(sb) >= 1,
        ;
    } else if b.mant == 0 {
        assert(b.mant * pow10(sb) == 0) by (nonlinear_arith)
            requires
                b.mant == 0,
        ;
        assert(a.mant == 0) by (nonlinear_arith)
            requires
                a.mant * pow10(sa) == 0,
                pow10(sa) >= 1,
        ;
    } else {
        if sa <= sb {
            lemma_val_injective_ordered(a.mant as int, sa, b.mant as int, sb);
        } else {
            lemma_val_injective_ordered(b.mant as int, sb, a.mant as int, sa);
        }
    }
}

/// Helper for `lemma_val_injective`: the ordered, nonzero case.
proof fn lemma_val_injective_ordered(ma: int, sa: nat, mb: int, sb: nat)
    requires
        ma != 0,
        mb != 0,
        ma % 10 != 0,
        mb % 10 != 0,
        sa <= sb,
        ma * pow10(sa) == mb * pow10(sb),
    ensures
        ma == mb,
        sa == sb,
{
    let d = (sb - sa) as nat;
    lemma_pow10_adds(d, sa);
    lemma_pow10_pos(sa);
    lemma_pow10_pos(d);
    assert(mb * pow10(sb) == (mb * pow10(d)) * pow10(sa)) by (nonlinear_arith)
        requires
            pow10(sb) == pow10(d) * pow10(sa),
    ;
    assert(ma == mb * pow10(d)) by (nonlinear_arith)
        requires
            ma * pow10(sa) == (mb * pow10(d)) * pow10(sa),
            pow10(sa) >= 1,
    ;
    if d > 0 {
        assert(pow10(d) == 10 * pow10((d - 1) as nat));
        assert(ma == 10 * (mb * pow10((d - 1) as nat))) by (nonlinear_arith)
            requires
                ma == mb * (10 * pow10((d - 1) as nat)),
        ;
        assert(ma % 10 == 0);
        assert(false);
    }
    assert(pow10(0nat) == 1);
}

/// Whether a decimal is the sentinel -999.99.
pub open spec fn is_sentinel(d: Dec) -> bool {
    d == spec_sentinel()
}

/// Fahrenheit from Celsius: on non-sentinel input, `r == c * 9/5 + 32`
/// exactly, stated over values scaled by 10^60.
pub open spec fn fahrenheit_rel(c: Dec, r: Dec) -> bool {
    if is_sentinel(c) {
        r == spec_sentinel()
    } else {
        dec_wf(r) && 10 * dec_val(r) == 18 * dec_val(c) + 32 * pow10(61)
    }
}

/// Miles per hour from kilometres per hour: on non-sentinel input,
/// `r == c * 0.6213712` exactly.
pub open spec fn mph_rel(c: Dec, r: Dec) -> bool {
    if is_sentinel(c) {
        r == spec_sentinel()
    } else {
        dec_wf(r) && pow10(7) * dec_val(r) == 6213712 * dec_val(c)
    }
}

/// Inches of mercury from pascals: on non-sentinel input,
/// `r == c * 0.00029529983071445` exactly.
pub open spec fn inhg_rel(c: Dec, r: Dec) -> bool {
    if is_sentinel(c) {
        r == spec_sentinel()
    } else {
        dec_wf(r) && pow10(17) * dec_val(r) == 29529983071445 * dec_val(c)
    }
}

/// Feet from metres: on non-sentinel input, `r == c * 3.28084` exactly.
pub open spec fn feet_rel(c: Dec, r: Dec) -> bool {
    if is_sentinel(c) {
        r == spec_sentinel()
    } else {
        dec_wf(r) && pow10(5) * dec_val(r) == 328084 * dec_val(c)
    }
}

/// Multiplies a readable decimal by `k * 10^-s` exactly and
/// canonicalizes the result.
fn scale_mul(c: Dec, k: i128, s: u32) -> (r: Dec)
    requires
        readable(c),
        1 <= k < 100_000_000_000_000,
        s <= 17,
    ensures
        dec_wf(r),
        pow10(s as nat) * dec_val(r) == k * dec_val(c),
        c.mant == 0 ==> r == spec_zero(),
{
    proof {
        lemma_pow10_39();
        assert(-100_000_000_000_000_000_000_000_000_000_000i128 as int <= c.mant * k
            <= 100_000_000_000_000_000_000_000_000_000_000i128 as int) by (nonlinear_arith)
            requires
                -1_000_000_000_000_000_000 < c.mant < 1_000_000_000_000_000_000,
                1 <= k < 100_000_000_000_000,
        ;
    }
    let m: i128 = c.mant * k;
    proof {
        assert(c.mant == 0 ==> m == 0) by (nonlinear_arith)
            requires
                m == c.mant * k,
        ;
        assert(spec_norm(0int, c.exp - s) == (0int, 0int));
    }
    let e: i128 = (c.exp as i128) - (s as i128);
    let (m2, e2) = normalize(m, e);
    proof {
        lemma_norm_canonical(m as int, e as int);
        lemma_norm_preserves_val(m as int, e as int, 60);
        let shift = (e + 60) as nat;
        lemma_pow10_adds(s as nat, shift);
        lemma_pow10_pos(shift);
        assert(pow10(s as nat + shift) == pow10((c.exp + 60) as nat));
        assert(pow10(s as nat) * (m * pow10(shift)) == (c.mant * k) * (pow10(s as nat) * pow10(
            shift,
        ))) by (nonlinear_arith)
            requires
                m == c.mant * k,
        ;
        assert((c.mant * k) * (pow10(s as nat) * pow10(shift)) == k * (c.mant * pow10(
            s as nat + shift,
        ))) by (nonlinear_arith)
            requires
                pow10(s as nat) * pow10(shift) == pow10(s as nat + shift),
        ;
        if m2 != 0 {
            assert(m2 * pow10((e2 + 60) as nat) == m * pow10(shift));
            assert(pow10(s as nat) * (m2 * pow10((e2 + 60) as nat)) == pow10(s as nat) * (m * pow10(
                shift,
            )));
        } else {
            assert(m == 0);
            assert(c.mant * k == 0);
            assert(c.mant == 0) by (nonlinear_arith)
                requires
                    c.mant * k == 0,
                    k >= 1,
            ;
        }
    }
    Dec { mant: m2, exp: e2 as i32 }
}

/// Law: each unit conversion is a pure function — two results of the
/// same input are the same decimal — and the sentinel always converts
/// to the sentinel, never to an arithmetic value.
pub proof fn lemma_conversions_deterministic(c: Dec, r1: Dec, r2: Dec)
    ensures
        fahrenheit_rel(c, r1) && fahrenheit_rel(c, r2) ==> r1 == r2,
        mph_rel(c, r1) && mph_rel(c, r2) ==> r1 == r2,
        inhg_rel(c, r1) && inhg_rel(c, r2) ==> r1 == r2,
        feet_rel(c, r1) && feet_rel(c, r2) ==> r1 == r2,
        is_sentinel(c) && fahrenheit_rel(c, r1) ==> is_sentinel(r1),
        is_sentinel(c) && mph_rel(c, r1) ==> is_sentinel(r1),
        is_sentinel(c) && inhg_rel(c, r1) ==> is_sentinel(r1),
        is_sentinel(c) && feet_rel(c, r1) ==> is_sentinel(r1),
{
    if !is_sentinel(c) {
        if fahrenheit_rel(c, r1) && fahrenheit_rel(c, r2) {
            assert(dec_val(r1) == dec_val(r2));
            lemma_val_injective(r1, r2);
        }
        lemma_pow10_pos(7nat);
        lemma_pow10_pos(17nat);
        lemma_pow10_pos(5nat);
        if mph_rel(c, r1) && mph_rel(c, r2) {
            assert(dec_val(r1) == dec_val(r2)) by (nonlinear_arith)
                requires
                    pow10(7) * dec_val(r1) == 6213712 * dec_val(c),
                    pow10(7) * dec_val(r2) == 6213712 * dec_val(c),
                    pow10(7) >= 1,
            ;
            lemma_val_injective(r1, r2);
        }
        if inhg_rel(c, r1) && inhg_rel(c, r2) {
            assert(dec_val(r1) == dec_val(r2)) by (nonlinear_arith)
                requires
                    pow10(17) * dec_val(r1) == 29529983071445 * dec_val(c),
                    pow10(17) * dec_val(r2) == 29529983071445 * dec_val(c),
                    pow10(17) >= 1,
            ;
            lemma_val_injective(r1, r2);
        }
        if feet_rel(c, r1) && feet_rel(c, r2) {
            assert(dec_val(r1) == dec_val(r2)) by (nonlinear_arith)
                requires
                    pow10(5) * dec_val(r1) == 328084 * dec_val(c),
                    pow10(5) * dec_val(r2) == 328084 * dec_val(c),
                    pow10(5) >= 1,
            ;
            lemma_val_injective(r1, r2);
        }
    }
}

/// Converts Celsius to Fahrenheit exactly; the sentinel converts to
/// the sentinel, never to an arithmetic result.
pub fn fahrenheit(c: Dec) -> (r: Dec)
    requires
        readable(c),
    ensures
        fahrenheit_rel(c, r),
{
    if c == sentinel() {
        return sentinel();
    }
    proof {
        lemma_pow10_37();
        lemma_pow10_39();
    }
    let m: i128;
    let e: i128;
    if c.exp <= 1 {
        let shift: u32 = (1 - c.exp) as u32;
        proof {
            lemma_pow10_pos(shift as nat);
            lemma_pow10_increases(shift as nat, 36nat);
            lemma_pow10_vals();
        }
        m = 18 * c.mant + 32 * pow10_i128(shift);
        e = (c.exp as i128) - 1;
    } else {
        let shift: u32 = (c.exp - 1) as u32;
        proof {
            lemma_pow10_pos(shift as nat);
            lemma_pow10_increases(shift as nat, 17nat);
            lemma_pow10_vals();
        }
        let p = pow10_i128(shift);
        proof {
            assert(-18_000_000_000_000_000_000_000_000_000_000_000_000i128 as int <= 18 * c.mant
                * p <= 18_000_000_000_000_000_000_000_000_000_000_000_000i128 as int)
                by (nonlinear_arith)
                requires
                    -1_000_000_000_000_000_000 < c.mant < 1_000_000_000_000_000_000,
                    1 <= p <= 100_000_000_000_000_000,
            ;
        }
        m = 18 * c.mant * p + 32;
        e = 0;
    }
    let (m2, e2) = normalize(m, e);
    proof {
        lemma_norm_canonical(m as int, e as int);
        lemma_norm_preserves_val(m as int, e as int, 60);
        lemma_fahrenheit_algebra(c, m as int, e as int);
        if m2 != 0 {
            assert(m2 * pow10((e2 + 60) as nat) == m * pow10((e + 60) as nat));
        } else {
            assert(m == 0);
        }
    }
    Dec { mant: m2, exp: e2 as i32 }
}

/// The pre-normalization mantissa built by `fahrenheit` carries the
/// exact scaled value `1.8 * c + 32`.
proof fn lemma_fahrenheit_algebra(c: Dec, m: int, e: int)
    requires
        readable(c),
        c.exp <= 1 ==> m == 18 * c.mant + 32 * pow10((1 - c.exp) as nat) && e == c.exp - 1,
        c.exp > 1 ==> m == 18 * c.mant * pow10((c.exp - 1) as nat) + 32 && e == 0,
    ensures
        10 * (m * pow10((e + 60) as nat)) == 18 * dec_val(c) + 32 * pow10(61),
{
    let cshift = (c.exp + 60) as nat;
    if c.exp <= 1 {
        let k = (1 - c.exp) as nat;
        let eshift = (e + 60) as nat;
        lemma_pow10_adds(k, eshift);
        assert(k + eshift == 60);
        assert(1nat + eshift == cshift);
        lemma_pow10_adds(1nat, eshift);
        assert(pow10(1nat) == 10) by {
            reveal_with_fuel(pow10, 2);
        };
        assert(pow10(61) == 10 * pow10(60)) by {
            assert(pow10(61) == 10 * pow10(60nat));
        };
        assert(10 * ((18 * c.mant + 32 * pow10(k)) * pow10(eshift)) == 18 * (c.mant * (10 * pow10(
            eshift,
        ))) + 32 * (10 * (pow10(k) * pow10(eshift)))) by (nonlinear_arith);
        assert(c.mant * (10 * pow10(eshift)) == c.mant * pow10(cshift));
        assert(10 * (pow10(k) * pow10(eshift)) == 10 * pow10(60nat));
    } else {
        let k = (c.exp - 1) as nat;
        assert(k + 60 + 1 == cshift + 0);
        lemma_pow10_adds(k, 60nat);
        lemma_pow10_adds(1nat, (k + 60) as nat);
        assert(pow10(1nat) == 10) by {
            reveal_with_fuel(pow10, 2);
        };
        assert(pow10(61) == 10 * pow10(60)) by {
            assert(pow10(61) == 10 * pow10(60nat));
        };
        assert(cshift == k + 60 + 1);
        assert(pow10(cshift) == pow10(1nat + (k + 60) as nat));
        assert(pow10(cshift) == 10 * (pow10(k) * pow10(60nat)));
        assert(10 * ((18 * c.mant * pow10(k) + 32) * pow10(60nat)) == 18 * (c.mant * (10 * (pow10(
            k,
        ) * pow10(60nat)))) + 32 * (10 * pow10(60nat))) by (nonlinear_arith);
    }
}

/// Converts kilometres per hour to miles per hour exactly; the
/// sentinel converts to the sentinel.
pub fn mph(c: Dec) -> (r: Dec)
    requires
        readable(c),
    ensures
        mph_rel(c, r),
{
    if c == sentinel() {
        return sentinel();
    }
    scale_mul(c, 6213712, 7)
}

/// Converts pascals to inches of mercury exactly; the sentinel
/// converts to the sentinel.
pub fn inhg(c: Dec) -> (r: Dec)
    requires
        readable(c),
    ensures
        inhg_rel(c, r),
{
    if c == sentinel() {
        return sentinel();
    }
    scale_mul(c, 29529983071445, 17)
}

/// Converts metres to feet exactly; the sentinel converts to the
/// sentinel.
pub fn feet(c: Dec) -> (r: Dec)
    requires
        readable(c),
    ensures
        feet_rel(c, r),
        c.mant == 0 ==> r == spec_zero(),
{
    if c == sentinel() {
        return sentinel();
    }
    scale_mul(c, 328084, 5)
}

} // verus!
