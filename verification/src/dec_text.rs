//! Reading a decimal number out of its text form.
//!
//! Provider documents carry numbers as JSON number text (an optional
//! sign, digits, an optional fraction, an optional exponent).  The
//! parser turns such text into an exact canonical [`Dec`], and rejects
//! text whose exact value falls outside the readable window; a
//! rejected number is treated by the normalizer like an absent field.

use vstd::prelude::*;

use crate::dec::Dec;
use crate::dec::pow10;
use crate::dec::spec_norm;
use crate::dec::normalize;
use crate::dec::readable;
use crate::dec::lemma_norm_canonical;
use crate::dec::READ_MANT_LIMIT;
use crate::dec::READ_EXP_MIN;
use crate::dec::READ_EXP_MAX;
use vstd::string::StrSliceExecFns;

verus! {

/// Mantissas of thirty-six digits or more are not readable.
pub const MANT_OVER: i128 = 1_000_000_000_000_000_000_000_000_000_000_000_000;

/// Exponent parts valued above ten thousand million are not readable.
pub const EXP_OVER: i128 = 10_000_000_001;

/// Number texts longer than a million characters are not readable.
pub const LEN_CAP: usize = 1_000_000;

/// A decimal digit.
pub open spec fn is_digit_char(c: char) -> bool {
    48 <= c as int <= 57
}

/// The numeric value of a digit.
pub open spec fn digit_val(c: char) -> int {
    c as int - 48
}

/// The first position at or after `i` that does not hold a digit.
pub open spec fn digits_end(s: Seq<char>, i: int) -> int
    decreases s.len() - i when 0 <= i <= s.len()
{
    if i < s.len() && is_digit_char(s[i]) {
        digits_end(s, i + 1)
    } else {
        i
    }
}

/// The value of the digit run `s[i..j]`.
pub open spec fn digits_val(s: Seq<char>, i: int, j: int) -> int
    decreases j - i,
{
    if i < j {
        digits_val(s, i, j - 1) * 10 + digit_val(s[j - 1])
    } else {
        0
    }
}

pub proof fn lemma_digits_end_bounds(s: Seq<char>, i: int)
    requires
        0 <= i <= s.len(),
    ensures
        i <= digits_end(s, i) <= s.len(),
        forall|k: int| i <= k < digits_end(s, i) ==> is_digit_char(#[trigger] s[k]),
        digits_end(s, i) < s.len() ==> !is_digit_char(s[digits_end(s, i)]),
    decreases s.len() - i,
{
    if i < s.len() && is_digit_char(s[i]) {
        lemma_digits_end_bounds(s, i + 1);
    }
}

pub proof fn lemma_digits_val_nonneg(s: Seq<char>, i: int, j: int)
    requires
        forall|k: int| i <= k < j ==> is_digit_char(#[trigger] s[k]),
    ensures
        digits_val(s, i, j) >= 0,
    decreases j - i,
{
    if i < j {
        lemma_digits_val_nonneg(s, i, j - 1);
        let v = digits_val(s, i, j - 1);
        assert(v * 10 >= 0) by (nonlinear_arith)
            requires
                v >= 0,
        ;
    }
}


/// Scans a digit run, extending the accumulated value `acc0` as if the
/// run continued an earlier one; `cap` bounds what is representable.
pub(crate) fn scan_digits(s: &str, n: usize, start: usize, acc0: i128, over0: bool, cap: i128) -> (r: (
    usize,
    i128,
    bool,
))
    requires
        n == s@.len(),
        start <= n,
        1 <= cap <= MANT_OVER,
        !over0 ==> 0 <= acc0 < cap,
        over0 ==> acc0 == 0,
    ensures
        r.0 == digits_end(s@, start as int),
        start <= r.0 <= n,
        ({
            let combined = acc0 * pow10((r.0 - start) as nat) + digits_val(
                s@,
                start as int,
                r.0 as int,
            );
            &&& (!r.2 ==> !over0 && r.1 == combined && 0 <= r.1 < cap)
            &&& (r.2 <==> over0 || combined >= cap)
            &&& (r.2 ==> r.1 == 0)
        }),
{
    let ghost seq = s@;
    proof {
        lemma_digits_end_bounds(seq, start as int);
    }
    let mut i: usize = start;
    let mut acc: i128 = if over0 {
        0
    } else {
        acc0
    };
    let mut over: bool = over0;
    loop
        invariant
            n == seq.len(),
            seq == s@,
            1 <= cap <= MANT_OVER,
            !over0 ==> 0 <= acc0 < cap,
            over0 ==> acc0 == 0,
            start <= i <= n,
            forall|k: int| start <= k < i ==> is_digit_char(#[trigger] seq[k]),
            digits_end(seq, start as int) == digits_end(seq, i as int),
            !over ==> !over0 && acc == acc0 * pow10((i - start) as nat) + digits_val(
                seq,
                start as int,
                i as int,
            ) && 0 <= acc < cap,
            over <==> over0 || acc0 * pow10((i - start) as nat) + digits_val(
                seq,
                start as int,
                i as int,
            ) >= cap,
            over ==> acc == 0,
        decreases n - i,
    {
        if i >= n {
            proof {
                assert(digits_end(seq, i as int) == i);
            }
            return (i, acc, over);
        }
        let c = s.get_char(i);
        let u = c as u32;
        if u < 48 || u > 57 {
            proof {
                assert(!is_digit_char(seq[i as int]));
                assert(digits_end(seq, i as int) == i);
            }
            return (i, acc, over);
        }
        proof {
            assert(is_digit_char(seq[i as int]));
            lemma_digits_val_nonneg(seq, start as int, i as int);
            let t = (i - start) as nat;
            let old_combined = acc0 * pow10(t) + digits_val(seq, start as int, i as int);
            let d = digit_val(seq[i as int]);
            assert(pow10(t + 1) == pow10(1nat + t));
            crate::dec::lemma_pow10_adds(1nat, t);
            assert(pow10(1nat) == 10) by {
                reveal_with_fuel(pow10, 2);
            };
            assert(digits_val(seq, start as int, i + 1) == digits_val(seq, start as int, i as int)
                * 10 + d);
            assert(acc0 * pow10(t + 1) + digits_val(seq, start as int, i + 1) == old_combined * 10
                + d) by (nonlinear_arith)
                requires
                    pow10(t + 1) == 10 * pow10(t),
                    digits_val(seq, start as int, i + 1) == digits_val(seq, start as int, i as int)
                        * 10 + d,
                    old_combined == acc0 * pow10(t) + digits_val(seq, start as int, i as int),
            ;
            crate::dec::lemma_pow10_pos(t);
            assert(acc0 * pow10(t) >= 0) by (nonlinear_arith)
                requires
                    acc0 >= 0 || over0,
                    pow10(t) >= 1,
                    over0 ==> acc0 == 0,
            ;
            if over {
                assert(old_combined * 10 + d >= old_combined) by (nonlinear_arith)
                    requires
                        old_combined >= 0,
                        d >= 0,
                ;
            }
        }
        let d128: i128 = (u - 48) as i128;
        if !over {
            acc = acc * 10 + d128;
            if acc >= cap {
                acc = 0;
                over = true;
            }
        }
        i = i + 1;
    }
}

/// Closes a parse: applies the sign, canonicalizes, and keeps the
/// result only when it lies in the readable window.
pub open spec fn spec_finish(neg: bool, mant_abs: int, e: int) -> Option<Dec> {
    if mant_abs >= MANT_OVER {
        None
    } else {
        let m = if neg {
            -mant_abs
        } else {
            mant_abs
        };
        let (m2, e2) = spec_norm(m, e);
        if -(READ_MANT_LIMIT as int) < m2 < READ_MANT_LIMIT as int && READ_EXP_MIN <= e2
            <= READ_EXP_MAX {
            Some(Dec { mant: m2 as i128, exp: e2 as i32 })
        } else {
            None
        }
    }
}

/// The exponent part of a number text (everything from position `k`),
/// given the absolute mantissa and fraction length already read.
pub open spec fn spec_parse_exp(s: Seq<char>, mant_abs: int, neg: bool, k: int, flen: int) -> Option<
    Dec,
> {
    let n = s.len() as int;
    if k == n {
        spec_finish(neg, mant_abs, -flen)
    } else if s[k] == 'e' || s[k] == 'E' {
        let has_sign = k + 1 < n && (s[k + 1] == '-' || s[k + 1] == '+');
        let eneg = k + 1 < n && s[k + 1] == '-';
        let e0 = if has_sign {
            k + 2
        } else {
            k + 1
        };
        let e1 = digits_end(s, e0);
        if e1 == e0 || e1 != n {
            None
        } else {
            let ev = digits_val(s, e0, e1);
            if ev >= EXP_OVER {
                None
            } else {
                spec_finish(
                    neg,
                    mant_abs,
                    (if eneg {
                        -ev
                    } else {
                        ev
                    }) - flen,
                )
            }
        }
    } else {
        None
    }
}

/// What `parse_dec` reads out of a number text: JSON number grammar,
/// evaluated exactly, kept only inside the readable window.
pub open spec fn spec_parse_dec(s: Seq<char>) -> Option<Dec> {
    let n = s.len() as int;
    if n > LEN_CAP {
        None
    } else {
        let neg = n > 0 && s[0] == '-';
        let i0: int = if neg {
            1
        } else {
            0
        };
        let i1 = digits_end(s, i0);
        if i1 == i0 {
            None
        } else {
            let iv = digits_val(s, i0, i1);
            if i1 < n && s[i1] == '.' {
                let f0 = i1 + 1;
                let f1 = digits_end(s, f0);
                if f1 == f0 {
                    None
                } else {
                    let mant_abs = iv * pow10((f1 - f0) as nat) + digits_val(s, f0, f1);
                    spec_parse_exp(s, mant_abs, neg, f1, f1 - f0)
                }
            } else {
                spec_parse_exp(s, iv, neg, i1, 0)
            }
        }
    }
}

/// Applies sign, canonicalization and the readable-window check.
fn finish_parse(neg: bool, mant_abs: i128, over: bool, e: i128, ghost_mant: Ghost<int>) -> (r:
    Option<Dec>)
    requires
        -20_000_000_000 <= e <= 20_000_000_000,
        !over ==> 0 <= mant_abs < MANT_OVER && ghost_mant@ == mant_abs,
        over ==> ghost_mant@ >= MANT_OVER,
        ghost_mant@ >= 0,
    ensures
        r == spec_finish(neg, ghost_mant@, e as int),
        match r {
            Some(d) => readable(d),
            None => true,
        },
{
    if over {
        return None;
    }
    let m: i128 = if neg {
        -mant_abs
    } else {
        mant_abs
    };
    let (m2, e2) = normalize(m, e);
    proof {
        lemma_norm_canonical(m as int, e as int);
    }
    if -READ_MANT_LIMIT < m2 && m2 < READ_MANT_LIMIT && -35 <= e2 && e2 <= 18 {
        Some(Dec { mant: m2, exp: e2 as i32 })
    } else {
        None
    }
}

/// Reads a decimal number out of its text form: an optional minus
/// sign, digits, an optional dotted fraction, an optional exponent
/// part, evaluated exactly.  Returns `None` for any other text and for
/// values outside the readable window.
pub fn parse_dec(s: &str) -> (r: Option<Dec>)
    ensures
        r == spec_parse_dec(s@),
        match r {
            Some(d) => readable(d),
            None => true,
        },
{
    let ghost seq = s@;
    let n = s.unicode_len();
    if n > LEN_CAP {
        return None;
    }
    let neg = n > 0 && s.get_char(0) == '-';
    let i0: usize = if neg {
        1
    } else {
        0
    };
    let (i1, iv, over1) = scan_digits(s, n, i0, 0, false, MANT_OVER);
    if i1 == i0 {
        return None;
    }
    proof {
        lemma_digits_end_bounds(seq, i0 as int);
        lemma_digits_val_nonneg(seq, i0 as int, i1 as int);
    }
    let ghost spec_iv = digits_val(seq, i0 as int, i1 as int);
    let mant_abs: i128;
    let over: bool;
    let k: usize;
    let flen: usize;
    let ghost mut spec_mant: int = 0;
    if i1 < n && s.get_char(i1) == '.' {
        let f0 = i1 + 1;
        let (f1, acc2, over2) = scan_digits(s, n, f0, iv, over1, MANT_OVER);
        if f1 == f0 {
            return None;
        }
        proof {
            lemma_digits_end_bounds(seq, f0 as int);
            lemma_digits_val_nonneg(seq, f0 as int, f1 as int);
            crate::dec::lemma_pow10_pos((f1 - f0) as nat);
        }
        mant_abs = acc2;
        over = over2;
        k = f1;
        flen = f1 - f0;
        proof {
            spec_mant = spec_iv * pow10((f1 - f0) as nat) + digits_val(seq, f0 as int, f1 as int);
            if over1 {
                // an oversized integer part keeps the whole mantissa oversized
                assert(spec_iv * pow10((f1 - f0) as nat) >= spec_iv) by (nonlinear_arith)
                    requires
                        spec_iv >= 0,
                        pow10((f1 - f0) as nat) >= 1,
                ;
            } else {
                assert(iv * pow10((f1 - f0) as nat) + digits_val(seq, f0 as int, f1 as int)
                    == spec_mant);
            }
        }
    } else {
        mant_abs = iv;
        over = over1;
        k = i1;
        flen = 0;
        proof {
            spec_mant = spec_iv;
        }
    }
    proof {
        assert(over <==> spec_mant >= MANT_OVER);
        assert(!over ==> mant_abs == spec_mant);
    }
    if k == n {
        return finish_parse(neg, mant_abs, over, 0 - (flen as i128), Ghost(spec_mant));
    }
    let c = s.get_char(k);
    if !(c == 'e' || c == 'E') {
        return None;
    }
    let has_sign = k + 1 < n && (s.get_char(k + 1) == '-' || s.get_char(k + 1) == '+');
    let eneg = k + 1 < n && s.get_char(k + 1) == '-';
    let e0 = if has_sign {
        k + 2
    } else {
        k + 1
    };
    let (e1, ev, eover) = scan_digits(s, n, e0, 0, false, EXP_OVER);
    if e1 == e0 || e1 != n {
        return None;
    }
    if eover {
        return None;
    }
    let e: i128 = (if eneg {
        -ev
    } else {
        ev
    }) - (flen as i128);
    proof {
        lemma_digits_end_bounds(seq, e0 as int);
        lemma_digits_val_nonneg(seq, e0 as int, e1 as int);
        assert(ev == digits_val(seq, e0 as int, e1 as int));
    }
    finish_parse(neg, mant_abs, over, e, Ghost(spec_mant))
}

} // verus!
