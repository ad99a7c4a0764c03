//! Truncation of JSON numeric text toward zero.
//!
//! Timestamps arrive as integer or floating-point JSON numbers. The floating
//! forms are truncated toward zero; values outside the 64-bit signed range
//! saturate at the range's ends; non-numeric text yields nothing.

use vstd::prelude::*;

use crate::strutil::subvec;

verus! {

/// A decimal digit.
pub open spec fn is_digit(c: char) -> bool {
    48 <= c as int && c as int <= 57
}

/// The value of one decimal digit.
pub open spec fn digit_val(c: char) -> int {
    c as int - 48
}

/// The value of a digit string, most significant first.
pub open spec fn digits_val(s: Seq<char>) -> int
    decreases s.len(),
{
    if s.len() == 0 {
        0
    } else {
        digits_val(s.drop_last()) * 10 + digit_val(s.last())
    }
}

/// Every character is a decimal digit.
pub open spec fn all_digits(s: Seq<char>) -> bool {
    forall|k: int| 0 <= k < s.len() ==> is_digit(s[k])
}

/// Ten to the `n`.
pub open spec fn pow10(n: nat) -> int
    decreases n,
{
    if n == 0 {
        1
    } else {
        10 * pow10((n - 1) as nat)
    }
}

/// The end of the digit run that starts at `i`.
pub open spec fn digit_run_end(s: Seq<char>, i: int) -> int
    decreases s.len() - i,
    when 0 <= i <= s.len()
{
    if i < s.len() && is_digit(s[i]) {
        digit_run_end(s, i + 1)
    } else {
        i
    }
}

proof fn lemma_run_end_props(s: Seq<char>, i: int)
    requires
        0 <= i <= s.len(),
    ensures
        i <= digit_run_end(s, i) <= s.len(),
        forall|k: int| i <= k < digit_run_end(s, i) ==> is_digit(s[k]),
        digit_run_end(s, i) == s.len() || !is_digit(s[digit_run_end(s, i)]),
    decreases s.len() - i,
{
    if i < s.len() && is_digit(s[i]) {
        lemma_run_end_props(s, i + 1);
    }
}

proof fn lemma_digits_val_nonneg(s: Seq<char>)
    requires
        all_digits(s),
    ensures
        digits_val(s) >= 0,
    decreases s.len(),
{
    if s.len() > 0 {
        assert(all_digits(s.drop_last()));
        lemma_digits_val_nonneg(s.drop_last());
        assert(digits_val(s.drop_last()) * 10 >= 0) by (nonlinear_arith)
            requires
                digits_val(s.drop_last()) >= 0,
        ;
    }
}

proof fn lemma_pow10_pos(n: nat)
    ensures
        pow10(n) >= 1,
    decreases n,
{
    if n > 0 {
        lemma_pow10_pos((n - 1) as nat);
    }
}

proof fn lemma_pow10_mono(a: nat, b: nat)
    requires
        a <= b,
    ensures
        pow10(a) <= pow10(b),
    decreases b,
{
    if a < b {
        lemma_pow10_mono(a, (b - 1) as nat);
        lemma_pow10_pos((b - 1) as nat);
    }
}

/// The magnitude of `d` (a digit string) with the decimal point placed after
/// position `point`: the integer part, truncated toward zero.
pub open spec fn spec_trunc_mag(d: Seq<char>, point: int) -> int {
    if point <= 0 {
        0
    } else if point <= d.len() {
        digits_val(d.subrange(0, point))
    } else {
        digits_val(d) * pow10((point - d.len()) as nat)
    }
}

/// Decomposes JSON numeric text into sign, mantissa digits and the position
/// of the decimal point after the exponent is applied. Nothing for
/// non-numeric text.
pub open spec fn spec_number_parts(s: Seq<char>) -> Option<(bool, Seq<char>, int)> {
    let neg = s.len() > 0 && s[0] == '-';
    let b: int = if neg {
        1
    } else {
        0
    };
    let ie = digit_run_end(s, b);
    if ie == b {
        None
    } else if ie < s.len() && s[ie] == '.' && digit_run_end(s, ie + 1) == ie + 1 {
        None
    } else {
        let fe = if ie < s.len() && s[ie] == '.' {
            digit_run_end(s, ie + 1)
        } else {
            ie
        };
        let mantissa = if ie < s.len() && s[ie] == '.' {
            s.subrange(b, ie) + s.subrange(ie + 1, fe)
        } else {
            s.subrange(b, ie)
        };
        let ilen = ie - b;
        if fe == s.len() {
            Some((neg, mantissa, ilen))
        } else if s[fe] == 'e' || s[fe] == 'E' {
            let esigned = fe + 1 < s.len() && (s[fe + 1] == '-' || s[fe + 1] == '+');
            let eb = if esigned {
                fe + 2
            } else {
                fe + 1
            };
            let ee = digit_run_end(s, eb);
            if ee == eb || ee != s.len() {
                None
            } else {
                let e = digits_val(s.subrange(eb, ee));
                if fe + 1 < s.len() && s[fe + 1] == '-' {
                    Some((neg, mantissa, ilen - e))
                } else {
                    Some((neg, mantissa, ilen + e))
                }
            }
        } else {
            None
        }
    }
}

/// The numeric text truncated toward zero, as an unbounded integer.
pub open spec fn spec_number_trunc(s: Seq<char>) -> Option<int> {
    match spec_number_parts(s) {
        None => None,
        Some((neg, d, p)) => Some(
            if neg {
                -spec_trunc_mag(d, p)
            } else {
                spec_trunc_mag(d, p)
            },
        ),
    }
}

/// `v` forced into the 64-bit signed range.
pub open spec fn clamp_i64(v: int) -> i64 {
    if v > i64::MAX {
        i64::MAX
    } else if v < i64::MIN {
        i64::MIN
    } else {
        v as i64
    }
}

/// Positional saturation bound for exponents: far beyond any index a string
/// can have, so a saturated exponent still lands in the same outcome.
const EXP_CAP: i128 = 1000000000000000000000000000000;

/// One past the largest 64-bit signed magnitude.
const MAG_CAP: u128 = 9223372036854775808;

proof fn lemma_digits_val_step(s: Seq<char>, k: int)
    requires
        0 <= k < s.len(),
    ensures
        digits_val(s.subrange(0, k + 1)) == digits_val(s.subrange(0, k)) * 10 + digit_val(s[k]),
{
    assert(s.subrange(0, k + 1).drop_last() =~= s.subrange(0, k));
    assert(s.subrange(0, k + 1).last() == s[k]);
}

proof fn lemma_digits_val_grows(v: int, d: int)
    requires
        v >= 0,
        d >= 0,
    ensures
        v * 10 + d >= v,
{
}

/// Executable test for `is_digit`.
fn is_digit_char(c: char) -> (r: bool)
    ensures
        r == is_digit(c),
{
    let u = c as u32;
    48 <= u && u <= 57
}

/// The end of the digit run of `s` that starts at `from`.
fn digit_run_end_exec(s: &Vec<char>, from: usize) -> (r: usize)
    requires
        from <= s@.len(),
    ensures
        r == digit_run_end(s@, from as int),
        from <= r <= s@.len(),
{
    let mut i: usize = from;
    while i < s.len() && is_digit_char(s[i])
        invariant
            from <= i <= s@.len(),
            s@.len() == s.len(),
            digit_run_end(s@, from as int) == digit_run_end(s@, i as int),
        decreases s@.len() - i,
    {
        i = i + 1;
    }
    i
}

/// The value of the digit run `s[from..to]`, saturated at `EXP_CAP`.
fn accumulate_exp(s: &Vec<char>, from: usize, to: usize) -> (e: i128)
    requires
        from <= to <= s@.len(),
        forall|k: int| from <= k < to ==> is_digit(s@[k]),
    ensures
        0 <= e <= EXP_CAP,
        e < EXP_CAP ==> e == digits_val(s@.subrange(from as int, to as int)),
        e == EXP_CAP ==> digits_val(s@.subrange(from as int, to as int)) >= EXP_CAP,
{
    let ghost whole = s@.subrange(from as int, to as int);
    let mut e: i128 = 0;
    let mut k: usize = from;
    while k < to
        invariant
            from <= k <= to <= s@.len(),
            s@.len() == s.len(),
            forall|x: int| from <= x < to ==> is_digit(s@[x]),
            0 <= e <= EXP_CAP,
            e < EXP_CAP ==> e == digits_val(s@.subrange(from as int, k as int)),
            e == EXP_CAP ==> digits_val(s@.subrange(from as int, k as int)) >= EXP_CAP,
        decreases to - k,
    {
        let d: i128 = (s[k] as u32 - 48) as i128;
        proof {
            let pre = s@.subrange(from as int, k as int);
            assert(all_digits(pre));
            lemma_digits_val_nonneg(pre);
            assert(s@.subrange(from as int, k + 1).drop_last() =~= pre);
            assert(s@.subrange(from as int, k + 1).last() == s@[k as int]);
            if e == EXP_CAP {
                lemma_digits_val_grows(digits_val(pre), digit_val(s@[k as int]));
            }
        }
        let na = e * 10 + d;
        if na >= EXP_CAP {
            e = EXP_CAP;
        } else {
            e = na;
        }
        k = k + 1;
    }
    proof {
        assert(s@.subrange(from as int, to as int) == s@.subrange(from as int, k as int));
    }
    e
}

/// The value of the digit prefix `m[0..take]`, saturated one past the 64-bit
/// signed magnitude: the flag says the true value exceeds that bound.
fn accumulate_mag(m: &Vec<char>, take: usize) -> (r: (u128, bool))
    requires
        take <= m@.len(),
        all_digits(m@),
    ensures
        !r.1 ==> r.0 as int == digits_val(m@.subrange(0, take as int)) && r.0 <= MAG_CAP,
        r.1 ==> digits_val(m@.subrange(0, take as int)) > MAG_CAP as int,
{
    let mut acc: u128 = 0;
    let mut big = false;
    let mut k: usize = 0;
    while k < take
        invariant
            k <= take <= m@.len(),
            m@.len() == m.len(),
            all_digits(m@),
            !big ==> acc as int == digits_val(m@.subrange(0, k as int)) && acc <= MAG_CAP,
            big ==> digits_val(m@.subrange(0, k as int)) > MAG_CAP as int,
        decreases take - k,
    {
        let d: u128 = (m[k] as u32 - 48) as u128;
        proof {
            let pre = m@.subrange(0, k as int);
            assert(all_digits(pre));
            lemma_digits_val_nonneg(pre);
            lemma_digits_val_step(m@, k as int);
            if big {
                lemma_digits_val_grows(digits_val(pre), digit_val(m@[k as int]));
            }
        }
        if !big {
            let na = acc * 10 + d;
            if na > MAG_CAP {
                big = true;
            } else {
                acc = na;
            }
        }
        k = k + 1;
    }
    (acc, big)
}

/// Truncates JSON numeric text toward zero: the integer whose digits precede
/// the decimal point once the exponent is applied, saturated at the ends of
/// the 64-bit signed range. Nothing for non-numeric text.
#[verifier::rlimit(100)]
pub fn number_text_trunc(s: &Vec<char>) -> (r: Option<i64>)
    ensures
        r == match spec_number_trunc(s@) {
            None => None::<i64>,
            Some(v) => Some(clamp_i64(v)),
        },
{
    let n = s.len();
    let neg = n > 0 && s[0] == '-';
    let b: usize = if neg {
        1
    } else {
        0
    };
    let ie = digit_run_end_exec(s, b);
    proof {
        lemma_run_end_props(s@, b as int);
    }
    if ie == b {
        return None;
    }
    let has_dot = ie < n && s[ie] == '.';
    let fe: usize = if has_dot {
        digit_run_end_exec(s, ie + 1)
    } else {
        ie
    };
    proof {
        if has_dot {
            lemma_run_end_props(s@, ie + 1);
        }
    }
    if has_dot && fe == ie + 1 {
        return None;
    }
    let mut mantissa = subvec(s, b, ie);
    if has_dot {
        let mut frac = subvec(s, ie + 1, fe);
        mantissa.append(&mut frac);
    }
    let ghost md = mantissa@;
    proof {
        assert(all_digits(md));
    }
    let ilen: usize = ie - b;
    // The decimal point's position among the mantissa digits, after the
    // exponent is applied; saturation far beyond any string index keeps the
    // outcome in the same regime as the unbounded value.
    let mut point: i128 = ilen as i128;
    let ghost mut pt: int = ilen as int;
    if fe < n {
        if !(s[fe] == 'e' || s[fe] == 'E') {
            return None;
        }
        let esigned = fe + 1 < n && (s[fe + 1] == '-' || s[fe + 1] == '+');
        let eneg = fe + 1 < n && s[fe + 1] == '-';
        let eb: usize = if esigned {
            fe + 2
        } else {
            fe + 1
        };
        let ee = digit_run_end_exec(s, eb);
        proof {
            lemma_run_end_props(s@, eb as int);
        }
        if ee == eb || ee != n {
            return None;
        }
        let e = accumulate_exp(s, eb, ee);
        let ghost etrue = digits_val(s@.subrange(eb as int, ee as int));
        proof {
            lemma_digits_val_nonneg(s@.subrange(eb as int, ee as int));
        }
        if eneg {
            point = ilen as i128 - e;
            proof {
                pt = ilen - etrue;
            }
        } else {
            point = ilen as i128 + e;
            proof {
                pt = ilen + etrue;
            }
        }
        proof {
            if e < EXP_CAP {
                assert(pt == (point as int));
            } else {
                assert(etrue >= EXP_CAP);
                if eneg {
                    assert(pt <= (point as int) && (point as int) < 0);
                } else {
                    assert(pt >= (point as int) && (point as int) > md.len() + 20);
                }
            }
        }
    }
    // From here `pt` is the position the specification uses; `point` agrees
    // with it except far past either end, where both land in one regime.
    proof {
        assert(spec_number_parts(s@) == Some((neg, md, pt)));
        assert((point as int) == pt || (pt <= (point as int) && (point as int) < 0) || (pt
            >= (point as int) && (point as int) > md.len() + 20));
    }
    if point <= 0 {
        proof {
            assert(spec_trunc_mag(md, pt) == 0);
        }
        return Some(0);
    }
    let mlen = mantissa.len();
    let take: usize = if point >= mlen as i128 {
        mlen
    } else {
        point as usize
    };
    let (acc0, big0) = accumulate_mag(&mantissa, take);
    let mut acc = acc0;
    let mut big = big0;
    if point > mlen as i128 {
        // All mantissa digits precede the point; the remaining positions are
        // zeros, so the magnitude is the mantissa value times a power of ten.
        proof {
            assert(md.subrange(0, mlen as int) =~= md);
            lemma_digits_val_nonneg(md);
            lemma_pow10_pos((pt - mlen) as nat);
        }
        if !big && acc == 0 {
            proof {
                assert(digits_val(md) == 0);
                assert(spec_trunc_mag(md, pt) == 0) by (nonlinear_arith)
                    requires
                        pt > md.len(),
                        digits_val(md) == 0,
                        spec_trunc_mag(md, pt) == digits_val(md) * pow10((pt - md.len()) as nat),
                ;
            }
            return Some(0);
        }
        let extra128: i128 = point - mlen as i128;
        if big || extra128 >= 20 {
            proof {
                let p10 = pow10((pt - md.len()) as nat);
                lemma_pow10_pos((pt - md.len()) as nat);
                if big {
                    assert(digits_val(md) * p10 >= digits_val(md)) by (nonlinear_arith)
                        requires
                            digits_val(md) >= 0,
                            p10 >= 1,
                    ;
                } else {
                    // extra at least 20 positions: one mantissa digit is
                    // nonzero, so the magnitude tops the 64-bit range.
                    assert(pow10(20) == 100000000000000000000) by {
                        reveal_with_fuel(pow10, 21);
                    }
                    assert(pt - md.len() >= 20);
                    lemma_pow10_mono(20, (pt - md.len()) as nat);
                    assert(digits_val(md) >= 1);
                    assert(digits_val(md) * p10 >= p10) by (nonlinear_arith)
                        requires
                            digits_val(md) >= 1,
                            p10 >= 1,
                    ;
                }
            }
            big = true;
        } else {
            let extra: usize = extra128 as usize;
            let mut k: usize = 0;
            proof {
                assert(pt == (point as int));
            }
            while k < extra
                invariant
                    k <= extra,
                    extra < 20,
                    acc >= 1 || big,
                    !big ==> acc as int == digits_val(md) * pow10(k as nat) && acc <= MAG_CAP,
                    big ==> digits_val(md) * pow10(k as nat) > MAG_CAP as int,
                    digits_val(md) >= 0,
                decreases extra - k,
            {
                proof {
                    assert(pow10((k + 1) as nat) == 10 * pow10(k as nat));
                    assert(digits_val(md) * (10 * pow10(k as nat)) == (digits_val(md) * pow10(
                        k as nat,
                    )) * 10) by (nonlinear_arith);
                    if big {
                        lemma_pow10_pos(k as nat);
                        assert((digits_val(md) * pow10(k as nat)) * 10 >= digits_val(md) * pow10(
                            k as nat,
                        )) by (nonlinear_arith)
                            requires
                                digits_val(md) * pow10(k as nat) > 0,
                        ;
                    }
                }
                if !big {
                    let na = acc * 10;
                    if na > MAG_CAP {
                        big = true;
                    } else {
                        acc = na;
                    }
                }
                k = k + 1;
            }
            proof {
                assert(spec_trunc_mag(md, pt) == digits_val(md) * pow10((pt - md.len()) as nat));
            }
        }
    } else {
        proof {
            assert(0 < pt <= md.len());
            assert(take == pt);
            assert(spec_trunc_mag(md, pt) == digits_val(md.subrange(0, pt)));
        }
    }
    let ghost mag = spec_trunc_mag(md, pt);
    proof {
        assert(!big ==> acc as int == mag && acc <= MAG_CAP);
        assert(big ==> mag > MAG_CAP as int);
    }
    if big {
        if neg {
            return Some(i64::MIN);
        } else {
            return Some(i64::MAX);
        }
    }
    if neg {
        if acc >= MAG_CAP {
            Some(i64::MIN)
        } else {
            Some(-((acc as u64) as i64))
        }
    } else {
        if acc >= MAG_CAP {
            Some(i64::MAX)
        } else {
            Some((acc as u64) as i64)
        }
    }
}

} // verus!
