//! Fixed-point scalars and decimal rendering.
//!
//! A scalar magnitude (a pixel count, a rem value, an easing coefficient)
//! is stored as an `i64` number of `SCALE`-ths, so `1.5` is `1_500_000`.
//! Rounding is "half away from zero", the convention the token scale uses.

use vstd::prelude::*;

verus! {

/// Fixed-point units per 1.0.
pub const SCALE: i64 = 1_000_000;

/// Magnitude bound kept by every well-formed scalar, generous enough for
/// any stylesheet value while leaving room for the `*1000` and `*4`
/// conversions the quantizers apply.
pub const MAX_UNITS: i64 = 1_000_000_000_000_000;

/// Rounds the ratio `n / d` to the nearest integer, halves away from zero.
pub open spec fn spec_round_ratio(n: int, d: int) -> int
    recommends
        d > 0,
{
    if n >= 0 {
        (n + d / 2) / d
    } else {
        -((-n + d / 2) / d)
    }
}

/// Rounds `n / d` to the nearest integer, halves away from zero.
pub fn round_ratio(n: i64, d: i64) -> (r: i64)
    requires
        0 < d,
        -MAX_UNITS * 4000 <= n <= MAX_UNITS * 4000,
        d <= MAX_UNITS,
    ensures
        r == spec_round_ratio(n as int, d as int),
{
    if n >= 0 {
        (n + d / 2) / d
    } else {
        -((-n + d / 2) / d)
    }
}

/// A rounded ratio stays within one of the quotient bound: with `|n| <= b * d`
/// the rounded value lies in `[-(b + 1), b + 1]`.
pub proof fn lemma_round_ratio_bound(n: int, d: int, b: int)
    requires
        d > 0,
        b >= 0,
        -(b * d) <= n && n <= b * d,
    ensures
        -(b + 1) <= spec_round_ratio(n, d) && spec_round_ratio(n, d) <= b + 1,
{
    let h = d / 2;
    assert(0 <= h < d);
    assert((b + 1) * d == b * d + d) by (nonlinear_arith);
    if n >= 0 {
        assert(n + h <= (b + 1) * d);
        vstd::arithmetic::div_mod::lemma_div_is_ordered(n + h, (b + 1) * d, d);
        vstd::arithmetic::div_mod::lemma_div_multiples_vanish(b + 1, d);
        vstd::arithmetic::div_mod::lemma_div_is_ordered(0, n + h, d);
    } else {
        assert(-n + h <= (b + 1) * d);
        vstd::arithmetic::div_mod::lemma_div_is_ordered(-n + h, (b + 1) * d, d);
        vstd::arithmetic::div_mod::lemma_div_multiples_vanish(b + 1, d);
        vstd::arithmetic::div_mod::lemma_div_is_ordered(0, -n + h, d);
    }
}

/// The decimal digit character for `d`.
pub open spec fn spec_digit_char(d: int) -> char {
    if d == 0 {
        '0'
    } else if d == 1 {
        '1'
    } else if d == 2 {
        '2'
    } else if d == 3 {
        '3'
    } else if d == 4 {
        '4'
    } else if d == 5 {
        '5'
    } else if d == 6 {
        '6'
    } else if d == 7 {
        '7'
    } else if d == 8 {
        '8'
    } else {
        '9'
    }
}

/// Decimal digits of `n`, most significant first.
pub open spec fn spec_dec_nat(n: nat) -> Seq<char>
    decreases n,
{
    if n < 10 {
        seq![spec_digit_char(n as int)]
    } else {
        spec_dec_nat(n / 10) + seq![spec_digit_char((n % 10) as int)]
    }
}

/// Decimal rendering of a signed integer.
pub open spec fn spec_dec_int(n: int) -> Seq<char> {
    if n < 0 {
        seq!['-'] + spec_dec_nat((-n) as nat)
    } else {
        spec_dec_nat(n as nat)
    }
}

fn digit_str(d: u64) -> (s: &'static str)
    requires
        d < 10,
    ensures
        s@ == seq![spec_digit_char(d as int)],
{
    proof {
        reveal_strlit("0");
        reveal_strlit("1");
        reveal_strlit("2");
        reveal_strlit("3");
        reveal_strlit("4");
        reveal_strlit("5");
        reveal_strlit("6");
        reveal_strlit("7");
        reveal_strlit("8");
        reveal_strlit("9");
    }
    let s: &'static str = match d {
        0 => "0",
        1 => "1",
        2 => "2",
        3 => "3",
        4 => "4",
        5 => "5",
        6 => "6",
        7 => "7",
        8 => "8",
        _ => "9",
    };
    proof {
        assert(s@ =~= seq![spec_digit_char(d as int)]);
    }
    s
}

/// Renders `n` in decimal.
pub fn u64_to_dec_string(n: u64) -> (s: String)
    ensures
        s@ == spec_dec_nat(n as nat),
    decreases n,
{
    if n < 10 {
        let s = String::from_str(digit_str(n));
        s
    } else {
        let mut s = u64_to_dec_string(n / 10);
        s.append(digit_str(n % 10));
        s
    }
}

/// Ten to the `w`.
pub open spec fn spec_pow10(w: nat) -> nat
    decreases w,
{
    if w == 0 {
        1
    } else {
        10 * spec_pow10((w - 1) as nat)
    }
}

/// `n` rendered as exactly `w` decimal digits, zero-padded on the left
/// (higher digits beyond `w` are dropped).
pub open spec fn spec_pad_digits(n: nat, w: nat) -> Seq<char>
    decreases w,
{
    if w == 0 {
        Seq::<char>::empty()
    } else {
        spec_pad_digits(n / 10, (w - 1) as nat) + seq![spec_digit_char((n % 10) as int)]
    }
}

/// Drops trailing decimal zeros from a `w`-digit fraction `f`, returning the
/// remaining value and digit count.
pub open spec fn spec_trimmed_frac(f: nat, w: nat) -> (nat, nat)
    decreases w,
{
    if w > 0 && f % 10 == 0 {
        spec_trimmed_frac(f / 10, (w - 1) as nat)
    } else {
        (f, w)
    }
}

/// The fractional magnitude `a` (in `SCALE`-ths) rendered as a decimal
/// number: whole part, then a point and the trimmed fraction when nonzero.
pub open spec fn spec_fixed_mag(a: nat) -> Seq<char> {
    let w = a / (SCALE as nat);
    let f = a % (SCALE as nat);
    if f == 0 {
        spec_dec_nat(w)
    } else {
        spec_dec_nat(w) + seq!['.'] + spec_pad_digits(
            spec_trimmed_frac(f, 6).0,
            spec_trimmed_frac(f, 6).1,
        )
    }
}

/// A fixed-point scalar rendered as a plain decimal string.
pub open spec fn spec_fixed_str(u: int) -> Seq<char> {
    if u < 0 {
        seq!['-'] + spec_fixed_mag((-u) as nat)
    } else {
        spec_fixed_mag(u as nat)
    }
}

fn pad_digits(n: u64, w: u64) -> (s: String)
    ensures
        s@ == spec_pad_digits(n as nat, w as nat),
    decreases w,
{
    if w == 0 {
        let s = String::new();
        proof {
            assert(s@ =~= spec_pad_digits(n as nat, 0));
        }
        s
    } else {
        let mut s = pad_digits(n / 10, w - 1);
        s.append(digit_str(n % 10));
        s
    }
}

/// Renders a fixed-point scalar (`SCALE`-ths) as a decimal string,
/// trimming trailing zeros of the fraction.
pub fn fixed_to_string(u: i64) -> (s: String)
    requires
        -MAX_UNITS <= u <= MAX_UNITS,
    ensures
        s@ == spec_fixed_str(u as int),
{
    let neg = u < 0;
    let a: u64 = if neg {
        (-u) as u64
    } else {
        u as u64
    };
    let w: u64 = a / 1_000_000;
    let f0: u64 = a % 1_000_000;
    let mut out: String = if neg {
        proof {
            reveal_strlit("-");
        }
        let m = String::from_str("-");
        proof {
            assert(m@ =~= seq!['-']);
        }
        m
    } else {
        String::new()
    };
    out.append(u64_to_dec_string(w).as_str());
    if f0 > 0 {
        proof {
            reveal_strlit(".");
        }
        out.append(".");
        let mut f: u64 = f0;
        let mut width: u64 = 6;
        proof {
            reveal_with_fuel(spec_pow10, 7);
            assert(f < spec_pow10(6));
        }
        while f % 10 == 0
            invariant
                0 < f,
                f <= f0,
                1 <= width <= 6,
                (f as nat) < spec_pow10(width as nat),
                spec_trimmed_frac(f0 as nat, 6) == spec_trimmed_frac(f as nat, width as nat),
            decreases f,
        {
            proof {
                if width == 1 {
                    reveal_with_fuel(spec_pow10, 2);
                    assert(f % 10 == f);
                    assert(false);
                }
                assert(spec_pow10(width as nat) == 10 * spec_pow10((width - 1) as nat));
                assert((f as nat) / 10 < spec_pow10((width - 1) as nat)) by (nonlinear_arith)
                    requires
                        (f as nat) < 10 * spec_pow10((width - 1) as nat),
                ;
                assert(f / 10 > 0) by {
                    assert(f % 10 == 0);
                    assert(f == 10 * (f / 10) + f % 10) by (nonlinear_arith);
                }
            }
            f = f / 10;
            width = width - 1;
        }
        out.append(pad_digits(f, width).as_str());
        proof {
            assert(spec_trimmed_frac(f as nat, width as nat) == (f as nat, width as nat));
            assert(out@ =~= spec_fixed_str(u as int));
        }
    } else {
        proof {
            assert(out@ =~= spec_fixed_str(u as int));
        }
    }
    out
}

/// The quarter-step suffix for `k` quarter units: nothing for a whole
/// number, else the decimal tail of a quarter fraction.
pub open spec fn spec_quarter_suffix(q: int) -> Seq<char> {
    if q == 0 {
        Seq::<char>::empty()
    } else if q == 1 {
        seq!['.', '2', '5']
    } else if q == 2 {
        seq!['.', '5']
    } else {
        seq!['.', '7', '5']
    }
}

/// `k` quarter units rendered as a decimal: `23` is `5.75`, `24` is `6`.
pub open spec fn spec_quarter_str(k: int) -> Seq<char> {
    if k < 0 {
        seq!['-'] + spec_dec_nat(((-k) / 4) as nat) + spec_quarter_suffix((-k) % 4)
    } else {
        spec_dec_nat((k / 4) as nat) + spec_quarter_suffix(k % 4)
    }
}

/// Renders `k` quarter units as a decimal string.
pub fn quarter_to_string(k: i64) -> (s: String)
    requires
        -MAX_UNITS <= k <= MAX_UNITS,
    ensures
        s@ == spec_quarter_str(k as int),
{
    let neg = k < 0;
    let a: u64 = if neg {
        (-k) as u64
    } else {
        k as u64
    };
    let mut out: String = if neg {
        proof {
            reveal_strlit("-");
        }
        let m = String::from_str("-");
        proof {
            assert(m@ =~= seq!['-']);
        }
        m
    } else {
        String::new()
    };
    out.append(u64_to_dec_string(a / 4).as_str());
    let q = a % 4;
    proof {
        reveal_strlit(".25");
        reveal_strlit(".5");
        reveal_strlit(".75");
        assert(".25"@ =~= seq!['.', '2', '5']);
        assert(".5"@ =~= seq!['.', '5']);
        assert(".75"@ =~= seq!['.', '7', '5']);
    }
    if q == 1 {
        out.append(".25");
    } else if q == 2 {
        out.append(".5");
    } else if q == 3 {
        out.append(".75");
    }
    proof {
        assert(out@ =~= spec_quarter_str(k as int));
    }
    out
}

/// `k` hundredths rendered as a decimal, trailing zeros trimmed:
/// `150` is `1.5`, `2` is `0.02`, `300` is `3`.
pub open spec fn spec_centi_trim_mag(a: nat) -> Seq<char> {
    if a % 100 == 0 {
        spec_dec_nat(a / 100)
    } else if a % 10 == 0 {
        spec_dec_nat(a / 100) + seq!['.', spec_digit_char(((a / 10) % 10) as int)]
    } else {
        spec_dec_nat(a / 100) + seq![
            '.',
            spec_digit_char(((a % 100) / 10) as int),
            spec_digit_char((a % 10) as int),
        ]
    }
}

/// Signed trimmed hundredths.
pub open spec fn spec_centi_trim_str(k: int) -> Seq<char> {
    if k < 0 {
        seq!['-'] + spec_centi_trim_mag((-k) as nat)
    } else {
        spec_centi_trim_mag(k as nat)
    }
}

/// Renders `k` hundredths as a decimal string, trimming trailing zeros.
pub fn centi_trim_to_string(k: i64) -> (s: String)
    requires
        -MAX_UNITS <= k <= MAX_UNITS,
    ensures
        s@ == spec_centi_trim_str(k as int),
{
    let neg = k < 0;
    let a: u64 = if neg {
        (-k) as u64
    } else {
        k as u64
    };
    let mut out: String = if neg {
        proof {
            reveal_strlit("-");
        }
        let m = String::from_str("-");
        proof {
            assert(m@ =~= seq!['-']);
        }
        m
    } else {
        String::new()
    };
    out.append(u64_to_dec_string(a / 100).as_str());
    proof {
        reveal_strlit(".");
    }
    if a % 100 != 0 {
        if a % 10 == 0 {
            out.append(".");
            out.append(digit_str((a / 10) % 10));
        } else {
            out.append(".");
            out.append(digit_str((a % 100) / 10));
            out.append(digit_str(a % 10));
        }
    }
    proof {
        assert(out@ =~= spec_centi_trim_str(k as int));
    }
    out
}

/// `k` hundredths rendered with exactly two decimal places: `150` is `1.50`.
pub open spec fn spec_two_dec_str(k: int) -> Seq<char> {
    if k < 0 {
        seq!['-'] + spec_dec_nat(((-k) / 100) as nat) + seq![
            '.',
            spec_digit_char(((((-k)) % 100) / 10) as int),
            spec_digit_char(((-k) % 10) as int),
        ]
    } else {
        spec_dec_nat((k / 100) as nat) + seq![
            '.',
            spec_digit_char(((k % 100) / 10) as int),
            spec_digit_char((k % 10) as int),
        ]
    }
}

/// Renders `k` hundredths with exactly two decimal places.
pub fn two_dec_to_string(k: i64) -> (s: String)
    requires
        -MAX_UNITS <= k <= MAX_UNITS,
    ensures
        s@ == spec_two_dec_str(k as int),
{
    let neg = k < 0;
    let a: u64 = if neg {
        (-k) as u64
    } else {
        k as u64
    };
    let mut out: String = if neg {
        proof {
            reveal_strlit("-");
        }
        let m = String::from_str("-");
        proof {
            assert(m@ =~= seq!['-']);
        }
        m
    } else {
        String::new()
    };
    out.append(u64_to_dec_string(a / 100).as_str());
    proof {
        reveal_strlit(".");
    }
    out.append(".");
    out.append(digit_str((a % 100) / 10));
    out.append(digit_str(a % 10));
    proof {
        assert(out@ =~= spec_two_dec_str(k as int));
    }
    out
}

/// Renders `n` in decimal with a leading `-` when negative.
pub fn i64_to_dec_string(n: i64) -> (s: String)
    requires
        -MAX_UNITS * 4000 <= n <= MAX_UNITS * 4000,
    ensures
        s@ == spec_dec_int(n as int),
{
    if n < 0 {
        proof {
            reveal_strlit("-");
        }
        let mut s = String::from_str("-");
        proof {
            assert(s@ =~= seq!['-']);
        }
        let m: u64 = (-n) as u64;
        s.append(u64_to_dec_string(m).as_str());
        s
    } else {
        u64_to_dec_string(n as u64)
    }
}

} // verus!
