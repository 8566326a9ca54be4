//! The quantization primitives: lengths, percentages, times and plain
//! numbers rendered onto the utility scale.

use vstd::prelude::*;
use crate::numeric::{
    SCALE,
    MAX_UNITS,
    spec_round_ratio,
    round_ratio,
    spec_dec_int,
    i64_to_dec_string,
    spec_fixed_str,
    fixed_to_string,
    spec_quarter_str,
    quarter_to_string,
    spec_centi_trim_str,
    centi_trim_to_string,
    spec_two_dec_str,
    two_dec_to_string,
};
use crate::values::{Dim, DimOrPct, TimeVal, NumOrPct, BorderWidthVal};
use crate::text::{spec_contains_em, contains_em, spec_escape, escape_raw};

verus! {

/// An absolute pixel magnitude on the spacing scale: at or above 24px the
/// whole number of 4px steps, below 24px a quarter-step fraction of the
/// rounded pixel count.
pub open spec fn spec_quantize_px(p: int) -> Seq<char> {
    if p >= 24 * (SCALE as int) {
        spec_dec_int(spec_round_ratio(p, 4 * (SCALE as int)))
    } else {
        spec_quarter_str(spec_round_ratio(p, SCALE as int))
    }
}

/// A dimension quantized: by pixels when it has an absolute pixel value, by
/// `round(value * 4)` for `em`-like units, else passed through as
/// `value` followed by the unit.
pub open spec fn spec_quantize_dim(d: Dim) -> Seq<char> {
    match d.px_units {
        Some(p) => spec_quantize_px(p as int),
        None => if spec_contains_em(d.unit@) {
            spec_dec_int(spec_round_ratio(4 * (d.units as int), SCALE as int))
        } else {
            spec_fixed_str(d.units as int) + d.unit@
        },
    }
}

/// Quantizes one dimension to its token value string.
pub fn quantize_dim(d: &Dim) -> (s: String)
    requires
        d.wf(),
    ensures
        s@ == spec_quantize_dim(*d),
{
    match &d.px_units {
        Some(p) => {
            let p = *p;
            if p >= 24 * SCALE {
                i64_to_dec_string(round_ratio(p, 4 * SCALE))
            } else {
                quarter_to_string(round_ratio(p, SCALE))
            }
        },
        None => {
            if contains_em(d.unit.as_str()) {
                i64_to_dec_string(round_ratio(4 * d.units, SCALE))
            } else {
                let mut s = fixed_to_string(d.units);
                s.append(d.unit.as_str());
                s
            }
        },
    }
}

/// A percentage rendered as its percent string.
pub open spec fn spec_pct_str(points: int) -> Seq<char> {
    spec_fixed_str(points) + seq!['%']
}

/// Renders a percentage (fixed-point points) as `points%`.
pub fn pct_to_string(points: i64) -> (s: String)
    requires
        -MAX_UNITS <= points <= MAX_UNITS,
    ensures
        s@ == spec_pct_str(points as int),
{
    proof {
        reveal_strlit("%");
    }
    let mut s = fixed_to_string(points);
    s.append("%");
    proof {
        assert(s@ =~= spec_pct_str(points as int));
    }
    s
}

/// A raw expression wrapped in brackets, unescaped.
pub open spec fn spec_bracket(s: Seq<char>) -> Seq<char> {
    seq!['['] + s + seq![']']
}

/// Wraps a raw CSS serialization in brackets.
pub fn bracket(s: &str) -> (r: String)
    ensures
        r@ == spec_bracket(s@),
{
    proof {
        reveal_strlit("[");
        reveal_strlit("]");
    }
    let mut r = String::from_str("[");
    r.append(s);
    r.append("]");
    proof {
        assert(r@ =~= spec_bracket(s@));
    }
    r
}

/// A raw expression wrapped in brackets with whitespace and commas escaped
/// to underscores.
pub open spec fn spec_bracket_escaped(s: Seq<char>) -> Seq<char> {
    seq!['['] + spec_escape(s) + seq![']']
}

/// Wraps a raw CSS expression in brackets, escaping whitespace and commas.
pub fn bracket_escaped(s: &str) -> (r: String)
    ensures
        r@ == spec_bracket_escaped(s@),
{
    proof {
        reveal_strlit("[");
        reveal_strlit("]");
    }
    let mut r = String::from_str("[");
    r.append(escape_raw(s).as_str());
    r.append("]");
    proof {
        assert(r@ =~= spec_bracket_escaped(s@));
    }
    r
}

/// A length-or-percentage value quantized: dimensions by the spacing scale,
/// percentages as their percent string, `calc()` as a bracketed literal.
pub open spec fn spec_quantize_dim_or_pct(v: DimOrPct) -> Seq<char> {
    match v {
        DimOrPct::Dim(d) => spec_quantize_dim(d),
        DimOrPct::Pct(p) => spec_pct_str(p.points_units as int),
        DimOrPct::Calc(s) => spec_bracket(s@),
    }
}

/// Quantizes a length-or-percentage value to its token value string.
pub fn quantize_dim_or_pct(v: &DimOrPct) -> (s: String)
    requires
        v.wf(),
    ensures
        s@ == spec_quantize_dim_or_pct(*v),
{
    match v {
        DimOrPct::Dim(d) => quantize_dim(d),
        DimOrPct::Pct(p) => pct_to_string(p.points_units),
        DimOrPct::Calc(raw) => bracket(raw.as_str()),
    }
}

/// A time value in whole milliseconds: seconds scale by 1000, milliseconds
/// pass through; the result rounds to the nearest integer.
pub open spec fn spec_quantize_time(t: TimeVal) -> Seq<char> {
    match t {
        TimeVal::Seconds(u) => spec_dec_int(spec_round_ratio(1000 * (u as int), SCALE as int)),
        TimeVal::Milliseconds(u) => spec_dec_int(spec_round_ratio(u as int, SCALE as int)),
    }
}

/// Quantizes a time value to whole milliseconds.
pub fn quantize_time(t: &TimeVal) -> (s: String)
    requires
        t.wf(),
    ensures
        s@ == spec_quantize_time(*t),
{
    match t {
        TimeVal::Seconds(u) => i64_to_dec_string(round_ratio(1000 * *u, SCALE)),
        TimeVal::Milliseconds(u) => i64_to_dec_string(round_ratio(*u, SCALE)),
    }
}

/// A number-or-percentage: a percentage rounds to whole percent and divides
/// by 100 (trailing zeros trimmed), a plain number renders with exactly two
/// decimal places.
pub open spec fn spec_quantize_num_or_pct(v: NumOrPct) -> Seq<char> {
    match v {
        NumOrPct::Percentage(points) => spec_centi_trim_str(
            spec_round_ratio(points as int, SCALE as int),
        ),
        NumOrPct::Number(u) => spec_two_dec_str(spec_round_ratio(u as int, (SCALE / 100) as int)),
    }
}

/// Quantizes a number-or-percentage to its token value string.
pub fn quantize_num_or_pct(v: &NumOrPct) -> (s: String)
    requires
        v.wf(),
    ensures
        s@ == spec_quantize_num_or_pct(*v),
{
    match v {
        NumOrPct::Percentage(points) => centi_trim_to_string(round_ratio(*points, SCALE)),
        NumOrPct::Number(u) => two_dec_to_string(round_ratio(*u, SCALE / 100)),
    }
}

/// A border side width's token value: a dimension quantizes like a length,
/// `calc()` becomes a bracketed literal, a named width passes through.
pub open spec fn spec_border_width_value(v: BorderWidthVal) -> Seq<char> {
    match v {
        BorderWidthVal::Value(d) => spec_quantize_dim(d),
        BorderWidthVal::Calc(s) => spec_bracket(s@),
        BorderWidthVal::Keyword(css) => css@,
    }
}

/// Quantizes a border side width to its token value string.
pub fn border_width_value(v: &BorderWidthVal) -> (s: String)
    requires
        v.wf(),
    ensures
        s@ == spec_border_width_value(*v),
{
    match v {
        BorderWidthVal::Value(d) => quantize_dim(d),
        BorderWidthVal::Calc(raw) => bracket(raw.as_str()),
        BorderWidthVal::Keyword(css) => css.clone(),
    }
}

/// Quantization is a pure function of the value: quantizing the same
/// dimension twice yields the same token string.
pub proof fn lemma_quantize_dim_deterministic(d1: Dim, d2: Dim, r1: Seq<char>, r2: Seq<char>)
    requires
        d1 == d2,
        r1 == spec_quantize_dim(d1),
        r2 == spec_quantize_dim(d2),
    ensures
        r1 == r2,
{
}

} // verus!
