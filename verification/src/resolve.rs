//! The per-value resolvers: each turns one typed CSS value into the pushes
//! it makes on the token set, stated as an emission list that the token-set
//! override rule then folds in.

use vstd::prelude::*;
use crate::numeric::{
    SCALE,
    spec_round_ratio,
    round_ratio,
    spec_dec_int,
    i64_to_dec_string,
    spec_fixed_str,
    fixed_to_string,
};
use crate::values::{
    Dim,
    DimOrPct,
    LpaVal,
    SizeVal,
    MaxSizeVal,
    BorderWidthVal,
    ColorVal,
    TimeVal,
    NumOrPct,
    FontSizeVal,
    AbsoluteSizeVal,
    FontWeightVal,
    LineHeightVal,
    EasingVal,
    TrackSizeVal,
};
use crate::quantize::{
    spec_quantize_dim_or_pct,
    quantize_dim_or_pct,
    spec_quantize_time,
    quantize_time,
    spec_quantize_num_or_pct,
    quantize_num_or_pct,
    spec_border_width_value,
    border_width_value,
    spec_bracket_escaped,
    bracket_escaped,
    spec_bracket,
    bracket,
};
use crate::registry::{
    Registry,
    spec_color_candidates,
    spec_has_exact_color,
    search_color,
    has_exact_color,
    spec_font_candidates,
    search_font,
};
use crate::text::{spec_is_numbered_shade, is_numbered_shade, spec_contains_em, contains_em};
use crate::token_set::{
    TailwindTokenSet,
    spec_apply_pushes,
    spec_tokens_only_change,
    lemma_apply_pushes_one,
    lemma_apply_pushes_append,
    lemma_apply_pushes_snoc,
};

verus! {

/// One keyword pass-through push.
pub open spec fn spec_keyword_emissions(p: Seq<char>, css: Seq<char>) -> Seq<
    (Seq<char>, Seq<char>),
> {
    seq![(p, css)]
}

/// Pushes a value's canonical textual form under the prefix.
pub fn resolve_keyword(income_css: &str, tw_set: &mut TailwindTokenSet, token_prefix: &str)
    ensures
        final (tw_set).toks() == spec_apply_pushes(
            old(tw_set).toks(),
            spec_keyword_emissions(token_prefix@, income_css@),
        ),
        spec_tokens_only_change(*old(tw_set), *final (tw_set)),
{
    tw_set.push_tailwind_token(token_prefix, income_css);
    proof {
        lemma_apply_pushes_one(old(tw_set).toks(), token_prefix@, income_css@);
    }
}

/// One bracketed, escaped raw-expression push.
pub open spec fn spec_raw_exp_emissions(p: Seq<char>, css: Seq<char>) -> Seq<
    (Seq<char>, Seq<char>),
> {
    seq![(p, spec_bracket_escaped(css))]
}

/// Pushes an unresolvable expression as a bracketed literal with whitespace
/// and commas escaped.
pub fn resolve_raw_exp(income_css: &str, tw_set: &mut TailwindTokenSet, token_prefix: &str)
    ensures
        final (tw_set).toks() == spec_apply_pushes(
            old(tw_set).toks(),
            spec_raw_exp_emissions(token_prefix@, income_css@),
        ),
        spec_tokens_only_change(*old(tw_set), *final (tw_set)),
{
    let v = bracket_escaped(income_css);
    tw_set.push_tailwind_token(token_prefix, v.as_str());
    proof {
        lemma_apply_pushes_one(old(tw_set).toks(), token_prefix@, v@);
    }
}

/// One quantized length-or-percentage push.
pub open spec fn spec_dimension_emissions(v: DimOrPct, p: Seq<char>) -> Seq<
    (Seq<char>, Seq<char>),
> {
    seq![(p, spec_quantize_dim_or_pct(v))]
}

/// Pushes one quantized length-or-percentage value.
pub fn resolve_dimension(income_value: &DimOrPct, tw_set: &mut TailwindTokenSet, token_prefix: &str)
    requires
        income_value.wf(),
    ensures
        final (tw_set).toks() == spec_apply_pushes(
            old(tw_set).toks(),
            spec_dimension_emissions(*income_value, token_prefix@),
        ),
        spec_tokens_only_change(*old(tw_set), *final (tw_set)),
{
    let v = quantize_dim_or_pct(income_value);
    tw_set.push_tailwind_token(token_prefix, v.as_str());
    proof {
        lemma_apply_pushes_one(old(tw_set).toks(), token_prefix@, v@);
    }
}

/// One quantized time push.
pub open spec fn spec_time_emissions(t: TimeVal, p: Seq<char>) -> Seq<(Seq<char>, Seq<char>)> {
    seq![(p, spec_quantize_time(t))]
}

/// Pushes one time value in whole milliseconds.
pub fn resolve_time(income_value: &TimeVal, tw_set: &mut TailwindTokenSet, token_prefix: &str)
    requires
        income_value.wf(),
    ensures
        final (tw_set).toks() == spec_apply_pushes(
            old(tw_set).toks(),
            spec_time_emissions(*income_value, token_prefix@),
        ),
        spec_tokens_only_change(*old(tw_set), *final (tw_set)),
{
    let v = quantize_time(income_value);
    tw_set.push_tailwind_token(token_prefix, v.as_str());
    proof {
        lemma_apply_pushes_one(old(tw_set).toks(), token_prefix@, v@);
    }
}

/// One quantized number-or-percentage push.
pub open spec fn spec_number_or_percentage_emissions(v: NumOrPct, p: Seq<char>) -> Seq<
    (Seq<char>, Seq<char>),
> {
    seq![(p, spec_quantize_num_or_pct(v))]
}

/// Pushes one number-or-percentage value.
pub fn resolve_number_or_percentage(
    income_value: &NumOrPct,
    tw_set: &mut TailwindTokenSet,
    token_prefix: &str,
)
    requires
        income_value.wf(),
    ensures
        final (tw_set).toks() == spec_apply_pushes(
            old(tw_set).toks(),
            spec_number_or_percentage_emissions(*income_value, token_prefix@),
        ),
        spec_tokens_only_change(*old(tw_set), *final (tw_set)),
{
    let v = quantize_num_or_pct(income_value);
    tw_set.push_tailwind_token(token_prefix, v.as_str());
    proof {
        lemma_apply_pushes_one(old(tw_set).toks(), token_prefix@, v@);
    }
}

/// One border-side-width push.
pub open spec fn spec_border_side_width_emissions(v: BorderWidthVal, p: Seq<char>) -> Seq<
    (Seq<char>, Seq<char>),
> {
    seq![(p, spec_border_width_value(v))]
}

/// Pushes one border side width.
pub fn resolve_border_side_width(
    income_value: &BorderWidthVal,
    tw_set: &mut TailwindTokenSet,
    token_prefix: &str,
)
    requires
        income_value.wf(),
    ensures
        final (tw_set).toks() == spec_apply_pushes(
            old(tw_set).toks(),
            spec_border_side_width_emissions(*income_value, token_prefix@),
        ),
        spec_tokens_only_change(*old(tw_set), *final (tw_set)),
{
    let v = border_width_value(income_value);
    tw_set.push_tailwind_token(token_prefix, v.as_str());
    proof {
        lemma_apply_pushes_one(old(tw_set).toks(), token_prefix@, v@);
    }
}

/// A length-or-percentage-or-auto value: `auto` passes through, a value
/// quantizes.
pub open spec fn spec_length_unit_emissions(v: LpaVal, p: Seq<char>) -> Seq<
    (Seq<char>, Seq<char>),
> {
    match v {
        LpaVal::Auto => seq![(p, "auto"@)],
        LpaVal::Value(d) => spec_dimension_emissions(d, p),
    }
}

/// Pushes one length-or-percentage-or-auto value.
pub fn resolve_length_unit(income_value: &LpaVal, tw_set: &mut TailwindTokenSet, token_prefix: &str)
    requires
        income_value.wf(),
    ensures
        final (tw_set).toks() == spec_apply_pushes(
            old(tw_set).toks(),
            spec_length_unit_emissions(*income_value, token_prefix@),
        ),
        spec_tokens_only_change(*old(tw_set), *final (tw_set)),
{
    match income_value {
        LpaVal::Auto => {
            tw_set.push_tailwind_token(token_prefix, "auto");
            proof {
                lemma_apply_pushes_one(old(tw_set).toks(), token_prefix@, "auto"@);
            }
        },
        LpaVal::Value(d) => {
            resolve_dimension(d, tw_set, token_prefix);
        },
    }
}

/// A sizing value: keywords map to their short names, lengths quantize,
/// unsupported variants emit nothing.
pub open spec fn spec_length_size_emissions(v: SizeVal, p: Seq<char>) -> Seq<
    (Seq<char>, Seq<char>),
> {
    match v {
        SizeVal::Auto => seq![(p, "auto"@)],
        SizeVal::Value(d) => spec_dimension_emissions(d, p),
        SizeVal::MinContent => seq![(p, "min"@)],
        SizeVal::MaxContent => seq![(p, "max"@)],
        SizeVal::FitContent => seq![(p, "fit"@)],
        SizeVal::Contain => seq![(p, "contain"@)],
        SizeVal::FitContentFunction => Seq::<(Seq<char>, Seq<char>)>::empty(),
        SizeVal::Stretch => Seq::<(Seq<char>, Seq<char>)>::empty(),
    }
}

/// Pushes one sizing value.
pub fn resolve_length_size(income_value: &SizeVal, tw_set: &mut TailwindTokenSet, token_prefix: &str)
    requires
        income_value.wf(),
    ensures
        final (tw_set).toks() == spec_apply_pushes(
            old(tw_set).toks(),
            spec_length_size_emissions(*income_value, token_prefix@),
        ),
        spec_tokens_only_change(*old(tw_set), *final (tw_set)),
{
    match income_value {
        SizeVal::Auto => {
            tw_set.push_tailwind_token(token_prefix, "auto");
            proof {
                lemma_apply_pushes_one(old(tw_set).toks(), token_prefix@, "auto"@);
            }
        },
        SizeVal::Value(d) => {
            resolve_dimension(d, tw_set, token_prefix);
        },
        SizeVal::MinContent => {
            tw_set.push_tailwind_token(token_prefix, "min");
            proof {
                lemma_apply_pushes_one(old(tw_set).toks(), token_prefix@, "min"@);
            }
        },
        SizeVal::MaxContent => {
            tw_set.push_tailwind_token(token_prefix, "max");
            proof {
                lemma_apply_pushes_one(old(tw_set).toks(), token_prefix@, "max"@);
            }
        },
        SizeVal::FitContent => {
            tw_set.push_tailwind_token(token_prefix, "fit");
            proof {
                lemma_apply_pushes_one(old(tw_set).toks(), token_prefix@, "fit"@);
            }
        },
        SizeVal::Contain => {
            tw_set.push_tailwind_token(token_prefix, "contain");
            proof {
                lemma_apply_pushes_one(old(tw_set).toks(), token_prefix@, "contain"@);
            }
        },
        SizeVal::FitContentFunction => {},
        SizeVal::Stretch => {},
    }
}

/// A max-sizing value.
pub open spec fn spec_length_max_size_emissions(v: MaxSizeVal, p: Seq<char>) -> Seq<
    (Seq<char>, Seq<char>),
> {
    match v {
        MaxSizeVal::NoneKw => seq![(p, "none"@)],
        MaxSizeVal::Value(d) => spec_dimension_emissions(d, p),
        MaxSizeVal::MinContent => seq![(p, "min"@)],
        MaxSizeVal::MaxContent => seq![(p, "max"@)],
        MaxSizeVal::FitContent => seq![(p, "fit"@)],
        MaxSizeVal::Contain => seq![(p, "contain"@)],
        MaxSizeVal::FitContentFunction => Seq::<(Seq<char>, Seq<char>)>::empty(),
        MaxSizeVal::Stretch => Seq::<(Seq<char>, Seq<char>)>::empty(),
    }
}

/// Pushes one max-sizing value.
pub fn resolve_length_max_size(
    income_value: &MaxSizeVal,
    tw_set: &mut TailwindTokenSet,
    token_prefix: &str,
)
    requires
        income_value.wf(),
    ensures
        final (tw_set).toks() == spec_apply_pushes(
            old(tw_set).toks(),
            spec_length_max_size_emissions(*income_value, token_prefix@),
        ),
        spec_tokens_only_change(*old(tw_set), *final (tw_set)),
{
    match income_value {
        MaxSizeVal::NoneKw => {
            tw_set.push_tailwind_token(token_prefix, "none");
            proof {
                lemma_apply_pushes_one(old(tw_set).toks(), token_prefix@, "none"@);
            }
        },
        MaxSizeVal::Value(d) => {
            resolve_dimension(d, tw_set, token_prefix);
        },
        MaxSizeVal::MinContent => {
            tw_set.push_tailwind_token(token_prefix, "min");
            proof {
                lemma_apply_pushes_one(old(tw_set).toks(), token_prefix@, "min"@);
            }
        },
        MaxSizeVal::MaxContent => {
            tw_set.push_tailwind_token(token_prefix, "max");
            proof {
                lemma_apply_pushes_one(old(tw_set).toks(), token_prefix@, "max"@);
            }
        },
        MaxSizeVal::FitContent => {
            tw_set.push_tailwind_token(token_prefix, "fit");
            proof {
                lemma_apply_pushes_one(old(tw_set).toks(), token_prefix@, "fit"@);
            }
        },
        MaxSizeVal::Contain => {
            tw_set.push_tailwind_token(token_prefix, "contain");
            proof {
                lemma_apply_pushes_one(old(tw_set).toks(), token_prefix@, "contain"@);
            }
        },
        MaxSizeVal::FitContentFunction => {},
        MaxSizeVal::Stretch => {},
    }
}

/// A grid track size.
pub open spec fn spec_track_size_emissions(v: TrackSizeVal, p: Seq<char>) -> Seq<
    (Seq<char>, Seq<char>),
> {
    match v {
        TrackSizeVal::Flex(u) => seq![(p, spec_fixed_str(u as int))],
        TrackSizeVal::Length(d) => spec_dimension_emissions(d, p),
        TrackSizeVal::MinContent => seq![(p, "min"@)],
        TrackSizeVal::MaxContent => seq![(p, "max"@)],
        TrackSizeVal::Auto => seq![(p, "auto"@)],
        TrackSizeVal::MinMax(raw) => spec_raw_exp_emissions(p, raw@),
        TrackSizeVal::FitContent => seq![(p, "[fit-content]"@)],
    }
}

/// Pushes one grid track size.
pub fn resolve_track_size(
    income_value: &TrackSizeVal,
    tw_set: &mut TailwindTokenSet,
    token_prefix: &str,
)
    requires
        income_value.wf(),
    ensures
        final (tw_set).toks() == spec_apply_pushes(
            old(tw_set).toks(),
            spec_track_size_emissions(*income_value, token_prefix@),
        ),
        spec_tokens_only_change(*old(tw_set), *final (tw_set)),
{
    match income_value {
        TrackSizeVal::Flex(u) => {
            let v = fixed_to_string(*u);
            tw_set.push_tailwind_token(token_prefix, v.as_str());
            proof {
                lemma_apply_pushes_one(old(tw_set).toks(), token_prefix@, v@);
            }
        },
        TrackSizeVal::Length(d) => {
            resolve_dimension(d, tw_set, token_prefix);
        },
        TrackSizeVal::MinContent => {
            tw_set.push_tailwind_token(token_prefix, "min");
            proof {
                lemma_apply_pushes_one(old(tw_set).toks(), token_prefix@, "min"@);
            }
        },
        TrackSizeVal::MaxContent => {
            tw_set.push_tailwind_token(token_prefix, "max");
            proof {
                lemma_apply_pushes_one(old(tw_set).toks(), token_prefix@, "max"@);
            }
        },
        TrackSizeVal::Auto => {
            tw_set.push_tailwind_token(token_prefix, "auto");
            proof {
                lemma_apply_pushes_one(old(tw_set).toks(), token_prefix@, "auto"@);
            }
        },
        TrackSizeVal::MinMax(raw) => {
            resolve_raw_exp(raw.as_str(), tw_set, token_prefix);
        },
        TrackSizeVal::FitContent => {
            tw_set.push_tailwind_token(token_prefix, "[fit-content]");
            proof {
                lemma_apply_pushes_one(old(tw_set).toks(), token_prefix@, "[fit-content]"@);
            }
        },
    }
}

/// The candidate names that are not numbered shades, in order.
pub open spec fn spec_unnumbered(s: Seq<Seq<char>>) -> Seq<Seq<char>>
    decreases s.len(),
{
    if s.len() == 0 {
        Seq::<Seq<char>>::empty()
    } else {
        spec_unnumbered(s.drop_last()) + if !spec_is_numbered_shade(s.last()) {
            seq![s.last()]
        } else {
            Seq::<Seq<char>>::empty()
        }
    }
}

/// The candidate pool a color resolves from: the tolerance matches; the
/// literal serialization when there are none; with several candidates and no
/// exact hit, the numbered shades drop out when an unnumbered name remains.
pub open spec fn spec_color_pool(
    tbl: Seq<crate::registry::ColorToken>,
    r: int,
    g: int,
    b: int,
    literal: Seq<char>,
) -> Seq<Seq<char>> {
    let cands = spec_color_candidates(tbl, r, g, b);
    if cands.len() == 0 {
        seq![literal]
    } else if cands.len() > 1 && !spec_has_exact_color(tbl, r, g, b) {
        let f = spec_unnumbered(cands);
        if f.len() > 0 {
            f
        } else {
            cands
        }
    } else {
        cands
    }
}

/// The pushes one color makes: `currentcolor` short-circuits; otherwise an
/// auxiliary `-op` token when the alpha is not opaque, then the first
/// element of the candidate pool under the prefix.
pub open spec fn spec_color_emissions(
    tbl: Seq<crate::registry::ColorToken>,
    c: ColorVal,
    p: Seq<char>,
) -> Seq<(Seq<char>, Seq<char>)> {
    match c {
        ColorVal::Current => seq![(p, "current"@)],
        ColorVal::Rgba { red, green, blue, alpha, literal } => {
            let base = seq![
                (p, spec_color_pool(tbl, red as int, green as int, blue as int, literal@)[0]),
            ];
            if alpha != 255 {
                seq![
                    (
                        p + seq!['-', 'o', 'p'],
                        spec_dec_int(spec_round_ratio(100 * (alpha as int), 255)),
                    ),
                ] + base
            } else {
                base
            }
        },
    }
}

/// Resolves one color against the preset table and pushes its token (and
/// the opacity auxiliary token when the alpha is not fully opaque).
pub fn resolve_color(
    income_value: &ColorVal,
    tw_set: &mut TailwindTokenSet,
    token_prefix: &str,
    reg: &Registry,
)
    ensures
        final (tw_set).toks() == spec_apply_pushes(
            old(tw_set).toks(),
            spec_color_emissions(reg.colors@, *income_value, token_prefix@),
        ),
        spec_tokens_only_change(*old(tw_set), *final (tw_set)),
{
    match income_value {
        ColorVal::Current => {
            tw_set.push_tailwind_token(token_prefix, "current");
            proof {
                lemma_apply_pushes_one(old(tw_set).toks(), token_prefix@, "current"@);
            }
        },
        ColorVal::Rgba { red, green, blue, alpha, literal } => {
            let ghost t0 = old(tw_set).toks();
            let ghost ops: Seq<(Seq<char>, Seq<char>)> = if *alpha != 255 {
                seq![
                    (
                        token_prefix@ + seq!['-', 'o', 'p'],
                        spec_dec_int(spec_round_ratio(100 * (*alpha as int), 255)),
                    ),
                ]
            } else {
                Seq::<(Seq<char>, Seq<char>)>::empty()
            };
            if *alpha != 255 {
                proof {
                    reveal_strlit("-op");
                }
                let mut op = String::from_str(token_prefix);
                op.append("-op");
                proof {
                    assert(op@ =~= token_prefix@ + seq!['-', 'o', 'p']);
                }
                let v = i64_to_dec_string(round_ratio(100 * (*alpha as i64), 255));
                tw_set.push_tailwind_token(op.as_str(), v.as_str());
                proof {
                    lemma_apply_pushes_one(t0, op@, v@);
                }
            }
            proof {
                assert(tw_set.toks() == spec_apply_pushes(t0, ops));
            }
            let ghost pool = spec_color_pool(
                reg.colors@,
                *red as int,
                *green as int,
                *blue as int,
                literal@,
            );
            let mut resolved = search_color(reg, *red, *green, *blue);
            let exact = has_exact_color(reg, *red, *green, *blue);
            let ghost cands = spec_color_candidates(
                reg.colors@,
                *red as int,
                *green as int,
                *blue as int,
            );
            if resolved.len() == 0 {
                resolved.push(literal.clone());
                proof {
                    assert(resolved.deep_view() =~= pool);
                }
            } else if resolved.len() > 1 && !exact {
                let mut kept: Vec<String> = Vec::new();
                let n = resolved.len();
                let mut i: usize = 0;
                proof {
                    assert(kept.deep_view() =~= spec_unnumbered(cands.take(0)));
                }
                while i < n
                    invariant
                        n == resolved@.len(),
                        i <= n,
                        cands == resolved.deep_view(),
                        kept.deep_view() =~= spec_unnumbered(cands.take(i as int)),
                    decreases n - i,
                {
                    let name = &resolved[i];
                    let ghost kept0 = kept.deep_view();
                    proof {
                        assert(cands[i as int] == name@);
                    }
                    if !is_numbered_shade(name.as_str()) {
                        kept.push(name.clone());
                        proof {
                            assert(cands.take(i + 1).drop_last() =~= cands.take(i as int));
                            assert(cands.take(i + 1).last() == cands[i as int]);
                            assert(kept.deep_view() =~= kept0.push(name@));
                            assert(kept.deep_view() =~= spec_unnumbered(cands.take(i + 1)));
                        }
                    } else {
                        proof {
                            assert(cands.take(i + 1).drop_last() =~= cands.take(i as int));
                            assert(cands.take(i + 1).last() == cands[i as int]);
                            assert(kept.deep_view() =~= spec_unnumbered(cands.take(i + 1)));
                        }
                    }
                    i += 1;
                }
                proof {
                    assert(cands.take(n as int) =~= cands);
                }
                if kept.len() > 0 {
                    resolved = kept;
                }
                proof {
                    assert(resolved.deep_view() =~= pool);
                }
            } else {
                proof {
                    assert(resolved.deep_view() =~= pool);
                }
            }
            proof {
                assert(resolved.deep_view().len() > 0);
                assert(resolved.deep_view()[0] == pool[0]);
            }
            let first = &resolved[0];
            tw_set.push_tailwind_token(token_prefix, first.as_str());
            proof {
                lemma_apply_pushes_snoc(t0, ops, (token_prefix@, pool[0]));
                assert(ops.push((token_prefix@, pool[0])) =~= spec_color_emissions(
                    reg.colors@,
                    *income_value,
                    token_prefix@,
                ));
            }
        },
    }
}

/// The pushes one font-size makes: an `em`-like or pixel dimension looks up
/// the typography table and pushes every matching name under `text`; another
/// dimension falls back to a bracketed literal; named absolute sizes map
/// through the ordinal table; anything else emits nothing.
pub open spec fn spec_font_size_emissions(
    tbl: Seq<crate::registry::TypographyToken>,
    f: FontSizeVal,
) -> Seq<(Seq<char>, Seq<char>)> {
    match f {
        FontSizeVal::Length(dop) => match dop {
            DimOrPct::Dim(d) => {
                if spec_contains_em(d.unit@) {
                    spec_font_candidates(tbl, d.units as int).map_values(
                        |n: Seq<char>| ("text"@, n),
                    )
                } else {
                    match d.px_units {
                        Some(p) => spec_font_candidates(
                            tbl,
                            spec_round_ratio(p as int, 16),
                        ).map_values(|n: Seq<char>| ("text"@, n)),
                        None => seq![
                            ("text"@, spec_bracket(spec_fixed_str(d.units as int) + d.unit@)),
                        ],
                    }
                }
            },
            _ => Seq::<(Seq<char>, Seq<char>)>::empty(),
        },
        FontSizeVal::Absolute(s) => {
            let name = match s {
                AbsoluteSizeVal::XXSmall => "xs"@,
                AbsoluteSizeVal::XSmall => "xs"@,
                AbsoluteSizeVal::Small => "sm"@,
                AbsoluteSizeVal::Medium => "base"@,
                AbsoluteSizeVal::Large => "lg"@,
                AbsoluteSizeVal::XLarge => "xl"@,
                AbsoluteSizeVal::XXLarge => "2xl"@,
                AbsoluteSizeVal::XXXLarge => "3xl"@,
            };
            seq![("text"@, name)]
        },
        FontSizeVal::Relative => Seq::<(Seq<char>, Seq<char>)>::empty(),
    }
}

fn push_font_names(names: &Vec<String>, tw_set: &mut TailwindTokenSet)
    ensures
        final (tw_set).toks() == spec_apply_pushes(
            old(tw_set).toks(),
            names.deep_view().map_values(|n: Seq<char>| ("text"@, n)),
        ),
        spec_tokens_only_change(*old(tw_set), *final (tw_set)),
{
    let ghost t0 = old(tw_set).toks();
    let ghost emissions = names.deep_view().map_values(|n: Seq<char>| ("text"@, n));
    let n = names.len();
    let mut i: usize = 0;
    proof {
        assert(emissions.take(0) =~= Seq::<(Seq<char>, Seq<char>)>::empty());
    }
    while i < n
        invariant
            n == names@.len(),
            i <= n,
            emissions == names.deep_view().map_values(|n: Seq<char>| ("text"@, n)),
            emissions.len() == n,
            tw_set.toks() == spec_apply_pushes(t0, emissions.take(i as int)),
            spec_tokens_only_change(*old(tw_set), *tw_set),
        decreases n - i,
    {
        let name = &names[i];
        tw_set.push_tailwind_token("text", name.as_str());
        proof {
            lemma_apply_pushes_snoc(t0, emissions.take(i as int), ("text"@, name@));
            assert(emissions.take(i as int).push(("text"@, name@)) =~= emissions.take(i + 1));
        }
        i += 1;
    }
    proof {
        assert(emissions.take(n as int) =~= emissions);
    }
}

/// Resolves one font-size: table lookups for `em`-like and pixel sizes, the
/// ordinal table for named absolute sizes.
pub fn resolve_font_set(income_value: &FontSizeVal, tw_set: &mut TailwindTokenSet, reg: &Registry)
    requires
        income_value.wf(),
        reg.wf(),
    ensures
        final (tw_set).toks() == spec_apply_pushes(
            old(tw_set).toks(),
            spec_font_size_emissions(reg.typography@, *income_value),
        ),
        spec_tokens_only_change(*old(tw_set), *final (tw_set)),
{
    match income_value {
        FontSizeVal::Length(dop) => {
            match dop {
                DimOrPct::Dim(d) => {
                    if contains_em(d.unit.as_str()) {
                        let names = search_font(reg, d.units);
                        push_font_names(&names, tw_set);
                    } else {
                        match &d.px_units {
                            Some(p) => {
                                let names = search_font(reg, round_ratio(*p, 16));
                                push_font_names(&names, tw_set);
                            },
                            None => {
                                let mut lit = fixed_to_string(d.units);
                                lit.append(d.unit.as_str());
                                let v = bracket(lit.as_str());
                                tw_set.push_tailwind_token("text", v.as_str());
                                proof {
                                    lemma_apply_pushes_one(old(tw_set).toks(), "text"@, v@);
                                }
                            },
                        }
                    }
                },
                _ => {},
            }
        },
        FontSizeVal::Absolute(s) => {
            let name: &'static str = match s {
                AbsoluteSizeVal::XXSmall => "xs",
                AbsoluteSizeVal::XSmall => "xs",
                AbsoluteSizeVal::Small => "sm",
                AbsoluteSizeVal::Medium => "base",
                AbsoluteSizeVal::Large => "lg",
                AbsoluteSizeVal::XLarge => "xl",
                AbsoluteSizeVal::XXLarge => "2xl",
                AbsoluteSizeVal::XXXLarge => "3xl",
            };
            tw_set.push_tailwind_token("text", name);
            proof {
                lemma_apply_pushes_one(old(tw_set).toks(), "text"@, name@);
            }
        },
        FontSizeVal::Relative => {},
    }
}

/// The weight bucket one font-weight maps to, all under the `font` prefix.
pub open spec fn spec_font_weight_emissions(w: FontWeightVal) -> Seq<(Seq<char>, Seq<char>)> {
    match w {
        FontWeightVal::Weight(k) => {
            let name = if k <= 200 * (SCALE as int) {
                "extralight"@
            } else if k <= 300 * (SCALE as int) {
                "light"@
            } else if k <= 400 * (SCALE as int) {
                "normal"@
            } else if k <= 500 * (SCALE as int) {
                "medium"@
            } else if k <= 600 * (SCALE as int) {
                "semibold"@
            } else if k <= 700 * (SCALE as int) {
                "bold"@
            } else {
                "extrabold"@
            };
            seq![("font"@, name)]
        },
        FontWeightVal::Normal => seq![("font"@, "normal"@)],
        FontWeightVal::Bold => seq![("font"@, "bold"@)],
        FontWeightVal::Bolder => seq![("font"@, "medium"@)],
        FontWeightVal::Lighter => seq![("font"@, "light"@)],
    }
}

/// Resolves one font-weight into its named bucket.
pub fn resolve_font_weight(income_value: &FontWeightVal, tw_set: &mut TailwindTokenSet)
    requires
        income_value.wf(),
    ensures
        final (tw_set).toks() == spec_apply_pushes(
            old(tw_set).toks(),
            spec_font_weight_emissions(*income_value),
        ),
        spec_tokens_only_change(*old(tw_set), *final (tw_set)),
{
    let name: &'static str = match income_value {
        FontWeightVal::Weight(k) => {
            let k = *k;
            if k <= 200 * SCALE {
                "extralight"
            } else if k <= 300 * SCALE {
                "light"
            } else if k <= 400 * SCALE {
                "normal"
            } else if k <= 500 * SCALE {
                "medium"
            } else if k <= 600 * SCALE {
                "semibold"
            } else if k <= 700 * SCALE {
                "bold"
            } else {
                "extrabold"
            }
        },
        FontWeightVal::Normal => "normal",
        FontWeightVal::Bold => "bold",
        FontWeightVal::Bolder => "medium",
        FontWeightVal::Lighter => "light",
    };
    tw_set.push_tailwind_token("font", name);
    proof {
        lemma_apply_pushes_one(old(tw_set).toks(), "font"@, name@);
    }
}

/// The named bucket a line-height ratio falls in (fixed-point units): the
/// half-open bands from 1.0 up, then `loose` up to 2.0, nothing above.
pub open spec fn spec_lh_bucket_emissions(u: int, p: Seq<char>) -> Seq<(Seq<char>, Seq<char>)> {
    if 1000000 <= u && u < 1125000 {
        seq![(p, "none"@)]
    } else if 1125000 <= u && u < 1312500 {
        seq![(p, "tight"@)]
    } else if 1312500 <= u && u < 1437500 {
        seq![(p, "snug"@)]
    } else if 1437500 <= u && u < 1562500 {
        seq![(p, "normal"@)]
    } else if 1562500 <= u && u < 1812500 {
        seq![(p, "relaxed"@)]
    } else if u <= 2000000 {
        seq![(p, "loose"@)]
    } else {
        Seq::<(Seq<char>, Seq<char>)>::empty()
    }
}

fn push_lh_bucket(u: i64, tw_set: &mut TailwindTokenSet, token_prefix: &str)
    ensures
        final (tw_set).toks() == spec_apply_pushes(
            old(tw_set).toks(),
            spec_lh_bucket_emissions(u as int, token_prefix@),
        ),
        spec_tokens_only_change(*old(tw_set), *final (tw_set)),
{
    if 1000000 <= u && u < 1125000 {
        tw_set.push_tailwind_token(token_prefix, "none");
        proof {
            lemma_apply_pushes_one(old(tw_set).toks(), token_prefix@, "none"@);
        }
    } else if 1125000 <= u && u < 1312500 {
        tw_set.push_tailwind_token(token_prefix, "tight");
        proof {
            lemma_apply_pushes_one(old(tw_set).toks(), token_prefix@, "tight"@);
        }
    } else if 1312500 <= u && u < 1437500 {
        tw_set.push_tailwind_token(token_prefix, "snug");
        proof {
            lemma_apply_pushes_one(old(tw_set).toks(), token_prefix@, "snug"@);
        }
    } else if 1437500 <= u && u < 1562500 {
        tw_set.push_tailwind_token(token_prefix, "normal");
        proof {
            lemma_apply_pushes_one(old(tw_set).toks(), token_prefix@, "normal"@);
        }
    } else if 1562500 <= u && u < 1812500 {
        tw_set.push_tailwind_token(token_prefix, "relaxed");
        proof {
            lemma_apply_pushes_one(old(tw_set).toks(), token_prefix@, "relaxed"@);
        }
    } else if u <= 2000000 {
        tw_set.push_tailwind_token(token_prefix, "loose");
        proof {
            lemma_apply_pushes_one(old(tw_set).toks(), token_prefix@, "loose"@);
        }
    }
}

/// The pushes one line-height makes: plain ratios and percentages go to the
/// named buckets, absolute lengths quantize to a leading-scale step of
/// `round(rem * 4)`, `calc()` and `normal` emit nothing.
pub open spec fn spec_line_height_emissions(lh: LineHeightVal, p: Seq<char>) -> Seq<
    (Seq<char>, Seq<char>),
> {
    match lh {
        LineHeightVal::Normal => Seq::<(Seq<char>, Seq<char>)>::empty(),
        LineHeightVal::Number(u) => spec_lh_bucket_emissions(u as int, p),
        LineHeightVal::Length(dop) => match dop {
            DimOrPct::Dim(d) => {
                let step = if spec_contains_em(d.unit@) {
                    spec_round_ratio(4 * (d.units as int), SCALE as int)
                } else {
                    match d.px_units {
                        Some(px) => spec_round_ratio(px as int, 4 * (SCALE as int)),
                        None => 4,
                    }
                };
                seq![(p, spec_dec_int(step))]
            },
            DimOrPct::Pct(pc) => spec_lh_bucket_emissions(
                spec_round_ratio(pc.points_units as int, SCALE as int) * ((SCALE / 100) as int),
                p,
            ),
            DimOrPct::Calc(_) => Seq::<(Seq<char>, Seq<char>)>::empty(),
        },
    }
}

/// Resolves one line-height into a named bucket or a leading-scale step.
pub fn resolve_line_height_set(
    income_value: &LineHeightVal,
    tw_set: &mut TailwindTokenSet,
    token_prefix: &str,
)
    requires
        income_value.wf(),
    ensures
        final (tw_set).toks() == spec_apply_pushes(
            old(tw_set).toks(),
            spec_line_height_emissions(*income_value, token_prefix@),
        ),
        spec_tokens_only_change(*old(tw_set), *final (tw_set)),
{
    match income_value {
        LineHeightVal::Normal => {},
        LineHeightVal::Number(u) => {
            push_lh_bucket(*u, tw_set, token_prefix);
        },
        LineHeightVal::Length(dop) => {
            match dop {
                DimOrPct::Dim(d) => {
                    let step: i64 = if contains_em(d.unit.as_str()) {
                        round_ratio(4 * d.units, SCALE)
                    } else {
                        match &d.px_units {
                            Some(px) => round_ratio(*px, 4 * SCALE),
                            None => 4,
                        }
                    };
                    let v = i64_to_dec_string(step);
                    tw_set.push_tailwind_token(token_prefix, v.as_str());
                    proof {
                        lemma_apply_pushes_one(old(tw_set).toks(), token_prefix@, v@);
                    }
                },
                DimOrPct::Pct(pc) => {
                    let k = round_ratio(pc.points_units, SCALE);
                    proof {
                        crate::numeric::lemma_round_ratio_bound(
                            pc.points_units as int,
                            SCALE as int,
                            1_000_000_000,
                        );
                    }
                    proof {
                        assert((SCALE / 100) as int == 10000int);
                    }
                    push_lh_bucket(k * 10000, tw_set, token_prefix);
                },
                DimOrPct::Calc(_) => {},
            }
        },
    }
}

/// The bracketed literal an unmatched cubic bezier renders as.
pub open spec fn spec_bezier_literal(a: int, b: int, c: int, d: int) -> Seq<char> {
    "[cubic-bezier:"@ + spec_fixed_str(a) + "_"@ + spec_fixed_str(b) + "_"@ + spec_fixed_str(c)
        + "_"@ + spec_fixed_str(d) + "]"@
}

fn bezier_literal(a: i64, b: i64, c: i64, d: i64) -> (s: String)
    requires
        crate::values::units_ok(a as int),
        crate::values::units_ok(b as int),
        crate::values::units_ok(c as int),
        crate::values::units_ok(d as int),
    ensures
        s@ == spec_bezier_literal(a as int, b as int, c as int, d as int),
{
    let mut s = String::from_str("[cubic-bezier:");
    s.append(fixed_to_string(a).as_str());
    s.append("_");
    s.append(fixed_to_string(b).as_str());
    s.append("_");
    s.append(fixed_to_string(c).as_str());
    s.append("_");
    s.append(fixed_to_string(d).as_str());
    s.append("]");
    proof {
        assert(s@ =~= spec_bezier_literal(a as int, b as int, c as int, d as int));
    }
    s
}

/// The pushes one easing function makes: the six named motion curves match
/// by exact coefficients, an unmatched bezier renders as a bracketed
/// literal, linear maps to its fixed token, steps are dropped, and other
/// named curves pass through bare.
pub open spec fn spec_easing_emissions(e: EasingVal) -> Seq<(Seq<char>, Seq<char>)> {
    match e {
        EasingVal::Bezier(a, b, c, d) => {
            let name: Seq<char> = if a == 200000 && b == 0 && c == 380000 && d == 900000 {
                "standard-productive"@
            } else if a == 400000 && b == 140000 && c == 300000 && d == 1000000 {
                "standard-expressive"@
            } else if a == 0 && b == 0 && c == 380000 && d == 900000 {
                "entrance-productive"@
            } else if a == 0 && b == 0 && c == 300000 && d == 1000000 {
                "entrance-expressive"@
            } else if a == 200000 && b == 0 && c == 1000000 && d == 900000 {
                "exit-productive"@
            } else if a == 400000 && b == 140000 && c == 1000000 && d == 1000000 {
                "exit-expressive"@
            } else {
                spec_bezier_literal(a as int, b as int, c as int, d as int)
            };
            seq![("ease"@, name)]
        },
        EasingVal::Steps => Seq::<(Seq<char>, Seq<char>)>::empty(),
        EasingVal::Linear => seq![("ease"@, "linear"@)],
        EasingVal::Keyword(css) => seq![(Seq::<char>::empty(), css@)],
    }
}

/// Resolves one easing function against the named motion curves.
pub fn resolve_easing(income_value: &EasingVal, tw_set: &mut TailwindTokenSet)
    requires
        income_value.wf(),
    ensures
        final (tw_set).toks() == spec_apply_pushes(
            old(tw_set).toks(),
            spec_easing_emissions(*income_value),
        ),
        spec_tokens_only_change(*old(tw_set), *final (tw_set)),
{
    match income_value {
        EasingVal::Bezier(a, b, c, d) => {
            let (a, b, c, d) = (*a, *b, *c, *d);
            if a == 200000 && b == 0 && c == 380000 && d == 900000 {
                tw_set.push_tailwind_token("ease", "standard-productive");
                proof {
                    lemma_apply_pushes_one(old(tw_set).toks(), "ease"@, "standard-productive"@);
                }
            } else if a == 400000 && b == 140000 && c == 300000 && d == 1000000 {
                tw_set.push_tailwind_token("ease", "standard-expressive");
                proof {
                    lemma_apply_pushes_one(old(tw_set).toks(), "ease"@, "standard-expressive"@);
                }
            } else if a == 0 && b == 0 && c == 380000 && d == 900000 {
                tw_set.push_tailwind_token("ease", "entrance-productive");
                proof {
                    lemma_apply_pushes_one(old(tw_set).toks(), "ease"@, "entrance-productive"@);
                }
            } else if a == 0 && b == 0 && c == 300000 && d == 1000000 {
                tw_set.push_tailwind_token("ease", "entrance-expressive");
                proof {
                    lemma_apply_pushes_one(old(tw_set).toks(), "ease"@, "entrance-expressive"@);
                }
            } else if a == 200000 && b == 0 && c == 1000000 && d == 900000 {
                tw_set.push_tailwind_token("ease", "exit-productive");
                proof {
                    lemma_apply_pushes_one(old(tw_set).toks(), "ease"@, "exit-productive"@);
                }
            } else if a == 400000 && b == 140000 && c == 1000000 && d == 1000000 {
                tw_set.push_tailwind_token("ease", "exit-expressive");
                proof {
                    lemma_apply_pushes_one(old(tw_set).toks(), "ease"@, "exit-expressive"@);
                }
            } else {
                let v = bezier_literal(a, b, c, d);
                tw_set.push_tailwind_token("ease", v.as_str());
                proof {
                    lemma_apply_pushes_one(old(tw_set).toks(), "ease"@, v@);
                }
            }
        },
        EasingVal::Steps => {},
        EasingVal::Linear => {
            tw_set.push_tailwind_token("ease", "linear");
            proof {
                lemma_apply_pushes_one(old(tw_set).toks(), "ease"@, "linear"@);
            }
        },
        EasingVal::Keyword(css) => {
            tw_set.push_tailwind_token("", css.as_str());
            proof {
                reveal_strlit("");
                assert(""@ =~= Seq::<char>::empty());
                lemma_apply_pushes_one(old(tw_set).toks(), ""@, css@);
            }
        },
    }
}


/// The unnumbered filter keeps exactly the names that are not numbered
/// shades, in order.
pub proof fn lemma_unnumbered_props(s: Seq<Seq<char>>)
    ensures
        forall|k: int|
            0 <= k < spec_unnumbered(s).len() ==> !spec_is_numbered_shade(
                #[trigger] spec_unnumbered(s)[k],
            ),
        forall|k: int|
            0 <= k < s.len() && !spec_is_numbered_shade(#[trigger] s[k]) ==> spec_unnumbered(
                s,
            ).contains(s[k]),
    decreases s.len(),
{
    if s.len() > 0 {
        lemma_unnumbered_props(s.drop_last());
        let prev = spec_unnumbered(s.drop_last());
        let cur = spec_unnumbered(s);
        assert forall|k: int|
            0 <= k < s.len() && !spec_is_numbered_shade(#[trigger] s[k]) implies cur.contains(
            s[k],
        ) by {
            if k == s.len() - 1 {
                assert(cur.last() == s[k]);
            } else {
                assert(s.drop_last()[k] == s[k]);
                let j = choose|j: int| 0 <= j < prev.len() && prev[j] == s.drop_last()[k];
                assert(cur[j] == s[k]);
            }
        }
    }
}

/// The ambiguity filter: with several candidates and no exact match, no
/// numbered shade reaches the final pool when an unnumbered alternative
/// exists among the candidates.
pub proof fn lemma_color_ambiguity_filter(
    tbl: Seq<crate::registry::ColorToken>,
    r: int,
    g: int,
    b: int,
    literal: Seq<char>,
    k: int,
)
    requires
        spec_color_candidates(tbl, r, g, b).len() > 1,
        !spec_has_exact_color(tbl, r, g, b),
        exists|j: int|
            0 <= j < spec_color_candidates(tbl, r, g, b).len() && !spec_is_numbered_shade(
                #[trigger] spec_color_candidates(tbl, r, g, b)[j],
            ),
        0 <= k < spec_color_pool(tbl, r, g, b, literal).len(),
    ensures
        !spec_is_numbered_shade(spec_color_pool(tbl, r, g, b, literal)[k]),
{
    let cands = spec_color_candidates(tbl, r, g, b);
    lemma_unnumbered_props(cands);
    let j = choose|j: int| 0 <= j < cands.len() && !spec_is_numbered_shade(#[trigger] cands[j]);
    assert(spec_unnumbered(cands).contains(cands[j]));
    assert(spec_unnumbered(cands).len() > 0);
    assert(spec_color_pool(tbl, r, g, b, literal) == spec_unnumbered(cands));
}

} // verus!
