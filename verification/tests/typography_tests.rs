use tw_tokens::registry::{Registry, TypographyToken, search_font};
use tw_tokens::resolve::{resolve_font_set, resolve_font_weight, resolve_line_height_set};
use tw_tokens::token_set::TailwindTokenSet;
use tw_tokens::values::{
    AbsoluteSizeVal,
    Dim,
    DimOrPct,
    FontSizeVal,
    FontWeightVal,
    LineHeightVal,
    Pct,
};

const SCALE: i64 = 1_000_000;

fn typo(name: &str, rem: i64) -> TypographyToken {
    TypographyToken {
        token_name: name.to_string(),
        font_size: String::new(),
        line_height: String::new(),
        font_size_dim: Some(Dim { units: rem, unit: "rem".to_string(), px_units: None }),
    }
}

fn reg_with(typography: Vec<TypographyToken>) -> Registry {
    let mut reg = Registry::new();
    reg.typography = typography;
    reg
}

#[test]
fn font_size_matches_exactly() {
    let reg = reg_with(vec![typo("sm", 875_000), typo("base", SCALE)]);
    assert_eq!(search_font(&reg, 875_000), vec!["sm".to_string()]);
    // no tolerance: off by the smallest step finds nothing
    assert_eq!(search_font(&reg, 875_001), Vec::<String>::new());
}

#[test]
fn pixel_preset_normalizes_to_rem() {
    // a preset stored as 16px matches a 1rem query: 16 / 16 = 1
    let reg = reg_with(vec![TypographyToken {
        token_name: "base".to_string(),
        font_size: "16px".to_string(),
        line_height: String::new(),
        font_size_dim: Some(Dim {
            units: 16 * SCALE,
            unit: "px".to_string(),
            px_units: Some(16 * SCALE),
        }),
    }]);
    assert_eq!(search_font(&reg, SCALE), vec!["base".to_string()]);
}

#[test]
fn font_size_resolver_pushes_text_tokens() {
    let reg = reg_with(vec![typo("base", SCALE)]);
    let mut ts = TailwindTokenSet::new();
    let f = FontSizeVal::Length(DimOrPct::Dim(Dim {
        units: SCALE,
        unit: "rem".to_string(),
        px_units: None,
    }));
    resolve_font_set(&f, &mut ts, &reg);
    assert_eq!(ts.rendered_tokens(), vec!["text-base".to_string()]);
}

#[test]
fn pixel_font_size_converts_to_rem() {
    // a preset at 1rem matches a 16px query
    let reg = reg_with(vec![typo("base", SCALE)]);
    let mut ts = TailwindTokenSet::new();
    let f = FontSizeVal::Length(DimOrPct::Dim(Dim {
        units: 16 * SCALE,
        unit: "px".to_string(),
        px_units: Some(16 * SCALE),
    }));
    resolve_font_set(&f, &mut ts, &reg);
    assert_eq!(ts.rendered_tokens(), vec!["text-base".to_string()]);
}

#[test]
fn absolute_sizes_map_through_ordinals() {
    let reg = reg_with(vec![]);
    let cases = [
        (AbsoluteSizeVal::XXSmall, "text-xs"),
        (AbsoluteSizeVal::XSmall, "text-xs"),
        (AbsoluteSizeVal::Small, "text-sm"),
        (AbsoluteSizeVal::Medium, "text-base"),
        (AbsoluteSizeVal::Large, "text-lg"),
        (AbsoluteSizeVal::XLarge, "text-xl"),
        (AbsoluteSizeVal::XXLarge, "text-2xl"),
        (AbsoluteSizeVal::XXXLarge, "text-3xl"),
    ];
    for (abs, expect) in cases {
        let mut ts = TailwindTokenSet::new();
        resolve_font_set(&FontSizeVal::Absolute(abs), &mut ts, &reg);
        assert_eq!(ts.rendered_tokens(), vec![expect.to_string()]);
    }
}

#[test]
fn relative_sizes_resolve_to_nothing() {
    let reg = reg_with(vec![]);
    let mut ts = TailwindTokenSet::new();
    resolve_font_set(&FontSizeVal::Relative, &mut ts, &reg);
    assert_eq!(ts.rendered_tokens(), Vec::<String>::new());
}

#[test]
fn font_weight_buckets() {
    let cases = [
        (FontWeightVal::Weight(200 * SCALE), "font-extralight"),
        (FontWeightVal::Weight(300 * SCALE), "font-light"),
        (FontWeightVal::Weight(400 * SCALE), "font-normal"),
        (FontWeightVal::Weight(500 * SCALE), "font-medium"),
        (FontWeightVal::Weight(600 * SCALE), "font-semibold"),
        (FontWeightVal::Weight(700 * SCALE), "font-bold"),
        (FontWeightVal::Weight(800 * SCALE), "font-extrabold"),
        (FontWeightVal::Normal, "font-normal"),
        (FontWeightVal::Bold, "font-bold"),
        (FontWeightVal::Bolder, "font-medium"),
        (FontWeightVal::Lighter, "font-light"),
    ];
    for (w, expect) in cases {
        let mut ts = TailwindTokenSet::new();
        resolve_font_weight(&w, &mut ts);
        assert_eq!(ts.rendered_tokens(), vec![expect.to_string()]);
    }
}

#[test]
fn line_height_bucket_boundaries() {
    // the 1.125 boundary is half-open: exactly 1.125 is tight, just below
    // stays none
    let cases = [
        (1_000_000i64, "leading-none"),
        (1_124_999, "leading-none"),
        (1_125_000, "leading-tight"),
        (1_312_499, "leading-tight"),
        (1_312_500, "leading-snug"),
        (1_437_500, "leading-normal"),
        (1_562_500, "leading-relaxed"),
        (1_812_500, "leading-loose"),
        (2_000_000, "leading-loose"),
    ];
    for (u, expect) in cases {
        let mut ts = TailwindTokenSet::new();
        resolve_line_height_set(&LineHeightVal::Number(u), &mut ts, "leading");
        assert_eq!(ts.rendered_tokens(), vec![expect.to_string()], "ratio {}", u);
    }
    // above 2.0 nothing is emitted
    let mut ts = TailwindTokenSet::new();
    resolve_line_height_set(&LineHeightVal::Number(2_000_001), &mut ts, "leading");
    assert_eq!(ts.rendered_tokens(), Vec::<String>::new());
}

#[test]
fn line_height_lengths_quantize_to_leading_steps() {
    // 1.5rem -> round(1.5 * 4) = 6
    let mut ts = TailwindTokenSet::new();
    let lh = LineHeightVal::Length(DimOrPct::Dim(Dim {
        units: 1_500_000,
        unit: "rem".to_string(),
        px_units: None,
    }));
    resolve_line_height_set(&lh, &mut ts, "leading");
    assert_eq!(ts.rendered_tokens(), vec!["leading-6".to_string()]);
    // 24px -> round(24 / 4) = 6
    let mut ts2 = TailwindTokenSet::new();
    let lh2 = LineHeightVal::Length(DimOrPct::Dim(Dim {
        units: 24 * SCALE,
        unit: "px".to_string(),
        px_units: Some(24 * SCALE),
    }));
    resolve_line_height_set(&lh2, &mut ts2, "leading");
    assert_eq!(ts2.rendered_tokens(), vec!["leading-6".to_string()]);
}

#[test]
fn line_height_percentage_buckets_by_ratio() {
    // 150% is a 1.5 ratio: the normal band
    let mut ts = TailwindTokenSet::new();
    let lh = LineHeightVal::Length(DimOrPct::Pct(Pct { points_units: 150 * SCALE }));
    resolve_line_height_set(&lh, &mut ts, "leading");
    assert_eq!(ts.rendered_tokens(), vec!["leading-normal".to_string()]);
}
