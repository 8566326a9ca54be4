use tw_tokens::registry::{MediaToken, Registry, search_media, parse_width_literal};
use tw_tokens::media::{
    MediaCondItem,
    MediaCondVal,
    MediaFeatureVal,
    MediaQueryVal,
    RangeOp,
    resolve_media_query_feat,
    resolve_media_query_prefix,
};
use tw_tokens::values::Dim;

const SCALE: i64 = 1_000_000;

fn bp(name: &str, min_rem: Option<i64>, max_rem: Option<i64>) -> MediaToken {
    MediaToken {
        token_name: name.to_string(),
        min_width_string: String::new(),
        max_width_string: String::new(),
        min_width: min_rem.map(|v| Dim {
            units: v,
            unit: "rem".to_string(),
            px_units: None,
        }),
        max_width: max_rem.map(|v| Dim {
            units: v,
            unit: "rem".to_string(),
            px_units: None,
        }),
    }
}

fn reg_with(media: Vec<MediaToken>) -> Registry {
    let mut reg = Registry::new();
    reg.media = media;
    reg
}

fn em_len(v: i64) -> Dim {
    Dim { units: v, unit: "em".to_string(), px_units: None }
}

#[test]
fn plain_min_width_matches_within_tolerance() {
    let reg = reg_with(vec![bp("md", Some(48 * SCALE), None), bp("lg", Some(64 * SCALE), None)]);
    // 48em is within +-2 of the 48rem bound
    let found = search_media(&reg, "min-width", 48 * SCALE);
    assert_eq!(found, vec!["md".to_string()]);
    // the window reaches 2 rem either way
    assert_eq!(search_media(&reg, "min-width", 50 * SCALE), vec!["md".to_string()]);
    assert_eq!(search_media(&reg, "min-width", 51 * SCALE), Vec::<String>::new());
}

#[test]
fn plain_feature_resolves_breakpoint() {
    let reg = reg_with(vec![bp("md", Some(48 * SCALE), None)]);
    let f = MediaFeatureVal::Plain { name: "min-width".to_string(), value: Some(em_len(48 * SCALE)) };
    assert_eq!(resolve_media_query_feat(&f, &reg), vec!["md".to_string()]);
}

#[test]
fn plain_max_width_uses_max_bound() {
    let reg = reg_with(vec![bp("sm", None, Some(40 * SCALE))]);
    let f = MediaFeatureVal::Plain { name: "max-width".to_string(), value: Some(em_len(40 * SCALE)) };
    assert_eq!(resolve_media_query_feat(&f, &reg), vec!["sm".to_string()]);
    // the same value against min-width finds nothing
    let g = MediaFeatureVal::Plain { name: "min-width".to_string(), value: Some(em_len(40 * SCALE)) };
    assert_eq!(resolve_media_query_feat(&g, &reg), Vec::<String>::new());
}

#[test]
fn pixel_features_convert_to_rem() {
    let reg = reg_with(vec![bp("md", Some(48 * SCALE), None)]);
    // 768px / 16 = 48rem
    let f = MediaFeatureVal::Plain {
        name: "min-width".to_string(),
        value: Some(Dim { units: 768 * SCALE, unit: "px".to_string(), px_units: Some(768 * SCALE) }),
    };
    assert_eq!(resolve_media_query_feat(&f, &reg), vec!["md".to_string()]);
}

#[test]
fn range_tie_break_prefers_bucket() {
    // both candidates lie in the tolerance window of 48; the gt- name wins
    // for a greater-than-or-equal comparison even though lt- comes first
    let reg = reg_with(vec![bp("lt-md", Some(48 * SCALE), None), bp("gt-md", Some(49 * SCALE), None)]);
    let f = MediaFeatureVal::Range { op: RangeOp::GreaterThanEqual, value: Some(em_len(48 * SCALE)) };
    assert_eq!(resolve_media_query_feat(&f, &reg), vec!["gt-md".to_string()]);
    // an equality comparison has no at- candidate: the first candidate stays
    let g = MediaFeatureVal::Range { op: RangeOp::Equal, value: Some(em_len(48 * SCALE)) };
    assert_eq!(resolve_media_query_feat(&g, &reg), vec!["lt-md".to_string()]);
}

#[test]
fn conjunction_unions_feature_tokens() {
    let reg = reg_with(vec![bp("md", Some(48 * SCALE), None), bp("sm", None, Some(40 * SCALE))]);
    let q = MediaQueryVal {
        condition: Some(MediaCondVal::Operation(vec![
            MediaCondItem::Feature(MediaFeatureVal::Plain {
                name: "min-width".to_string(),
                value: Some(em_len(48 * SCALE)),
            }),
            MediaCondItem::Feature(MediaFeatureVal::Plain {
                name: "max-width".to_string(),
                value: Some(em_len(40 * SCALE)),
            }),
        ])),
    };
    assert_eq!(resolve_media_query_prefix(&q, &reg), vec!["md".to_string(), "sm".to_string()]);
}

#[test]
fn unsupported_conditions_yield_nothing() {
    let reg = reg_with(vec![bp("md", Some(48 * SCALE), None)]);
    let q = MediaQueryVal { condition: Some(MediaCondVal::Unsupported) };
    assert_eq!(resolve_media_query_prefix(&q, &reg), Vec::<String>::new());
    let none = MediaQueryVal { condition: None };
    assert_eq!(resolve_media_query_prefix(&none, &reg), Vec::<String>::new());
}

#[test]
fn pixel_bounds_normalize_to_rem() {
    // a preset stored as 768px participates in the window as 768 / 16 = 48 rem
    let px_bound = Dim { units: 768 * SCALE, unit: "px".to_string(), px_units: Some(768 * SCALE) };
    let reg = reg_with(vec![MediaToken {
        token_name: "md".to_string(),
        min_width_string: "768px".to_string(),
        max_width_string: String::new(),
        min_width: Some(px_bound),
        max_width: None,
    }]);
    assert_eq!(search_media(&reg, "min-width", 48 * SCALE), vec!["md".to_string()]);
    // the same bound through a whole feature, queried in em
    let f = MediaFeatureVal::Plain { name: "min-width".to_string(), value: Some(em_len(48 * SCALE)) };
    assert_eq!(resolve_media_query_feat(&f, &reg), vec!["md".to_string()]);
    // and a range feature finds it too
    let g = MediaFeatureVal::Range { op: RangeOp::GreaterThanEqual, value: Some(em_len(48 * SCALE)) };
    assert_eq!(resolve_media_query_feat(&g, &reg), vec!["md".to_string()]);
    // outside the window nothing matches
    assert_eq!(search_media(&reg, "min-width", 51 * SCALE), Vec::<String>::new());
}

#[test]
fn parsed_pixel_literal_matches_rem_query() {
    // the loader's own parse of a px literal feeds straight into the search
    let bound = parse_width_literal("768px").unwrap();
    let reg = reg_with(vec![MediaToken {
        token_name: "md".to_string(),
        min_width_string: "768px".to_string(),
        max_width_string: String::new(),
        min_width: Some(bound),
        max_width: None,
    }]);
    assert_eq!(search_media(&reg, "min-width", 48 * SCALE), vec!["md".to_string()]);
}

#[test]
fn width_literal_parsing() {
    let d = parse_width_literal("48rem").unwrap();
    assert_eq!(d.units, 48 * SCALE);
    assert_eq!(d.unit, "rem");
    assert!(d.px_units.is_none());

    let p = parse_width_literal("768px").unwrap();
    assert_eq!(p.units, 768 * SCALE);
    assert_eq!(p.px_units, Some(768 * SCALE));

    let f = parse_width_literal("1.5em").unwrap();
    assert_eq!(f.units, 1_500_000);
    assert!(f.px_units.is_none());

    // unknown unit degrades to a zero rem bound
    let v = parse_width_literal("10vw").unwrap();
    assert_eq!(v.units, 0);

    // malformed literals are rejected
    assert!(parse_width_literal("rem").is_none());
    assert!(parse_width_literal("48").is_none());
    assert!(parse_width_literal("1.2.3rem").is_none());
    assert!(parse_width_literal("").is_none());
}
