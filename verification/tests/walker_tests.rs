use tw_tokens::dispatch::{BoxDecl, Declaration, SizeProp};
use tw_tokens::media::{MediaCondVal, MediaFeatureVal, MediaQueryVal};
use tw_tokens::registry::{MediaToken, Registry};
use tw_tokens::values::{Dim, DimOrPct, LpaVal, SizeVal};
use tw_tokens::walker::{NestedRule, Rule, StyleRuleData, resolve_stylesheet, split_selectors};
use tw_tokens::dispatch::LpaProp;

const SCALE: i64 = 1_000_000;

fn reg() -> Registry {
    let mut reg = Registry::new();
    reg.media = vec![MediaToken {
        token_name: "md".to_string(),
        min_width_string: "48rem".to_string(),
        max_width_string: String::new(),
        min_width: Some(Dim { units: 48 * SCALE, unit: "rem".to_string(), px_units: None }),
        max_width: None,
    }];
    reg
}

fn px(v: i64) -> DimOrPct {
    DimOrPct::Dim(Dim { units: v, unit: "px".to_string(), px_units: Some(v) })
}

fn style(selectors: &str, raw: &str, decls: Vec<Declaration>) -> StyleRuleData {
    StyleRuleData {
        selector_text: selectors.to_string(),
        raw_text: raw.to_string(),
        declarations: decls,
    }
}

#[test]
fn selectors_split_on_comma_space() {
    assert_eq!(split_selectors(".a, .b, .c"), vec![".a", ".b", ".c"]);
    assert_eq!(split_selectors(".lone"), vec![".lone"]);
    // a comma without a following space is not a separator
    assert_eq!(split_selectors(".a,.b"), vec![".a,.b"]);
}

#[test]
fn plain_style_rule_produces_one_set() {
    let r = reg();
    let rules = vec![Rule::Style(style(
        ".card, .panel",
        ".card, .panel { width: 24px }",
        vec![
            Declaration::BoxModel(BoxDecl::Size(SizeProp::Width, SizeVal::Value(px(24 * SCALE)))),
            Declaration::BoxModel(BoxDecl::Lpa(LpaProp::MarginTop, LpaVal::Value(px(8 * SCALE)))),
        ],
    ))];
    let out = resolve_stylesheet(&rules, "base.css", &r);
    assert_eq!(out.len(), 1);
    let ts = &out[0];
    assert_eq!(ts.involved_classnames, vec![".card".to_string(), ".panel".to_string()]);
    assert_eq!(ts.layer_group, "base.css");
    assert_eq!(ts.raw_property, ".card, .panel { width: 24px }");
    assert_eq!(ts.raw_property_count, 2);
    assert_eq!(ts.media_query, Vec::<String>::new());
    assert_eq!(ts.rendered_tokens(), vec!["w-6".to_string(), "mt-2".to_string()]);
}

#[test]
fn media_rule_attaches_shared_tokens_and_count() {
    let r = reg();
    let q = MediaQueryVal {
        condition: Some(MediaCondVal::Feature(MediaFeatureVal::Plain {
            name: "min-width".to_string(),
            value: Some(Dim { units: 48 * SCALE, unit: "em".to_string(), px_units: None }),
        })),
    };
    let rules = vec![Rule::Media {
        queries: vec![q],
        rules: vec![
            NestedRule::Style(style(
                ".card",
                "@media (min-width: 48em) { ... }",
                vec![Declaration::BoxModel(BoxDecl::Size(
                    SizeProp::Width,
                    SizeVal::Value(px(24 * SCALE)),
                ))],
            )),
            NestedRule::Other,
        ],
    }];
    let out = resolve_stylesheet(&rules, "theme.css", &r);
    assert_eq!(out.len(), 1);
    let ts = &out[0];
    assert_eq!(ts.media_query, vec!["md".to_string()]);
    // the nested count includes every nested rule, style or not
    assert_eq!(ts.raw_property_count, 2);
    assert_eq!(ts.rendered_tokens(), vec!["w-6".to_string()]);
    assert_eq!(ts.raw_property, "@media (min-width: 48em) { ... }");
}

#[test]
fn unsupported_rules_produce_nothing() {
    let r = reg();
    let rules = vec![
        Rule::Other,
        Rule::Style(style(".a", ".a {}", vec![])),
        Rule::Other,
    ];
    let out = resolve_stylesheet(&rules, "x.css", &r);
    assert_eq!(out.len(), 1);
    assert_eq!(out[0].raw_property_count, 0);
    assert_eq!(out[0].rendered_tokens(), Vec::<String>::new());
}
