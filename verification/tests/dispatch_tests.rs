use tw_tokens::dispatch::{
    BorderDecl,
    BorderSideProp,
    BoxDecl,
    Declaration,
    KeywordProp,
    LpaProp,
    LpaQuadProp,
    MotionDecl,
    SizeProp,
    TextDecl,
    TimeListProp,
    resolve_declaration,
    resolve_style,
};
use tw_tokens::registry::{ColorToken, Registry};
use tw_tokens::token_set::TailwindTokenSet;
use tw_tokens::values::{
    BorderWidthVal,
    ColorVal,
    Dim,
    DimOrPct,
    DisplayVal,
    LpaVal,
    SizeVal,
    TimeVal,
};

const SCALE: i64 = 1_000_000;

fn reg() -> Registry {
    let mut reg = Registry::new();
    reg.colors = vec![ColorToken {
        token_name: "blue-500".to_string(),
        token_value: String::new(),
        color_set_red: 59,
        color_set_green: 130,
        color_set_blue: 246,
    }];
    reg
}

fn px(v: i64) -> DimOrPct {
    DimOrPct::Dim(Dim { units: v, unit: "px".to_string(), px_units: Some(v) })
}

#[test]
fn unmapped_declaration_emits_nothing() {
    // an unmapped kind produces zero tokens and leaves the count untouched
    let r = reg();
    let mut ts = TailwindTokenSet::new();
    ts.set_raw_property_count(5);
    ts.push_tailwind_token("w", "6");
    resolve_declaration(&Declaration::Unsupported, &mut ts, &r);
    assert_eq!(ts.rendered_tokens(), vec!["w-6".to_string()]);
    assert_eq!(ts.raw_property_count, 5);
}

#[test]
fn width_routes_to_spacing_scale() {
    let r = reg();
    let mut ts = TailwindTokenSet::new();
    let d = Declaration::BoxModel(BoxDecl::Size(SizeProp::Width, SizeVal::Value(px(24 * SCALE))));
    resolve_declaration(&d, &mut ts, &r);
    assert_eq!(ts.rendered_tokens(), vec!["w-6".to_string()]);
}

#[test]
fn margin_shorthand_fans_out() {
    let r = reg();
    let mut ts = TailwindTokenSet::new();
    let d = Declaration::BoxModel(BoxDecl::LpaQuad(
        LpaQuadProp::Margin,
        LpaVal::Value(px(8 * SCALE)),
        LpaVal::Value(px(16 * SCALE)),
        LpaVal::Value(px(8 * SCALE)),
        LpaVal::Auto,
    ));
    resolve_declaration(&d, &mut ts, &r);
    assert_eq!(
        ts.rendered_tokens(),
        vec!["mt-2".to_string(), "ml-4".to_string(), "mb-2".to_string(), "mr-auto".to_string()]
    );
}

#[test]
fn border_shorthand_collapses_to_last_push() {
    // style, width and color all target the same prefix, so only the last
    // resolution survives the override rule
    let r = reg();
    let mut ts = TailwindTokenSet::new();
    let d = Declaration::Border(BorderDecl::Shorthand(
        BorderSideProp::Top,
        "solid".to_string(),
        BorderWidthVal::Value(Dim { units: 4 * SCALE, unit: "px".to_string(), px_units: Some(4 * SCALE) }),
        ColorVal::Rgba { red: 59, green: 130, blue: 246, alpha: 255, literal: "#3b82f6".to_string() },
    ));
    resolve_declaration(&d, &mut ts, &r);
    assert_eq!(ts.rendered_tokens(), vec!["b-t-blue-500".to_string()]);
}

#[test]
fn display_none_becomes_hidden() {
    let r = reg();
    let mut ts = TailwindTokenSet::new();
    resolve_declaration(&Declaration::Text(TextDecl::Display(DisplayVal::Hidden)), &mut ts, &r);
    assert_eq!(ts.rendered_tokens(), vec!["hidden".to_string()]);
}

#[test]
fn keyword_passes_through_under_prefix() {
    let r = reg();
    let mut ts = TailwindTokenSet::new();
    let d = Declaration::Text(TextDecl::Keyword(KeywordProp::Cursor, "pointer".to_string()));
    resolve_declaration(&d, &mut ts, &r);
    assert_eq!(ts.rendered_tokens(), vec!["cursor-pointer".to_string()]);
}

#[test]
fn transition_property_names_classify() {
    let r = reg();
    let mut ts = TailwindTokenSet::new();
    let d = Declaration::Motion(MotionDecl::TransitionProperty(vec![
        "all".to_string(),
        "background-color".to_string(),
        "letter-spacing".to_string(),
    ]));
    resolve_declaration(&d, &mut ts, &r);
    // "all" then "colors"; the unrelated name is dropped, and both pushes
    // share the transition prefix so the later one wins
    assert_eq!(ts.rendered_tokens(), vec!["transition-colors".to_string()]);
}

#[test]
fn duration_list_quantizes_each_time() {
    let r = reg();
    let mut ts = TailwindTokenSet::new();
    let d = Declaration::Motion(MotionDecl::TimeList(
        TimeListProp::TransitionDuration,
        vec![TimeVal::Seconds(300_000), TimeVal::Milliseconds(150 * SCALE)],
    ));
    resolve_declaration(&d, &mut ts, &r);
    // both go under the duration prefix; the later value replaces the first
    assert_eq!(ts.rendered_tokens(), vec!["duration-150".to_string()]);
}

#[test]
fn style_rule_resolves_in_declaration_order() {
    let r = reg();
    let mut ts = TailwindTokenSet::new();
    let decls = vec![
        Declaration::BoxModel(BoxDecl::Size(SizeProp::Width, SizeVal::Value(px(24 * SCALE)))),
        Declaration::BoxModel(BoxDecl::Lpa(LpaProp::MarginTop, LpaVal::Value(px(8 * SCALE)))),
        Declaration::Unsupported,
        Declaration::BoxModel(BoxDecl::Size(SizeProp::Width, SizeVal::Auto)),
    ];
    resolve_style(&decls, &mut ts, &r);
    assert_eq!(ts.rendered_tokens(), vec!["mt-2".to_string(), "w-auto".to_string()]);
}
