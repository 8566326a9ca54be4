use tw_tokens::registry::{ColorToken, Registry, in_range, search_color, has_exact_color};
use tw_tokens::resolve::resolve_color;
use tw_tokens::token_set::TailwindTokenSet;
use tw_tokens::values::ColorVal;

fn color(name: &str, r: u8, g: u8, b: u8) -> ColorToken {
    ColorToken {
        token_name: name.to_string(),
        token_value: String::new(),
        color_set_red: r,
        color_set_green: g,
        color_set_blue: b,
    }
}

fn reg_with(colors: Vec<ColorToken>) -> Registry {
    let mut reg = Registry::new();
    reg.colors = colors;
    reg
}

fn rgba(r: u8, g: u8, b: u8, a: u8, literal: &str) -> ColorVal {
    ColorVal::Rgba { red: r, green: g, blue: b, alpha: a, literal: literal.to_string() }
}

#[test]
fn channel_window_boundaries() {
    // plain +-2 band
    assert!(in_range(100, 98));
    assert!(in_range(100, 102));
    assert!(!in_range(100, 97));
    assert!(!in_range(100, 103));
    // a channel of exactly 1 opens its lower bound to 0
    assert!(in_range(1, 0));
    assert!(in_range(1, 3));
    // a channel of 254 opens its upper bound to 255
    assert!(in_range(254, 255));
    // 0 and 255 keep their bound closed on the outside
    assert!(in_range(0, 2));
    assert!(!in_range(0, 3));
    assert!(in_range(255, 253));
}

#[test]
fn exact_match_returns_preset_name() {
    let reg = reg_with(vec![color("blue-500", 59, 130, 246)]);
    let found = search_color(&reg, 59, 130, 246);
    assert_eq!(found, vec!["blue-500".to_string()]);
    assert!(has_exact_color(&reg, 59, 130, 246));

    let mut ts = TailwindTokenSet::new();
    resolve_color(&rgba(59, 130, 246, 255, "#3b82f6"), &mut ts, "bg", &reg);
    assert_eq!(ts.rendered_tokens(), vec!["bg-blue-500".to_string()]);
}

#[test]
fn tolerance_match_resolves_to_preset() {
    let reg = reg_with(vec![color("blue-500", 59, 130, 246)]);
    // each channel within 2 of the preset
    let mut ts = TailwindTokenSet::new();
    resolve_color(&rgba(58, 131, 247, 255, "#3a83f7"), &mut ts, "bg", &reg);
    assert_eq!(ts.rendered_tokens(), vec!["bg-blue-500".to_string()]);
}

#[test]
fn out_of_tolerance_falls_back_to_literal() {
    let reg = reg_with(vec![color("blue-500", 59, 130, 246)]);
    // the red channel differs by 3
    let mut ts = TailwindTokenSet::new();
    resolve_color(&rgba(56, 130, 246, 255, "#388216"), &mut ts, "bg", &reg);
    assert_eq!(ts.rendered_tokens(), vec!["bg-#388216".to_string()]);
}

#[test]
fn ambiguity_filter_drops_numbered_shades() {
    // two presets within tolerance, neither exact; the numbered shade is
    // excluded because an unnumbered alternative remains
    let reg = reg_with(vec![color("blue-500", 59, 130, 246), color("blue", 60, 131, 247)]);
    let mut ts = TailwindTokenSet::new();
    resolve_color(&rgba(58, 129, 245, 255, "#3a81f5"), &mut ts, "bg", &reg);
    assert_eq!(ts.rendered_tokens(), vec!["bg-blue".to_string()]);
}

#[test]
fn all_numbered_candidates_keep_first() {
    // when every ambiguous candidate is a numbered shade, the first stays
    let reg = reg_with(vec![color("blue-500", 59, 130, 246), color("blue-600", 60, 131, 247)]);
    let mut ts = TailwindTokenSet::new();
    resolve_color(&rgba(58, 129, 245, 255, "#3a81f5"), &mut ts, "bg", &reg);
    assert_eq!(ts.rendered_tokens(), vec!["bg-blue-500".to_string()]);
}

#[test]
fn opacity_emits_auxiliary_token() {
    let reg = reg_with(vec![color("blue-500", 59, 130, 246)]);
    // alpha 127/255 is about 0.5: rounds to 50
    let mut ts = TailwindTokenSet::new();
    resolve_color(&rgba(59, 130, 246, 127, "#3b82f680"), &mut ts, "bg", &reg);
    let toks = ts.rendered_tokens();
    assert_eq!(toks, vec!["bg-op-50".to_string(), "bg-blue-500".to_string()]);
}

#[test]
fn current_color_short_circuits() {
    let reg = reg_with(vec![]);
    let mut ts = TailwindTokenSet::new();
    resolve_color(&ColorVal::Current, &mut ts, "text", &reg);
    assert_eq!(ts.rendered_tokens(), vec!["text-current".to_string()]);
}
