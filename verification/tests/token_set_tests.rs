use tw_tokens::token_set::{TailwindTokenSet, UtilityToken};
use tw_tokens::resolve::resolve_easing;
use tw_tokens::values::EasingVal;

#[test]
fn token_override_keeps_later_resolution() {
    // two pushes under the same prefix leave exactly one token, the later one
    let mut ts = TailwindTokenSet::new();
    ts.push_tailwind_token("w", "6");
    ts.push_tailwind_token("w", "full");
    assert_eq!(ts.rendered_tokens(), vec!["w-full".to_string()]);
}

#[test]
fn override_is_append_wins() {
    // the replacement lands at the end; the survivor from the swap-remove
    // moves into the vacated slot
    let mut ts = TailwindTokenSet::new();
    ts.push_tailwind_token("w", "6");
    ts.push_tailwind_token("h", "4");
    ts.push_tailwind_token("mt", "2");
    ts.push_tailwind_token("w", "full");
    assert_eq!(
        ts.rendered_tokens(),
        vec!["mt-2".to_string(), "h-4".to_string(), "w-full".to_string()]
    );
}

#[test]
fn distinct_prefixes_coexist() {
    // a prefix that extends another ("bg-op" next to "bg") is its own slot
    let mut ts = TailwindTokenSet::new();
    ts.push_tailwind_token("bg-op", "50");
    ts.push_tailwind_token("bg", "blue-500");
    assert_eq!(
        ts.rendered_tokens(),
        vec!["bg-op-50".to_string(), "bg-blue-500".to_string()]
    );
}

#[test]
fn empty_prefix_tokens_accumulate() {
    let mut ts = TailwindTokenSet::new();
    ts.push_tailwind_token("", "hidden");
    ts.push_tailwind_token("", "invisible");
    assert_eq!(
        ts.rendered_tokens(),
        vec!["hidden".to_string(), "invisible".to_string()]
    );
}

#[test]
fn token_rendering() {
    let t = UtilityToken { prefix: "w".to_string(), value: "full".to_string() };
    assert_eq!(t.render(), "w-full");
    let bare = UtilityToken { prefix: String::new(), value: "hidden".to_string() };
    assert_eq!(bare.render(), "hidden");
}

#[test]
fn setters_and_metadata() {
    let mut ts = TailwindTokenSet::new();
    ts.set_layer_group("base.css");
    ts.push_involved_classname(".card");
    ts.push_involved_classnames(vec![".card:hover".to_string(), ".card-body".to_string()]);
    ts.push_media_query("md".to_string());
    ts.push_media_queries(&vec!["lg".to_string()]);
    ts.set_raw_property(".card { width: 24px; }");
    ts.set_raw_property_count(1);
    assert_eq!(ts.layer_group, "base.css");
    assert_eq!(
        ts.involved_classnames,
        vec![".card".to_string(), ".card:hover".to_string(), ".card-body".to_string()]
    );
    assert_eq!(ts.media_query, vec!["md".to_string(), "lg".to_string()]);
    assert_eq!(ts.raw_property, ".card { width: 24px; }");
    assert_eq!(ts.raw_property_count, 1);
}

#[test]
fn export_token_starts_empty() {
    assert_eq!(TailwindTokenSet::export_token(), Vec::<String>::new());
}

#[test]
fn easing_exact_match() {
    // the standard productive curve matches by exact coefficients
    let mut ts = TailwindTokenSet::new();
    resolve_easing(&EasingVal::Bezier(200_000, 0, 380_000, 900_000), &mut ts);
    assert_eq!(ts.rendered_tokens(), vec!["ease-standard-productive".to_string()]);
}

#[test]
fn easing_all_named_curves() {
    let cases = [
        ((200_000, 0, 380_000, 900_000), "ease-standard-productive"),
        ((400_000, 140_000, 300_000, 1_000_000), "ease-standard-expressive"),
        ((0, 0, 380_000, 900_000), "ease-entrance-productive"),
        ((0, 0, 300_000, 1_000_000), "ease-entrance-expressive"),
        ((200_000, 0, 1_000_000, 900_000), "ease-exit-productive"),
        ((400_000, 140_000, 1_000_000, 1_000_000), "ease-exit-expressive"),
    ];
    for ((a, b, c, d), expect) in cases {
        let mut ts = TailwindTokenSet::new();
        resolve_easing(&EasingVal::Bezier(a, b, c, d), &mut ts);
        assert_eq!(ts.rendered_tokens(), vec![expect.to_string()]);
    }
}

#[test]
fn easing_unmatched_renders_bracketed_literal() {
    let mut ts = TailwindTokenSet::new();
    resolve_easing(&EasingVal::Bezier(100_000, 0, 380_000, 900_000), &mut ts);
    assert_eq!(
        ts.rendered_tokens(),
        vec!["ease-[cubic-bezier:0.1_0_0.38_0.9]".to_string()]
    );
}

#[test]
fn easing_linear_and_steps() {
    let mut ts = TailwindTokenSet::new();
    resolve_easing(&EasingVal::Linear, &mut ts);
    assert_eq!(ts.rendered_tokens(), vec!["ease-linear".to_string()]);
    // step functions are dropped
    let mut ts2 = TailwindTokenSet::new();
    resolve_easing(&EasingVal::Steps, &mut ts2);
    assert_eq!(ts2.rendered_tokens(), Vec::<String>::new());
}
