use tw_tokens::values::{Dim, DimOrPct, NumOrPct, Pct, TimeVal};
use tw_tokens::quantize::{quantize_dim, quantize_dim_or_pct, quantize_num_or_pct, quantize_time};

const SCALE: i64 = 1_000_000;

fn px(v: i64) -> Dim {
    Dim { units: v, unit: "px".to_string(), px_units: Some(v) }
}

fn rem(v: i64) -> Dim {
    Dim { units: v, unit: "rem".to_string(), px_units: None }
}

#[test]
fn spacing_scale_boundary_at_24px() {
    // 24px sits on the whole-step side: round(24 / 4) = 6
    assert_eq!(quantize_dim(&px(24 * SCALE)), "6");
    // 23px is below the boundary: round(23) / 4 = 5.75
    assert_eq!(quantize_dim(&px(23 * SCALE)), "5.75");
}

#[test]
fn spacing_scale_more_points() {
    assert_eq!(quantize_dim(&px(32 * SCALE)), "8");
    assert_eq!(quantize_dim(&px(26 * SCALE)), "7");
    assert_eq!(quantize_dim(&px(16 * SCALE)), "4");
    assert_eq!(quantize_dim(&px(2 * SCALE)), "0.5");
    assert_eq!(quantize_dim(&px(1 * SCALE)), "0.25");
    assert_eq!(quantize_dim(&px(0)), "0");
}

#[test]
fn quantize_is_idempotent() {
    // the same length always quantizes to the same token string
    let d = px(23 * SCALE);
    assert_eq!(quantize_dim(&d), quantize_dim(&d));
    let e = rem(1_500_000);
    assert_eq!(quantize_dim(&e), quantize_dim(&e));
}

#[test]
fn em_units_scale_by_four() {
    // 1.5rem -> round(1.5 * 4) = 6
    assert_eq!(quantize_dim(&rem(1_500_000)), "6");
    // 1em -> 4
    let d = Dim { units: SCALE, unit: "em".to_string(), px_units: None };
    assert_eq!(quantize_dim(&d), "4");
}

#[test]
fn unknown_units_pass_through() {
    let d = Dim { units: 50 * SCALE, unit: "vw".to_string(), px_units: None };
    assert_eq!(quantize_dim(&d), "50vw");
    let d2 = Dim { units: 2_500_000, unit: "ch".to_string(), px_units: None };
    assert_eq!(quantize_dim(&d2), "2.5ch");
}

#[test]
fn percentages_render_as_percent() {
    let p = DimOrPct::Pct(Pct { points_units: 50 * SCALE });
    assert_eq!(quantize_dim_or_pct(&p), "50%");
}

#[test]
fn calc_renders_bracketed() {
    let c = DimOrPct::Calc("calc(100% - 8px)".to_string());
    assert_eq!(quantize_dim_or_pct(&c), "[calc(100% - 8px)]");
}

#[test]
fn seconds_become_milliseconds() {
    assert_eq!(quantize_time(&TimeVal::Seconds(300_000)), "300");
    assert_eq!(quantize_time(&TimeVal::Milliseconds(250 * SCALE)), "250");
    // rounding to the nearest whole millisecond
    assert_eq!(quantize_time(&TimeVal::Milliseconds(2_500_000 / 10)), "0");
    assert_eq!(quantize_time(&TimeVal::Milliseconds(1_500_000)), "2");
}

#[test]
fn number_or_percentage_formats() {
    // a percentage divides by 100 after rounding to whole percent
    assert_eq!(quantize_num_or_pct(&NumOrPct::Percentage(150 * SCALE)), "1.5");
    assert_eq!(quantize_num_or_pct(&NumOrPct::Percentage(2 * SCALE)), "0.02");
    // a plain number renders with two decimal places
    assert_eq!(quantize_num_or_pct(&NumOrPct::Number(1_500_000)), "1.50");
    assert_eq!(quantize_num_or_pct(&NumOrPct::Number(1_234_567)), "1.23");
}
