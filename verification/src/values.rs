//! The value model the resolvers work on: plain fixed-point magnitudes plus
//! the textual pieces (unit names, raw CSS serializations) a token may carry.

use vstd::prelude::*;
use crate::numeric::MAX_UNITS;

verus! {

/// Magnitude bound every well-formed scalar obeys.
pub open spec fn units_ok(u: int) -> bool {
    -MAX_UNITS <= u <= MAX_UNITS
}

/// A dimension: a magnitude in `SCALE`-ths of its unit, the unit name, and
/// the absolute pixel magnitude when the unit has one.
#[derive(Clone, Debug)]
pub struct Dim {
    pub units: i64,
    pub unit: String,
    pub px_units: Option<i64>,
}

impl Dim {
    pub open spec fn wf(&self) -> bool {
        units_ok(self.units as int) && match self.px_units {
            Some(p) => units_ok(p as int),
            None => true,
        }
    }
}

/// A percentage, carried as percentage points in `SCALE`-ths (`150%` is
/// `150 * SCALE`).
#[derive(Clone, Debug)]
pub struct Pct {
    pub points_units: i64,
}

impl Pct {
    pub open spec fn wf(&self) -> bool {
        units_ok(self.points_units as int)
    }
}

/// A length-or-percentage value, with `calc()` carried as raw text.
#[derive(Clone, Debug)]
pub enum DimOrPct {
    Dim(Dim),
    Pct(Pct),
    Calc(String),
}

impl DimOrPct {
    pub open spec fn wf(&self) -> bool {
        match self {
            DimOrPct::Dim(d) => d.wf(),
            DimOrPct::Pct(p) => p.wf(),
            DimOrPct::Calc(_) => true,
        }
    }
}

/// A length-or-percentage-or-auto value.
#[derive(Clone, Debug)]
pub enum LpaVal {
    Auto,
    Value(DimOrPct),
}

impl LpaVal {
    pub open spec fn wf(&self) -> bool {
        match self {
            LpaVal::Auto => true,
            LpaVal::Value(v) => v.wf(),
        }
    }
}

/// A sizing value (`width`, `height`, ...).
#[derive(Clone, Debug)]
pub enum SizeVal {
    Auto,
    Value(DimOrPct),
    MinContent,
    MaxContent,
    FitContent,
    FitContentFunction,
    Stretch,
    Contain,
}

impl SizeVal {
    pub open spec fn wf(&self) -> bool {
        match self {
            SizeVal::Value(v) => v.wf(),
            _ => true,
        }
    }
}

/// A max-sizing value (`max-width`, ...).
#[derive(Clone, Debug)]
pub enum MaxSizeVal {
    NoneKw,
    Value(DimOrPct),
    MinContent,
    MaxContent,
    FitContent,
    FitContentFunction,
    Stretch,
    Contain,
}

impl MaxSizeVal {
    pub open spec fn wf(&self) -> bool {
        match self {
            MaxSizeVal::Value(v) => v.wf(),
            _ => true,
        }
    }
}

/// A border side width: a dimension, a `calc()` carried raw, or one of the
/// named widths carried as its keyword text.
#[derive(Clone, Debug)]
pub enum BorderWidthVal {
    Value(Dim),
    Calc(String),
    Keyword(String),
}

impl BorderWidthVal {
    pub open spec fn wf(&self) -> bool {
        match self {
            BorderWidthVal::Value(d) => d.wf(),
            _ => true,
        }
    }
}

/// A resolved color: the `currentcolor` keyword, or concrete 8-bit RGBA
/// channels together with the color's own CSS serialization (the fallback
/// token text).
#[derive(Clone, Debug)]
pub enum ColorVal {
    Current,
    Rgba { red: u8, green: u8, blue: u8, alpha: u8, literal: String },
}

/// A time value in `SCALE`-ths of its unit.
#[derive(Clone, Debug)]
pub enum TimeVal {
    Seconds(i64),
    Milliseconds(i64),
}

impl TimeVal {
    pub open spec fn wf(&self) -> bool {
        match self {
            TimeVal::Seconds(u) => -MAX_UNITS / 1000 <= *u <= MAX_UNITS / 1000,
            TimeVal::Milliseconds(u) => units_ok(*u as int),
        }
    }
}

/// A plain number or a percentage (percentage points, `SCALE`-ths).
#[derive(Clone, Debug)]
pub enum NumOrPct {
    Number(i64),
    Percentage(i64),
}

impl NumOrPct {
    pub open spec fn wf(&self) -> bool {
        match self {
            NumOrPct::Number(u) => units_ok(*u as int),
            NumOrPct::Percentage(u) => units_ok(*u as int),
        }
    }
}

/// A named absolute font size.
#[derive(Clone, Debug)]
pub enum AbsoluteSizeVal {
    XXSmall,
    XSmall,
    Small,
    Medium,
    Large,
    XLarge,
    XXLarge,
    XXXLarge,
}

/// A font-size value.
#[derive(Clone, Debug)]
pub enum FontSizeVal {
    Length(DimOrPct),
    Absolute(AbsoluteSizeVal),
    Relative,
}

impl FontSizeVal {
    pub open spec fn wf(&self) -> bool {
        match self {
            FontSizeVal::Length(v) => v.wf(),
            _ => true,
        }
    }
}

/// A font-weight value; the numeric weight is in `SCALE`-ths.
#[derive(Clone, Debug)]
pub enum FontWeightVal {
    Weight(i64),
    Normal,
    Bold,
    Bolder,
    Lighter,
}

impl FontWeightVal {
    pub open spec fn wf(&self) -> bool {
        match self {
            FontWeightVal::Weight(u) => units_ok(*u as int),
            _ => true,
        }
    }
}

/// A line-height value; the plain ratio is in `SCALE`-ths.
#[derive(Clone, Debug)]
pub enum LineHeightVal {
    Normal,
    Number(i64),
    Length(DimOrPct),
}

impl LineHeightVal {
    pub open spec fn wf(&self) -> bool {
        match self {
            LineHeightVal::Number(u) => units_ok(*u as int),
            LineHeightVal::Length(v) => v.wf(),
            _ => true,
        }
    }
}

/// An easing function: a cubic bezier with its four control coefficients in
/// `SCALE`-ths, a step function, linear, or a named curve carried as its
/// keyword text.
#[derive(Clone, Debug)]
pub enum EasingVal {
    Bezier(i64, i64, i64, i64),
    Steps,
    Linear,
    Keyword(String),
}

impl EasingVal {
    pub open spec fn wf(&self) -> bool {
        match self {
            EasingVal::Bezier(a, b, c, d) => units_ok(*a as int) && units_ok(*b as int)
                && units_ok(*c as int) && units_ok(*d as int),
            _ => true,
        }
    }
}

/// One item of a `transition` shorthand.
#[derive(Clone, Debug)]
pub struct TransitionItemVal {
    pub delay: TimeVal,
    pub duration: TimeVal,
    pub easing: EasingVal,
}

impl TransitionItemVal {
    pub open spec fn wf(&self) -> bool {
        self.delay.wf() && self.duration.wf() && self.easing.wf()
    }
}

/// One grid track size; flex factors are in `SCALE`-ths, a minmax is carried
/// as its raw serialization.
#[derive(Clone, Debug)]
pub enum TrackSizeVal {
    Flex(i64),
    Length(DimOrPct),
    MinContent,
    MaxContent,
    Auto,
    MinMax(String),
    FitContent,
}

impl TrackSizeVal {
    pub open spec fn wf(&self) -> bool {
        match self {
            TrackSizeVal::Flex(u) => units_ok(*u as int),
            TrackSizeVal::Length(v) => v.wf(),
            _ => true,
        }
    }
}

/// A grid template: `none` carried as its keyword text, or a track list
/// carried as its raw serialization.
#[derive(Clone, Debug)]
pub enum TrackSizingVal {
    NoneKw(String),
    TrackList(String),
}

/// One end of a grid placement.
#[derive(Clone, Debug)]
pub enum GridLineVal {
    Auto,
    Other(String),
}

/// One transform function; angles are in `SCALE`-ths of a degree.
#[derive(Clone, Debug)]
pub enum TransformVal {
    Translate(DimOrPct, DimOrPct),
    TranslateX(DimOrPct),
    TranslateY(DimOrPct),
    TranslateZ(String),
    Translate3d(DimOrPct, DimOrPct, String),
    Scale(NumOrPct, NumOrPct),
    ScaleX(NumOrPct),
    ScaleY(NumOrPct),
    ScaleZ(NumOrPct),
    Scale3d(NumOrPct, NumOrPct, NumOrPct),
    Rotate(i64),
    RotateX(i64),
    RotateY(i64),
    RotateZ(i64),
    Rotate3d(i64, i64, i64),
    Skew(i64, i64),
    SkewX(i64),
    SkewY(i64),
    Other,
}

impl TransformVal {
    pub open spec fn wf(&self) -> bool {
        match self {
            TransformVal::Translate(x, y) => x.wf() && y.wf(),
            TransformVal::TranslateX(x) => x.wf(),
            TransformVal::TranslateY(y) => y.wf(),
            TransformVal::TranslateZ(_) => true,
            TransformVal::Translate3d(x, y, _) => x.wf() && y.wf(),
            TransformVal::Scale(x, y) => x.wf() && y.wf(),
            TransformVal::ScaleX(x) => x.wf(),
            TransformVal::ScaleY(y) => y.wf(),
            TransformVal::ScaleZ(z) => z.wf(),
            TransformVal::Scale3d(x, y, z) => x.wf() && y.wf() && z.wf(),
            TransformVal::Rotate(a) => units_ok(*a as int),
            TransformVal::RotateX(a) => units_ok(*a as int),
            TransformVal::RotateY(a) => units_ok(*a as int),
            TransformVal::RotateZ(a) => units_ok(*a as int),
            TransformVal::Rotate3d(x, y, z) => units_ok(*x as int) && units_ok(*y as int)
                && units_ok(*z as int),
            TransformVal::Skew(x, y) => units_ok(*x as int) && units_ok(*y as int),
            TransformVal::SkewX(x) => units_ok(*x as int),
            TransformVal::SkewY(y) => units_ok(*y as int),
            TransformVal::Other => true,
        }
    }
}

/// An SVG paint: `none` carried as its keyword text, a color, or an
/// unsupported paint source.
#[derive(Clone, Debug)]
pub enum SvgPaintVal {
    NoneKw(String),
    Color(ColorVal),
    Other,
}

/// One filter function.
#[derive(Clone, Debug)]
pub enum FilterVal {
    Blur(String),
    Brightness(NumOrPct),
    Contrast(NumOrPct),
    Grayscale(NumOrPct),
    HueRotate(String),
    Invert(NumOrPct),
    Saturate(NumOrPct),
    Sepia(NumOrPct),
    DropShadow(String),
    Other,
}

impl FilterVal {
    pub open spec fn wf(&self) -> bool {
        match self {
            FilterVal::Brightness(v) => v.wf(),
            FilterVal::Contrast(v) => v.wf(),
            FilterVal::Grayscale(v) => v.wf(),
            FilterVal::Invert(v) => v.wf(),
            FilterVal::Saturate(v) => v.wf(),
            FilterVal::Sepia(v) => v.wf(),
            _ => true,
        }
    }
}

/// A filter list.
#[derive(Clone, Debug)]
pub enum FilterListVal {
    NoneKw,
    Filters(Vec<FilterVal>),
}

impl FilterListVal {
    pub open spec fn wf(&self) -> bool {
        match self {
            FilterListVal::NoneKw => true,
            FilterListVal::Filters(fs) => forall|i: int|
                0 <= i < fs@.len() ==> (#[trigger] fs@[i]).wf(),
        }
    }
}

/// A display value: `display: none` becomes the `hidden` token, anything
/// else passes through as its keyword text.
#[derive(Clone, Debug)]
pub enum DisplayVal {
    Hidden,
    Keyword(String),
}

/// A visibility value.
#[derive(Clone, Debug)]
pub enum VisibilityVal {
    Invisible,
    Keyword(String),
}

/// A font-style value.
#[derive(Clone, Debug)]
pub enum FontStyleVal {
    Normal,
    Other(String),
}

} // verus!
