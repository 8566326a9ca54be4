//! The property resolver dispatch: a locally-owned sum type mirrors every
//! declaration kind the engine handles, and a total function routes each
//! kind to its quantizer, matcher, keyword pass-through or composite
//! resolver. Kinds outside the mirrored subset are `Unsupported` and emit
//! nothing.

use vstd::prelude::*;
use crate::numeric::{spec_dec_int, i64_to_dec_string, spec_fixed_str, fixed_to_string};
use crate::values::{
    Dim,
    DimOrPct,
    LpaVal,
    SizeVal,
    MaxSizeVal,
    BorderWidthVal,
    ColorVal,
    TimeVal,
    NumOrPct,
    FontSizeVal,
    FontWeightVal,
    FontStyleVal,
    LineHeightVal,
    EasingVal,
    TransitionItemVal,
    TrackSizeVal,
    TrackSizingVal,
    GridLineVal,
    TransformVal,
    SvgPaintVal,
    FilterVal,
    FilterListVal,
    DisplayVal,
    VisibilityVal,
};
use crate::registry::Registry;
use crate::resolve::{
    spec_keyword_emissions,
    resolve_keyword,
    spec_raw_exp_emissions,
    resolve_raw_exp,
    spec_dimension_emissions,
    resolve_dimension,
    spec_time_emissions,
    resolve_time,
    spec_number_or_percentage_emissions,
    resolve_number_or_percentage,
    spec_border_side_width_emissions,
    resolve_border_side_width,
    spec_length_unit_emissions,
    resolve_length_unit,
    spec_length_size_emissions,
    resolve_length_size,
    spec_length_max_size_emissions,
    resolve_length_max_size,
    spec_track_size_emissions,
    resolve_track_size,
    spec_color_emissions,
    resolve_color,
    spec_font_size_emissions,
    resolve_font_set,
    spec_font_weight_emissions,
    resolve_font_weight,
    spec_line_height_emissions,
    resolve_line_height_set,
    spec_easing_emissions,
    resolve_easing,
};
use crate::text::{spec_contains_seq, str_contains, str_eq, spec_space_to_dash, space_to_dash};
use crate::token_set::{
    TailwindTokenSet,
    spec_apply_pushes,
    spec_flatten,
    spec_tokens_only_change,
    lemma_apply_pushes_one,
    lemma_apply_pushes_append,
};

verus! {

/// The declaration kinds that resolve one color under a fixed prefix.
#[derive(Clone, Copy, Debug)]
pub enum ColorProp {
    BackgroundColor,
    Color,
    BorderTopColor,
    BorderBottomColor,
    BorderLeftColor,
    BorderRightColor,
    OutlineColor,
}

pub open spec fn spec_color_prop_prefix(p: ColorProp) -> Seq<char> {
    match p {
        ColorProp::BackgroundColor => "bg"@,
        ColorProp::Color => "text"@,
        ColorProp::BorderTopColor => "b-t"@,
        ColorProp::BorderBottomColor => "b-b"@,
        ColorProp::BorderLeftColor => "b-l"@,
        ColorProp::BorderRightColor => "b-r"@,
        ColorProp::OutlineColor => "outline"@,
    }
}

fn color_prop_prefix(p: &ColorProp) -> (r: &'static str)
    ensures
        r@ == spec_color_prop_prefix(*p),
{
    match p {
        ColorProp::BackgroundColor => "bg",
        ColorProp::Color => "text",
        ColorProp::BorderTopColor => "b-t",
        ColorProp::BorderBottomColor => "b-b",
        ColorProp::BorderLeftColor => "b-l",
        ColorProp::BorderRightColor => "b-r",
        ColorProp::OutlineColor => "outline",
    }
}

/// The declaration kinds that pass one keyword through under a fixed prefix.
#[derive(Clone, Copy, Debug)]
pub enum KeywordProp {
    BackgroundOrigin,
    Opacity,
    BoxSizing,
    OverflowX,
    OverflowY,
    TextOverflow,
    Position,
    FlexDirection,
    FlexWrap,
    FlexFlow,
    AlignContent,
    JustifyContent,
    PlaceContent,
    AlignSelf,
    JustifySelf,
    PlaceSelf,
    AlignItems,
    JustifyItems,
    PlaceItems,
    FlexItemAlign,
    RowGap,
    ColumnGap,
    Gap,
    GridAutoFlow,
    TransformStyle,
    Perspective,
    Translate,
    TextTransform,
    WhiteSpace,
    TabSize,
    WordBreak,
    OverflowWrap,
    TextAlign,
    TextAlignLast,
    TextDecorationStyle,
    TextDecoration,
    BoxDecorationBreak,
    Resize,
    Cursor,
    UserSelect,
    ListStyleType,
    ListStylePosition,
    ListStyle,
    StrokeLinecap,
    StrokeLinejoin,
    ImageRendering,
    ZIndex,
    BorderTopStyle,
    BorderBottomStyle,
    BorderLeftStyle,
    BorderRightStyle,
    OutlineStyle,
}

pub open spec fn spec_keyword_prop_prefix(p: KeywordProp) -> Seq<char> {
    match p {
        KeywordProp::BackgroundOrigin => "bg-origin"@,
        KeywordProp::Opacity => "opacity"@,
        KeywordProp::BoxSizing => "box"@,
        KeywordProp::OverflowX => "overflow-x"@,
        KeywordProp::OverflowY => "overflow-y"@,
        KeywordProp::TextOverflow => "text"@,
        KeywordProp::Position => ""@,
        KeywordProp::FlexDirection => "flex"@,
        KeywordProp::FlexWrap => "flex"@,
        KeywordProp::FlexFlow => "flex"@,
        KeywordProp::AlignContent => "content"@,
        KeywordProp::JustifyContent => "justify"@,
        KeywordProp::PlaceContent => "place-content"@,
        KeywordProp::AlignSelf => "self"@,
        KeywordProp::JustifySelf => "justify-self"@,
        KeywordProp::PlaceSelf => "place-self"@,
        KeywordProp::AlignItems => "items"@,
        KeywordProp::JustifyItems => "justify-items"@,
        KeywordProp::PlaceItems => "place-items"@,
        KeywordProp::FlexItemAlign => "items"@,
        KeywordProp::RowGap => "gap-x"@,
        KeywordProp::ColumnGap => "gap-y"@,
        KeywordProp::Gap => "gap"@,
        KeywordProp::GridAutoFlow => "grid-flow"@,
        KeywordProp::TransformStyle => "preserve"@,
        KeywordProp::Perspective => "perspective"@,
        KeywordProp::Translate => "translate"@,
        KeywordProp::TextTransform => ""@,
        KeywordProp::WhiteSpace => "whitespace"@,
        KeywordProp::TabSize => "tab"@,
        KeywordProp::WordBreak => ""@,
        KeywordProp::OverflowWrap => ""@,
        KeywordProp::TextAlign => "text"@,
        KeywordProp::TextAlignLast => "last-text"@,
        KeywordProp::TextDecorationStyle => "decoration"@,
        KeywordProp::TextDecoration => "decoration"@,
        KeywordProp::BoxDecorationBreak => "decoration"@,
        KeywordProp::Resize => "resize"@,
        KeywordProp::Cursor => "cursor"@,
        KeywordProp::UserSelect => "select"@,
        KeywordProp::ListStyleType => "list"@,
        KeywordProp::ListStylePosition => "list"@,
        KeywordProp::ListStyle => "list"@,
        KeywordProp::StrokeLinecap => "stroke-cap"@,
        KeywordProp::StrokeLinejoin => "stroke-join"@,
        KeywordProp::ImageRendering => "image-render"@,
        KeywordProp::ZIndex => "z"@,
        KeywordProp::BorderTopStyle => "b-t"@,
        KeywordProp::BorderBottomStyle => "b-b"@,
        KeywordProp::BorderLeftStyle => "b-l"@,
        KeywordProp::BorderRightStyle => "b-r"@,
        KeywordProp::OutlineStyle => "outline"@,
    }
}

fn keyword_prop_prefix(p: &KeywordProp) -> (r: &'static str)
    ensures
        r@ == spec_keyword_prop_prefix(*p),
{
    match p {
        KeywordProp::BackgroundOrigin => "bg-origin",
        KeywordProp::Opacity => "opacity",
        KeywordProp::BoxSizing => "box",
        KeywordProp::OverflowX => "overflow-x",
        KeywordProp::OverflowY => "overflow-y",
        KeywordProp::TextOverflow => "text",
        KeywordProp::Position => "",
        KeywordProp::FlexDirection => "flex",
        KeywordProp::FlexWrap => "flex",
        KeywordProp::FlexFlow => "flex",
        KeywordProp::AlignContent => "content",
        KeywordProp::JustifyContent => "justify",
        KeywordProp::PlaceContent => "place-content",
        KeywordProp::AlignSelf => "self",
        KeywordProp::JustifySelf => "justify-self",
        KeywordProp::PlaceSelf => "place-self",
        KeywordProp::AlignItems => "items",
        KeywordProp::JustifyItems => "justify-items",
        KeywordProp::PlaceItems => "place-items",
        KeywordProp::FlexItemAlign => "items",
        KeywordProp::RowGap => "gap-x",
        KeywordProp::ColumnGap => "gap-y",
        KeywordProp::Gap => "gap",
        KeywordProp::GridAutoFlow => "grid-flow",
        KeywordProp::TransformStyle => "preserve",
        KeywordProp::Perspective => "perspective",
        KeywordProp::Translate => "translate",
        KeywordProp::TextTransform => "",
        KeywordProp::WhiteSpace => "whitespace",
        KeywordProp::TabSize => "tab",
        KeywordProp::WordBreak => "",
        KeywordProp::OverflowWrap => "",
        KeywordProp::TextAlign => "text",
        KeywordProp::TextAlignLast => "last-text",
        KeywordProp::TextDecorationStyle => "decoration",
        KeywordProp::TextDecoration => "decoration",
        KeywordProp::BoxDecorationBreak => "decoration",
        KeywordProp::Resize => "resize",
        KeywordProp::Cursor => "cursor",
        KeywordProp::UserSelect => "select",
        KeywordProp::ListStyleType => "list",
        KeywordProp::ListStylePosition => "list",
        KeywordProp::ListStyle => "list",
        KeywordProp::StrokeLinecap => "stroke-cap",
        KeywordProp::StrokeLinejoin => "stroke-join",
        KeywordProp::ImageRendering => "image-render",
        KeywordProp::ZIndex => "z",
        KeywordProp::BorderTopStyle => "b-t",
        KeywordProp::BorderBottomStyle => "b-b",
        KeywordProp::BorderLeftStyle => "b-l",
        KeywordProp::BorderRightStyle => "b-r",
        KeywordProp::OutlineStyle => "outline",
    }
}

/// The sizing declaration kinds.
#[derive(Clone, Copy, Debug)]
pub enum SizeProp {
    Width,
    Height,
    MinWidth,
    MinHeight,
    BlockSize,
    InlineSize,
    MinBlockSize,
    MinInlineSize,
}

pub open spec fn spec_size_prop_prefix(p: SizeProp) -> Seq<char> {
    match p {
        SizeProp::Width => "w"@,
        SizeProp::Height => "h"@,
        SizeProp::MinWidth => "min-w"@,
        SizeProp::MinHeight => "min-h"@,
        SizeProp::BlockSize => "block"@,
        SizeProp::InlineSize => "inline"@,
        SizeProp::MinBlockSize => "min-block"@,
        SizeProp::MinInlineSize => "min-inline"@,
    }
}

fn size_prop_prefix(p: &SizeProp) -> (r: &'static str)
    ensures
        r@ == spec_size_prop_prefix(*p),
{
    match p {
        SizeProp::Width => "w",
        SizeProp::Height => "h",
        SizeProp::MinWidth => "min-w",
        SizeProp::MinHeight => "min-h",
        SizeProp::BlockSize => "block",
        SizeProp::InlineSize => "inline",
        SizeProp::MinBlockSize => "min-block",
        SizeProp::MinInlineSize => "min-inline",
    }
}

/// The max-sizing declaration kinds.
#[derive(Clone, Copy, Debug)]
pub enum MaxSizeProp {
    MaxWidth,
    MaxHeight,
    MaxBlockSize,
    MaxInlineSize,
}

pub open spec fn spec_max_size_prop_prefix(p: MaxSizeProp) -> Seq<char> {
    match p {
        MaxSizeProp::MaxWidth => "max-w"@,
        MaxSizeProp::MaxHeight => "max-h"@,
        MaxSizeProp::MaxBlockSize => "max-block"@,
        MaxSizeProp::MaxInlineSize => "max-inline"@,
    }
}

fn max_size_prop_prefix(p: &MaxSizeProp) -> (r: &'static str)
    ensures
        r@ == spec_max_size_prop_prefix(*p),
{
    match p {
        MaxSizeProp::MaxWidth => "max-w",
        MaxSizeProp::MaxHeight => "max-h",
        MaxSizeProp::MaxBlockSize => "max-block",
        MaxSizeProp::MaxInlineSize => "max-inline",
    }
}

/// The offset and spacing declaration kinds resolved as one
/// length-or-percentage-or-auto value.
#[derive(Clone, Copy, Debug)]
pub enum LpaProp {
    Top,
    Bottom,
    Left,
    Right,
    MarginTop,
    MarginBottom,
    MarginLeft,
    MarginRight,
    PaddingTop,
    PaddingBottom,
    PaddingLeft,
    PaddingRight,
    ScrollMarginTop,
    ScrollMarginBottom,
    ScrollMarginLeft,
    ScrollMarginRight,
    ScrollPaddingTop,
    ScrollPaddingBottom,
    ScrollPaddingLeft,
    ScrollPaddingRight,
    FlexBasis,
}

pub open spec fn spec_lpa_prop_prefix(p: LpaProp) -> Seq<char> {
    match p {
        LpaProp::Top => "top"@,
        LpaProp::Bottom => "bottom"@,
        LpaProp::Left => "left"@,
        LpaProp::Right => "right"@,
        LpaProp::MarginTop => "mt"@,
        LpaProp::MarginBottom => "mb"@,
        LpaProp::MarginLeft => "ml"@,
        LpaProp::MarginRight => "mr"@,
        LpaProp::PaddingTop => "pt"@,
        LpaProp::PaddingBottom => "pb"@,
        LpaProp::PaddingLeft => "pl"@,
        LpaProp::PaddingRight => "pr"@,
        LpaProp::ScrollMarginTop => "scroll-mt"@,
        LpaProp::ScrollMarginBottom => "scroll-mb"@,
        LpaProp::ScrollMarginLeft => "scroll-ml"@,
        LpaProp::ScrollMarginRight => "scroll-mr"@,
        LpaProp::ScrollPaddingTop => "scroll-pt"@,
        LpaProp::ScrollPaddingBottom => "scroll-pb"@,
        LpaProp::ScrollPaddingLeft => "scroll-pl"@,
        LpaProp::ScrollPaddingRight => "scroll-pr"@,
        LpaProp::FlexBasis => "basis"@,
    }
}

fn lpa_prop_prefix(p: &LpaProp) -> (r: &'static str)
    ensures
        r@ == spec_lpa_prop_prefix(*p),
{
    match p {
        LpaProp::Top => "top",
        LpaProp::Bottom => "bottom",
        LpaProp::Left => "left",
        LpaProp::Right => "right",
        LpaProp::MarginTop => "mt",
        LpaProp::MarginBottom => "mb",
        LpaProp::MarginLeft => "ml",
        LpaProp::MarginRight => "mr",
        LpaProp::PaddingTop => "pt",
        LpaProp::PaddingBottom => "pb",
        LpaProp::PaddingLeft => "pl",
        LpaProp::PaddingRight => "pr",
        LpaProp::ScrollMarginTop => "scroll-mt",
        LpaProp::ScrollMarginBottom => "scroll-mb",
        LpaProp::ScrollMarginLeft => "scroll-ml",
        LpaProp::ScrollMarginRight => "scroll-mr",
        LpaProp::ScrollPaddingTop => "scroll-pt",
        LpaProp::ScrollPaddingBottom => "scroll-pb",
        LpaProp::ScrollPaddingLeft => "scroll-pl",
        LpaProp::ScrollPaddingRight => "scroll-pr",
        LpaProp::FlexBasis => "basis",
    }
}

/// The block/inline pair declaration kinds carrying two such values.
#[derive(Clone, Copy, Debug)]
pub enum LpaPairProp {
    InsetBlock,
    InsetInline,
    MarginBlock,
    MarginInline,
    PaddingBlock,
    PaddingInline,
    ScrollMarginBlock,
    ScrollMarginInline,
    ScrollPaddingBlock,
    ScrollPaddingInline,
}

pub open spec fn spec_lpa_pair_prefixes(p: LpaPairProp) -> (Seq<char>, Seq<char>) {
    match p {
        LpaPairProp::InsetBlock => ("top"@, "bottom"@),
        LpaPairProp::InsetInline => ("left"@, "right"@),
        LpaPairProp::MarginBlock => ("mt"@, "mb"@),
        LpaPairProp::MarginInline => ("ml"@, "mr"@),
        LpaPairProp::PaddingBlock => ("pt"@, "pb"@),
        LpaPairProp::PaddingInline => ("pl"@, "pr"@),
        LpaPairProp::ScrollMarginBlock => ("scroll-mt"@, "scroll-mb"@),
        LpaPairProp::ScrollMarginInline => ("scroll-ml"@, "scroll-mr"@),
        LpaPairProp::ScrollPaddingBlock => ("scroll-pt"@, "scroll-pb"@),
        LpaPairProp::ScrollPaddingInline => ("scroll-pl"@, "scroll-pr"@),
    }
}

fn lpa_pair_prefixes(p: &LpaPairProp) -> (r: (&'static str, &'static str))
    ensures
        r.0@ == spec_lpa_pair_prefixes(*p).0,
        r.1@ == spec_lpa_pair_prefixes(*p).1,
{
    match p {
        LpaPairProp::InsetBlock => ("top", "bottom"),
        LpaPairProp::InsetInline => ("left", "right"),
        LpaPairProp::MarginBlock => ("mt", "mb"),
        LpaPairProp::MarginInline => ("ml", "mr"),
        LpaPairProp::PaddingBlock => ("pt", "pb"),
        LpaPairProp::PaddingInline => ("pl", "pr"),
        LpaPairProp::ScrollMarginBlock => ("scroll-mt", "scroll-mb"),
        LpaPairProp::ScrollMarginInline => ("scroll-ml", "scroll-mr"),
        LpaPairProp::ScrollPaddingBlock => ("scroll-pt", "scroll-pb"),
        LpaPairProp::ScrollPaddingInline => ("scroll-pl", "scroll-pr"),
    }
}

/// The four-sided shorthand declaration kinds; values push in the order
/// top, left, bottom, right.
#[derive(Clone, Copy, Debug)]
pub enum LpaQuadProp {
    Inset,
    Margin,
    Padding,
    ScrollMargin,
    ScrollPadding,
}

pub open spec fn spec_lpa_quad_prefixes(p: LpaQuadProp) -> (
    Seq<char>,
    Seq<char>,
    Seq<char>,
    Seq<char>,
) {
    match p {
        LpaQuadProp::Inset => ("top"@, "left"@, "bottom"@, "right"@),
        LpaQuadProp::Margin => ("mt"@, "ml"@, "mb"@, "mr"@),
        LpaQuadProp::Padding => ("pt"@, "pl"@, "pb"@, "pr"@),
        LpaQuadProp::ScrollMargin => ("scroll-mt"@, "scroll-ml"@, "scroll-mb"@, "scroll-mr"@),
        LpaQuadProp::ScrollPadding => ("scroll-pt"@, "scroll-pl"@, "scroll-pb"@, "scroll-pr"@),
    }
}

fn lpa_quad_prefixes(p: &LpaQuadProp) -> (r: (
    &'static str,
    &'static str,
    &'static str,
    &'static str,
))
    ensures
        r.0@ == spec_lpa_quad_prefixes(*p).0,
        r.1@ == spec_lpa_quad_prefixes(*p).1,
        r.2@ == spec_lpa_quad_prefixes(*p).2,
        r.3@ == spec_lpa_quad_prefixes(*p).3,
{
    match p {
        LpaQuadProp::Inset => ("top", "left", "bottom", "right"),
        LpaQuadProp::Margin => ("mt", "ml", "mb", "mr"),
        LpaQuadProp::Padding => ("pt", "pl", "pb", "pr"),
        LpaQuadProp::ScrollMargin => ("scroll-mt", "scroll-ml", "scroll-mb", "scroll-mr"),
        LpaQuadProp::ScrollPadding => ("scroll-pt", "scroll-pl", "scroll-pb", "scroll-pr"),
    }
}

/// The border-width declaration kinds.
#[derive(Clone, Copy, Debug)]
pub enum BorderWidthProp {
    BorderTopWidth,
    BorderBottomWidth,
    BorderLeftWidth,
    BorderRightWidth,
    OutlineWidth,
}

pub open spec fn spec_bw_prop_prefix(p: BorderWidthProp) -> Seq<char> {
    match p {
        BorderWidthProp::BorderTopWidth => "b-t"@,
        BorderWidthProp::BorderBottomWidth => "b-b"@,
        BorderWidthProp::BorderLeftWidth => "b-l"@,
        BorderWidthProp::BorderRightWidth => "b-r"@,
        BorderWidthProp::OutlineWidth => "outline"@,
    }
}

fn bw_prop_prefix(p: &BorderWidthProp) -> (r: &'static str)
    ensures
        r@ == spec_bw_prop_prefix(*p),
{
    match p {
        BorderWidthProp::BorderTopWidth => "b-t",
        BorderWidthProp::BorderBottomWidth => "b-b",
        BorderWidthProp::BorderLeftWidth => "b-l",
        BorderWidthProp::BorderRightWidth => "b-r",
        BorderWidthProp::OutlineWidth => "outline",
    }
}

/// The block/inline paired declaration kinds for colors, styles and widths.
#[derive(Clone, Copy, Debug)]
pub enum AxisPairProp {
    Block,
    Inline,
}

pub open spec fn spec_axis_pair_prefixes(p: AxisPairProp) -> (Seq<char>, Seq<char>) {
    match p {
        AxisPairProp::Block => ("b-t"@, "b-b"@),
        AxisPairProp::Inline => ("b-l"@, "b-r"@),
    }
}

fn axis_pair_prefixes(p: &AxisPairProp) -> (r: (&'static str, &'static str))
    ensures
        r.0@ == spec_axis_pair_prefixes(*p).0,
        r.1@ == spec_axis_pair_prefixes(*p).1,
{
    match p {
        AxisPairProp::Block => ("b-t", "b-b"),
        AxisPairProp::Inline => ("b-l", "b-r"),
    }
}

/// The corner-radius declaration kinds.
#[derive(Clone, Copy, Debug)]
pub enum RadiusProp {
    TopLeft,
    TopRight,
    BottomLeft,
    BottomRight,
}

pub open spec fn spec_radius_prop_prefix(p: RadiusProp) -> Seq<char> {
    match p {
        RadiusProp::TopLeft => "rounded-tl"@,
        RadiusProp::TopRight => "rounded-tr"@,
        RadiusProp::BottomLeft => "rounded-bl"@,
        RadiusProp::BottomRight => "rounded-br"@,
    }
}

fn radius_prop_prefix(p: &RadiusProp) -> (r: &'static str)
    ensures
        r@ == spec_radius_prop_prefix(*p),
{
    match p {
        RadiusProp::TopLeft => "rounded-tl",
        RadiusProp::TopRight => "rounded-tr",
        RadiusProp::BottomLeft => "rounded-bl",
        RadiusProp::BottomRight => "rounded-br",
    }
}

/// The side a border shorthand targets.
#[derive(Clone, Copy, Debug)]
pub enum BorderSideProp {
    All,
    Top,
    Bottom,
    Left,
    Right,
}

pub open spec fn spec_border_side_prefix(p: BorderSideProp) -> Seq<char> {
    match p {
        BorderSideProp::All => "b"@,
        BorderSideProp::Top => "b-t"@,
        BorderSideProp::Bottom => "b-b"@,
        BorderSideProp::Left => "b-l"@,
        BorderSideProp::Right => "b-r"@,
    }
}

fn border_side_prefix(p: &BorderSideProp) -> (r: &'static str)
    ensures
        r@ == spec_border_side_prefix(*p),
{
    match p {
        BorderSideProp::All => "b",
        BorderSideProp::Top => "b-t",
        BorderSideProp::Bottom => "b-b",
        BorderSideProp::Left => "b-l",
        BorderSideProp::Right => "b-r",
    }
}

/// The logical border-side shorthand kinds (color, style, width order).
#[derive(Clone, Copy, Debug)]
pub enum BorderLogicalProp {
    BlockStart,
    BlockEnd,
    InlineStart,
    InlineEnd,
}

pub open spec fn spec_border_logical_prefix(p: BorderLogicalProp) -> Seq<char> {
    match p {
        BorderLogicalProp::BlockStart => "b-t"@,
        BorderLogicalProp::BlockEnd => "b-b"@,
        BorderLogicalProp::InlineStart => "b-l"@,
        BorderLogicalProp::InlineEnd => "b-r"@,
    }
}

fn border_logical_prefix(p: &BorderLogicalProp) -> (r: &'static str)
    ensures
        r@ == spec_border_logical_prefix(*p),
{
    match p {
        BorderLogicalProp::BlockStart => "b-t",
        BorderLogicalProp::BlockEnd => "b-b",
        BorderLogicalProp::InlineStart => "b-l",
        BorderLogicalProp::InlineEnd => "b-r",
    }
}

/// The keyword-list kinds, all pushed under `bg`.
#[derive(Clone, Copy, Debug)]
pub enum KeywordListProp {
    BackgroundPositionX,
    BackgroundPositionY,
    BackgroundPosition,
    BackgroundSize,
    BackgroundRepeat,
    BackgroundAttachment,
}

/// The grid template axes.
#[derive(Clone, Copy, Debug)]
pub enum GridTemplateProp {
    Columns,
    Rows,
}

pub open spec fn spec_grid_template_prefix(p: GridTemplateProp) -> Seq<char> {
    match p {
        GridTemplateProp::Columns => "grid-cols"@,
        GridTemplateProp::Rows => "grid-rows"@,
    }
}

fn grid_template_prefix(p: &GridTemplateProp) -> (r: &'static str)
    ensures
        r@ == spec_grid_template_prefix(*p),
{
    match p {
        GridTemplateProp::Columns => "grid-cols",
        GridTemplateProp::Rows => "grid-rows",
    }
}

/// The grid auto-track axes.
#[derive(Clone, Copy, Debug)]
pub enum GridAutoProp {
    Columns,
    Rows,
}

pub open spec fn spec_grid_auto_prefix(p: GridAutoProp) -> Seq<char> {
    match p {
        GridAutoProp::Columns => "auto-cols"@,
        GridAutoProp::Rows => "auto-rows"@,
    }
}

fn grid_auto_prefix(p: &GridAutoProp) -> (r: &'static str)
    ensures
        r@ == spec_grid_auto_prefix(*p),
{
    match p {
        GridAutoProp::Columns => "auto-cols",
        GridAutoProp::Rows => "auto-rows",
    }
}

/// The grid placement line kinds: the prefix used for `auto`, and the one
/// used for a raw expression (the row-start raw prefix follows the engine's
/// own quirk).
#[derive(Clone, Copy, Debug)]
pub enum GridLineProp {
    RowStart,
    RowEnd,
    ColumnStart,
    ColumnEnd,
}

pub open spec fn spec_grid_line_auto_prefix(p: GridLineProp) -> Seq<char> {
    match p {
        GridLineProp::RowStart => "row-start"@,
        GridLineProp::RowEnd => "row-end"@,
        GridLineProp::ColumnStart => "col-start"@,
        GridLineProp::ColumnEnd => "col-end"@,
    }
}

pub open spec fn spec_grid_line_raw_prefix(p: GridLineProp) -> Seq<char> {
    match p {
        GridLineProp::RowStart => "grid-rows"@,
        GridLineProp::RowEnd => "row-end"@,
        GridLineProp::ColumnStart => "col-start"@,
        GridLineProp::ColumnEnd => "col-end"@,
    }
}

fn grid_line_auto_prefix(p: &GridLineProp) -> (r: &'static str)
    ensures
        r@ == spec_grid_line_auto_prefix(*p),
{
    match p {
        GridLineProp::RowStart => "row-start",
        GridLineProp::RowEnd => "row-end",
        GridLineProp::ColumnStart => "col-start",
        GridLineProp::ColumnEnd => "col-end",
    }
}

fn grid_line_raw_prefix(p: &GridLineProp) -> (r: &'static str)
    ensures
        r@ == spec_grid_line_raw_prefix(*p),
{
    match p {
        GridLineProp::RowStart => "grid-rows",
        GridLineProp::RowEnd => "row-end",
        GridLineProp::ColumnStart => "col-start",
        GridLineProp::ColumnEnd => "col-end",
    }
}

/// The grid placement pair kinds.
#[derive(Clone, Copy, Debug)]
pub enum GridPairProp {
    Row,
    Column,
}

/// The time-list kinds.
#[derive(Clone, Copy, Debug)]
pub enum TimeListProp {
    TransitionDuration,
    TransitionDelay,
}

pub open spec fn spec_time_list_prefix(p: TimeListProp) -> Seq<char> {
    match p {
        TimeListProp::TransitionDuration => "duration"@,
        TimeListProp::TransitionDelay => "delay"@,
    }
}

fn time_list_prefix(p: &TimeListProp) -> (r: &'static str)
    ensures
        r@ == spec_time_list_prefix(*p),
{
    match p {
        TimeListProp::TransitionDuration => "duration",
        TimeListProp::TransitionDelay => "delay",
    }
}

/// The plain-number kinds.
#[derive(Clone, Copy, Debug)]
pub enum NumberProp {
    FlexGrow,
    FlexShrink,
}

pub open spec fn spec_number_prop_prefix(p: NumberProp) -> Seq<char> {
    match p {
        NumberProp::FlexGrow => "grow"@,
        NumberProp::FlexShrink => "shrink"@,
    }
}

fn number_prop_prefix(p: &NumberProp) -> (r: &'static str)
    ensures
        r@ == spec_number_prop_prefix(*p),
{
    match p {
        NumberProp::FlexGrow => "grow",
        NumberProp::FlexShrink => "shrink",
    }
}

/// The SVG paint kinds.
#[derive(Clone, Copy, Debug)]
pub enum SvgPaintProp {
    Fill,
    Stroke,
}

/// The filter-list kinds.
#[derive(Clone, Copy, Debug)]
pub enum FilterProp {
    Filter,
    BackdropFilter,
}

/// Pushes one keyword per list entry, all under the same prefix.
fn push_keyword_list(items: &Vec<String>, tw_set: &mut TailwindTokenSet, token_prefix: &str)
    ensures
        final (tw_set).toks() == spec_apply_pushes(
            old(tw_set).toks(),
            spec_flatten(
                items.deep_view().map_values(
                    |c: Seq<char>| spec_keyword_emissions(token_prefix@, c),
                ),
            ),
        ),
        spec_tokens_only_change(*old(tw_set), *final (tw_set)),
{
    let ghost t0 = old(tw_set).toks();
    let ghost m = items.deep_view().map_values(
        |c: Seq<char>| spec_keyword_emissions(token_prefix@, c),
    );
    let n = items.len();
    let mut i: usize = 0;
    proof {
        assert(spec_flatten(m.take(0)) =~= Seq::<(Seq<char>, Seq<char>)>::empty());
    }
    while i < n
        invariant
            n == items@.len(),
            i <= n,
            m == items.deep_view().map_values(
                |c: Seq<char>| spec_keyword_emissions(token_prefix@, c),
            ),
            m.len() == n,
            tw_set.toks() == spec_apply_pushes(t0, spec_flatten(m.take(i as int))),
            spec_tokens_only_change(*old(tw_set), *tw_set),
        decreases n - i,
    {
        let item = &items[i];
        resolve_keyword(item.as_str(), tw_set, token_prefix);
        proof {
            assert(m.take(i + 1).drop_last() =~= m.take(i as int));
            assert(m.take(i + 1).last() == m[i as int]);
            assert(m[i as int] == spec_keyword_emissions(token_prefix@, item@));
            lemma_apply_pushes_append(t0, spec_flatten(m.take(i as int)), m[i as int]);
        }
        i += 1;
    }
    proof {
        assert(m.take(n as int) =~= m);
    }
}

/// Resolves every color in a list under the same prefix.
fn push_color_list(
    items: &Vec<ColorVal>,
    tw_set: &mut TailwindTokenSet,
    token_prefix: &str,
    reg: &Registry,
)
    ensures
        final (tw_set).toks() == spec_apply_pushes(
            old(tw_set).toks(),
            spec_flatten(
                items@.map_values(|c: ColorVal| spec_color_emissions(reg.colors@, c, token_prefix@)),
            ),
        ),
        spec_tokens_only_change(*old(tw_set), *final (tw_set)),
{
    let ghost t0 = old(tw_set).toks();
    let ghost m = items@.map_values(
        |c: ColorVal| spec_color_emissions(reg.colors@, c, token_prefix@),
    );
    let n = items.len();
    let mut i: usize = 0;
    proof {
        assert(spec_flatten(m.take(0)) =~= Seq::<(Seq<char>, Seq<char>)>::empty());
    }
    while i < n
        invariant
            n == items@.len(),
            i <= n,
            m == items@.map_values(
                |c: ColorVal| spec_color_emissions(reg.colors@, c, token_prefix@),
            ),
            m.len() == n,
            tw_set.toks() == spec_apply_pushes(t0, spec_flatten(m.take(i as int))),
            spec_tokens_only_change(*old(tw_set), *tw_set),
        decreases n - i,
    {
        let item = &items[i];
        resolve_color(item, tw_set, token_prefix, reg);
        proof {
            assert(m.take(i + 1).drop_last() =~= m.take(i as int));
            assert(m.take(i + 1).last() == m[i as int]);
            lemma_apply_pushes_append(t0, spec_flatten(m.take(i as int)), m[i as int]);
        }
        i += 1;
    }
    proof {
        assert(m.take(n as int) =~= m);
    }
}

/// Resolves every track size in a list under the same prefix.
fn push_track_list(
    items: &Vec<TrackSizeVal>,
    tw_set: &mut TailwindTokenSet,
    token_prefix: &str,
)
    requires
        forall|i: int| 0 <= i < items@.len() ==> (#[trigger] items@[i]).wf(),
    ensures
        final (tw_set).toks() == spec_apply_pushes(
            old(tw_set).toks(),
            spec_flatten(
                items@.map_values(|t: TrackSizeVal| spec_track_size_emissions(t, token_prefix@)),
            ),
        ),
        spec_tokens_only_change(*old(tw_set), *final (tw_set)),
{
    let ghost t0 = old(tw_set).toks();
    let ghost m = items@.map_values(|t: TrackSizeVal| spec_track_size_emissions(t, token_prefix@));
    let n = items.len();
    let mut i: usize = 0;
    proof {
        assert(spec_flatten(m.take(0)) =~= Seq::<(Seq<char>, Seq<char>)>::empty());
    }
    while i < n
        invariant
            n == items@.len(),
            i <= n,
            forall|k: int| 0 <= k < items@.len() ==> (#[trigger] items@[k]).wf(),
            m == items@.map_values(|t: TrackSizeVal| spec_track_size_emissions(t, token_prefix@)),
            m.len() == n,
            tw_set.toks() == spec_apply_pushes(t0, spec_flatten(m.take(i as int))),
            spec_tokens_only_change(*old(tw_set), *tw_set),
        decreases n - i,
    {
        let item = &items[i];
        resolve_track_size(item, tw_set, token_prefix);
        proof {
            assert(m.take(i + 1).drop_last() =~= m.take(i as int));
            assert(m.take(i + 1).last() == m[i as int]);
            lemma_apply_pushes_append(t0, spec_flatten(m.take(i as int)), m[i as int]);
        }
        i += 1;
    }
    proof {
        assert(m.take(n as int) =~= m);
    }
}

/// Resolves every time value in a list under the same prefix.
fn push_time_list(items: &Vec<TimeVal>, tw_set: &mut TailwindTokenSet, token_prefix: &str)
    requires
        forall|i: int| 0 <= i < items@.len() ==> (#[trigger] items@[i]).wf(),
    ensures
        final (tw_set).toks() == spec_apply_pushes(
            old(tw_set).toks(),
            spec_flatten(items@.map_values(|t: TimeVal| spec_time_emissions(t, token_prefix@))),
        ),
        spec_tokens_only_change(*old(tw_set), *final (tw_set)),
{
    let ghost t0 = old(tw_set).toks();
    let ghost m = items@.map_values(|t: TimeVal| spec_time_emissions(t, token_prefix@));
    let n = items.len();
    let mut i: usize = 0;
    proof {
        assert(spec_flatten(m.take(0)) =~= Seq::<(Seq<char>, Seq<char>)>::empty());
    }
    while i < n
        invariant
            n == items@.len(),
            i <= n,
            forall|k: int| 0 <= k < items@.len() ==> (#[trigger] items@[k]).wf(),
            m == items@.map_values(|t: TimeVal| spec_time_emissions(t, token_prefix@)),
            m.len() == n,
            tw_set.toks() == spec_apply_pushes(t0, spec_flatten(m.take(i as int))),
            spec_tokens_only_change(*old(tw_set), *tw_set),
        decreases n - i,
    {
        let item = &items[i];
        resolve_time(item, tw_set, token_prefix);
        proof {
            assert(m.take(i + 1).drop_last() =~= m.take(i as int));
            assert(m.take(i + 1).last() == m[i as int]);
            lemma_apply_pushes_append(t0, spec_flatten(m.take(i as int)), m[i as int]);
        }
        i += 1;
    }
    proof {
        assert(m.take(n as int) =~= m);
    }
}

/// Resolves every easing function in a list.
fn push_easing_list(items: &Vec<EasingVal>, tw_set: &mut TailwindTokenSet)
    requires
        forall|i: int| 0 <= i < items@.len() ==> (#[trigger] items@[i]).wf(),
    ensures
        final (tw_set).toks() == spec_apply_pushes(
            old(tw_set).toks(),
            spec_flatten(items@.map_values(|e: EasingVal| spec_easing_emissions(e))),
        ),
        spec_tokens_only_change(*old(tw_set), *final (tw_set)),
{
    let ghost t0 = old(tw_set).toks();
    let ghost m = items@.map_values(|e: EasingVal| spec_easing_emissions(e));
    let n = items.len();
    let mut i: usize = 0;
    proof {
        assert(spec_flatten(m.take(0)) =~= Seq::<(Seq<char>, Seq<char>)>::empty());
    }
    while i < n
        invariant
            n == items@.len(),
            i <= n,
            forall|k: int| 0 <= k < items@.len() ==> (#[trigger] items@[k]).wf(),
            m == items@.map_values(|e: EasingVal| spec_easing_emissions(e)),
            m.len() == n,
            tw_set.toks() == spec_apply_pushes(t0, spec_flatten(m.take(i as int))),
            spec_tokens_only_change(*old(tw_set), *tw_set),
        decreases n - i,
    {
        let item = &items[i];
        resolve_easing(item, tw_set);
        proof {
            assert(m.take(i + 1).drop_last() =~= m.take(i as int));
            assert(m.take(i + 1).last() == m[i as int]);
            lemma_apply_pushes_append(t0, spec_flatten(m.take(i as int)), m[i as int]);
        }
        i += 1;
    }
    proof {
        assert(m.take(n as int) =~= m);
    }
}

/// The pushes one `transition` shorthand item makes: delay, duration, then
/// the easing classification.
pub open spec fn spec_transition_item_emissions(it: TransitionItemVal) -> Seq<
    (Seq<char>, Seq<char>),
> {
    spec_time_emissions(it.delay, "delay"@) + spec_time_emissions(it.duration, "duration"@)
        + spec_easing_emissions(it.easing)
}

fn resolve_transition_item(it: &TransitionItemVal, tw_set: &mut TailwindTokenSet)
    requires
        it.wf(),
    ensures
        final (tw_set).toks() == spec_apply_pushes(
            old(tw_set).toks(),
            spec_transition_item_emissions(*it),
        ),
        spec_tokens_only_change(*old(tw_set), *final (tw_set)),
{
    let ghost t0 = old(tw_set).toks();
    resolve_time(&it.delay, tw_set, "delay");
    resolve_time(&it.duration, tw_set, "duration");
    resolve_easing(&it.easing, tw_set);
    proof {
        lemma_apply_pushes_append(
            t0,
            spec_time_emissions(it.delay, "delay"@),
            spec_time_emissions(it.duration, "duration"@),
        );
        lemma_apply_pushes_append(
            t0,
            spec_time_emissions(it.delay, "delay"@) + spec_time_emissions(it.duration, "duration"@),
            spec_easing_emissions(it.easing),
        );
    }
}

/// Resolves every `transition` shorthand item in a list.
fn push_transition_list(items: &Vec<TransitionItemVal>, tw_set: &mut TailwindTokenSet)
    requires
        forall|i: int| 0 <= i < items@.len() ==> (#[trigger] items@[i]).wf(),
    ensures
        final (tw_set).toks() == spec_apply_pushes(
            old(tw_set).toks(),
            spec_flatten(
                items@.map_values(|it: TransitionItemVal| spec_transition_item_emissions(it)),
            ),
        ),
        spec_tokens_only_change(*old(tw_set), *final (tw_set)),
{
    let ghost t0 = old(tw_set).toks();
    let ghost m = items@.map_values(|it: TransitionItemVal| spec_transition_item_emissions(it));
    let n = items.len();
    let mut i: usize = 0;
    proof {
        assert(spec_flatten(m.take(0)) =~= Seq::<(Seq<char>, Seq<char>)>::empty());
    }
    while i < n
        invariant
            n == items@.len(),
            i <= n,
            forall|k: int| 0 <= k < items@.len() ==> (#[trigger] items@[k]).wf(),
            m == items@.map_values(|it: TransitionItemVal| spec_transition_item_emissions(it)),
            m.len() == n,
            tw_set.toks() == spec_apply_pushes(t0, spec_flatten(m.take(i as int))),
            spec_tokens_only_change(*old(tw_set), *tw_set),
        decreases n - i,
    {
        let item = &items[i];
        resolve_transition_item(item, tw_set);
        proof {
            assert(m.take(i + 1).drop_last() =~= m.take(i as int));
            assert(m.take(i + 1).last() == m[i as int]);
            lemma_apply_pushes_append(t0, spec_flatten(m.take(i as int)), m[i as int]);
        }
        i += 1;
    }
    proof {
        assert(m.take(n as int) =~= m);
    }
}

/// The pushes one transitioned property name makes: `all` maps to `all`,
/// names mentioning color, opacity, shadow or transform map to their groups,
/// anything else is dropped.
pub open spec fn spec_transition_name_emissions(n: Seq<char>) -> Seq<(Seq<char>, Seq<char>)> {
    if n == "all"@ {
        seq![("transition"@, "all"@)]
    } else if spec_contains_seq(n, "color"@) {
        seq![("transition"@, "colors"@)]
    } else if spec_contains_seq(n, "opacity"@) {
        seq![("transition"@, "opacity"@)]
    } else if spec_contains_seq(n, "shadow"@) {
        seq![("transition"@, "shadow"@)]
    } else if spec_contains_seq(n, "transform"@) {
        seq![("transition"@, "transform"@)]
    } else {
        Seq::<(Seq<char>, Seq<char>)>::empty()
    }
}

fn resolve_transition_name(name: &str, tw_set: &mut TailwindTokenSet)
    ensures
        final (tw_set).toks() == spec_apply_pushes(
            old(tw_set).toks(),
            spec_transition_name_emissions(name@),
        ),
        spec_tokens_only_change(*old(tw_set), *final (tw_set)),
{
    if str_eq(name, "all") {
        tw_set.push_tailwind_token("transition", "all");
        proof {
            lemma_apply_pushes_one(old(tw_set).toks(), "transition"@, "all"@);
        }
    } else if str_contains(name, "color") {
        tw_set.push_tailwind_token("transition", "colors");
        proof {
            lemma_apply_pushes_one(old(tw_set).toks(), "transition"@, "colors"@);
        }
    } else if str_contains(name, "opacity") {
        tw_set.push_tailwind_token("transition", "opacity");
        proof {
            lemma_apply_pushes_one(old(tw_set).toks(), "transition"@, "opacity"@);
        }
    } else if str_contains(name, "shadow") {
        tw_set.push_tailwind_token("transition", "shadow");
        proof {
            lemma_apply_pushes_one(old(tw_set).toks(), "transition"@, "shadow"@);
        }
    } else if str_contains(name, "transform") {
        tw_set.push_tailwind_token("transition", "transform");
        proof {
            lemma_apply_pushes_one(old(tw_set).toks(), "transition"@, "transform"@);
        }
    }
}

/// Resolves every transitioned property name in a list.
fn push_transition_property_list(items: &Vec<String>, tw_set: &mut TailwindTokenSet)
    ensures
        final (tw_set).toks() == spec_apply_pushes(
            old(tw_set).toks(),
            spec_flatten(
                items.deep_view().map_values(|n: Seq<char>| spec_transition_name_emissions(n)),
            ),
        ),
        spec_tokens_only_change(*old(tw_set), *final (tw_set)),
{
    let ghost t0 = old(tw_set).toks();
    let ghost m = items.deep_view().map_values(|n: Seq<char>| spec_transition_name_emissions(n));
    let n = items.len();
    let mut i: usize = 0;
    proof {
        assert(spec_flatten(m.take(0)) =~= Seq::<(Seq<char>, Seq<char>)>::empty());
    }
    while i < n
        invariant
            n == items@.len(),
            i <= n,
            m == items.deep_view().map_values(|q: Seq<char>| spec_transition_name_emissions(q)),
            m.len() == n,
            tw_set.toks() == spec_apply_pushes(t0, spec_flatten(m.take(i as int))),
            spec_tokens_only_change(*old(tw_set), *tw_set),
        decreases n - i,
    {
        let item = &items[i];
        resolve_transition_name(item.as_str(), tw_set);
        proof {
            assert(m.take(i + 1).drop_last() =~= m.take(i as int));
            assert(m.take(i + 1).last() == m[i as int]);
            assert(m[i as int] == spec_transition_name_emissions(item@));
            lemma_apply_pushes_append(t0, spec_flatten(m.take(i as int)), m[i as int]);
        }
        i += 1;
    }
    proof {
        assert(m.take(n as int) =~= m);
    }
}

/// The pushes one transform function makes: translations quantize like
/// lengths, scales like numbers, rotations and skews carry their degree
/// values, and unsupported functions emit nothing.
pub open spec fn spec_transform_item_emissions(t: TransformVal) -> Seq<(Seq<char>, Seq<char>)> {
    match t {
        TransformVal::Translate(x, y) => spec_dimension_emissions(x, "translate-x"@)
            + spec_dimension_emissions(y, "translate-y"@),
        TransformVal::TranslateX(x) => spec_dimension_emissions(x, "translate-x"@),
        TransformVal::TranslateY(y) => spec_dimension_emissions(y, "translate-y"@),
        TransformVal::TranslateZ(css) => spec_keyword_emissions("translate-z"@, css@),
        TransformVal::Translate3d(x, y, z) => spec_dimension_emissions(x, "translate-x"@)
            + spec_dimension_emissions(y, "translate-y"@) + spec_keyword_emissions(
            "translate-z"@,
            z@,
        ),
        TransformVal::Scale(x, y) => spec_number_or_percentage_emissions(x, "scale-x"@)
            + spec_number_or_percentage_emissions(y, "scale-y"@),
        TransformVal::ScaleX(x) => spec_number_or_percentage_emissions(x, "scale-x"@),
        TransformVal::ScaleY(y) => spec_number_or_percentage_emissions(y, "scale-y"@),
        TransformVal::ScaleZ(z) => spec_number_or_percentage_emissions(z, "scale-z"@),
        TransformVal::Scale3d(x, y, z) => spec_number_or_percentage_emissions(x, "scale-x"@)
            + spec_number_or_percentage_emissions(y, "scale-y"@)
            + spec_number_or_percentage_emissions(z, "scale-z"@),
        TransformVal::Rotate(a) => seq![("rotate"@, spec_fixed_str(a as int))],
        TransformVal::RotateX(a) => seq![("rotate-x"@, spec_fixed_str(a as int))],
        TransformVal::RotateY(a) => seq![("rotate-y"@, spec_fixed_str(a as int))],
        TransformVal::RotateZ(a) => seq![("rotate-z"@, spec_fixed_str(a as int))],
        TransformVal::Rotate3d(x, y, z) => seq![
            ("rotate-x"@, spec_fixed_str(x as int)),
            ("rotate-y"@, spec_fixed_str(y as int)),
            ("rotate-z"@, spec_fixed_str(z as int)),
        ],
        TransformVal::Skew(x, y) => seq![
            ("skew-x"@, spec_fixed_str(x as int)),
            ("skew-y"@, spec_fixed_str(y as int)),
        ],
        TransformVal::SkewX(x) => seq![("skew-x"@, spec_fixed_str(x as int))],
        TransformVal::SkewY(y) => seq![("skew-y"@, spec_fixed_str(y as int))],
        TransformVal::Other => Seq::<(Seq<char>, Seq<char>)>::empty(),
    }
}

fn push_fixed_token(u: i64, tw_set: &mut TailwindTokenSet, token_prefix: &str)
    requires
        crate::values::units_ok(u as int),
    ensures
        final (tw_set).toks() == spec_apply_pushes(
            old(tw_set).toks(),
            seq![(token_prefix@, spec_fixed_str(u as int))],
        ),
        spec_tokens_only_change(*old(tw_set), *final (tw_set)),
{
    let v = fixed_to_string(u);
    tw_set.push_tailwind_token(token_prefix, v.as_str());
    proof {
        lemma_apply_pushes_one(old(tw_set).toks(), token_prefix@, v@);
    }
}

fn resolve_transform_item(t: &TransformVal, tw_set: &mut TailwindTokenSet)
    requires
        t.wf(),
    ensures
        final (tw_set).toks() == spec_apply_pushes(
            old(tw_set).toks(),
            spec_transform_item_emissions(*t),
        ),
        spec_tokens_only_change(*old(tw_set), *final (tw_set)),
{
    let ghost t0 = old(tw_set).toks();
    match t {
        TransformVal::Translate(x, y) => {
            resolve_dimension(x, tw_set, "translate-x");
            resolve_dimension(y, tw_set, "translate-y");
            proof {
                lemma_apply_pushes_append(
                    t0,
                    spec_dimension_emissions(*x, "translate-x"@),
                    spec_dimension_emissions(*y, "translate-y"@),
                );
            }
        },
        TransformVal::TranslateX(x) => {
            resolve_dimension(x, tw_set, "translate-x");
        },
        TransformVal::TranslateY(y) => {
            resolve_dimension(y, tw_set, "translate-y");
        },
        TransformVal::TranslateZ(css) => {
            resolve_keyword(css.as_str(), tw_set, "translate-z");
        },
        TransformVal::Translate3d(x, y, z) => {
            resolve_dimension(x, tw_set, "translate-x");
            resolve_dimension(y, tw_set, "translate-y");
            resolve_keyword(z.as_str(), tw_set, "translate-z");
            proof {
                lemma_apply_pushes_append(
                    t0,
                    spec_dimension_emissions(*x, "translate-x"@),
                    spec_dimension_emissions(*y, "translate-y"@),
                );
                lemma_apply_pushes_append(
                    t0,
                    spec_dimension_emissions(*x, "translate-x"@) + spec_dimension_emissions(
                        *y,
                        "translate-y"@,
                    ),
                    spec_keyword_emissions("translate-z"@, z@),
                );
            }
        },
        TransformVal::Scale(x, y) => {
            resolve_number_or_percentage(x, tw_set, "scale-x");
            resolve_number_or_percentage(y, tw_set, "scale-y");
            proof {
                lemma_apply_pushes_append(
                    t0,
                    spec_number_or_percentage_emissions(*x, "scale-x"@),
                    spec_number_or_percentage_emissions(*y, "scale-y"@),
                );
            }
        },
        TransformVal::ScaleX(x) => {
            resolve_number_or_percentage(x, tw_set, "scale-x");
        },
        TransformVal::ScaleY(y) => {
            resolve_number_or_percentage(y, tw_set, "scale-y");
        },
        TransformVal::ScaleZ(z) => {
            resolve_number_or_percentage(z, tw_set, "scale-z");
        },
        TransformVal::Scale3d(x, y, z) => {
            resolve_number_or_percentage(x, tw_set, "scale-x");
            resolve_number_or_percentage(y, tw_set, "scale-y");
            resolve_number_or_percentage(z, tw_set, "scale-z");
            proof {
                lemma_apply_pushes_append(
                    t0,
                    spec_number_or_percentage_emissions(*x, "scale-x"@),
                    spec_number_or_percentage_emissions(*y, "scale-y"@),
                );
                lemma_apply_pushes_append(
                    t0,
                    spec_number_or_percentage_emissions(*x, "scale-x"@)
                        + spec_number_or_percentage_emissions(*y, "scale-y"@),
                    spec_number_or_percentage_emissions(*z, "scale-z"@),
                );
            }
        },
        TransformVal::Rotate(a) => {
            push_fixed_token(*a, tw_set, "rotate");
        },
        TransformVal::RotateX(a) => {
            push_fixed_token(*a, tw_set, "rotate-x");
        },
        TransformVal::RotateY(a) => {
            push_fixed_token(*a, tw_set, "rotate-y");
        },
        TransformVal::RotateZ(a) => {
            push_fixed_token(*a, tw_set, "rotate-z");
        },
        TransformVal::Rotate3d(x, y, z) => {
            push_fixed_token(*x, tw_set, "rotate-x");
            push_fixed_token(*y, tw_set, "rotate-y");
            push_fixed_token(*z, tw_set, "rotate-z");
            proof {
                let e1 = seq![("rotate-x"@, spec_fixed_str(*x as int))];
                let e2 = seq![("rotate-y"@, spec_fixed_str(*y as int))];
                let e3 = seq![("rotate-z"@, spec_fixed_str(*z as int))];
                lemma_apply_pushes_append(t0, e1, e2);
                lemma_apply_pushes_append(t0, e1 + e2, e3);
                assert(e1 + e2 + e3 =~= spec_transform_item_emissions(*t));
            }
        },
        TransformVal::Skew(x, y) => {
            push_fixed_token(*x, tw_set, "skew-x");
            push_fixed_token(*y, tw_set, "skew-y");
            proof {
                let e1 = seq![("skew-x"@, spec_fixed_str(*x as int))];
                let e2 = seq![("skew-y"@, spec_fixed_str(*y as int))];
                lemma_apply_pushes_append(t0, e1, e2);
                assert(e1 + e2 =~= spec_transform_item_emissions(*t));
            }
        },
        TransformVal::SkewX(x) => {
            push_fixed_token(*x, tw_set, "skew-x");
        },
        TransformVal::SkewY(y) => {
            push_fixed_token(*y, tw_set, "skew-y");
        },
        TransformVal::Other => {},
    }
}

/// Resolves every transform function in a list.
fn push_transform_list(items: &Vec<TransformVal>, tw_set: &mut TailwindTokenSet)
    requires
        forall|i: int| 0 <= i < items@.len() ==> (#[trigger] items@[i]).wf(),
    ensures
        final (tw_set).toks() == spec_apply_pushes(
            old(tw_set).toks(),
            spec_flatten(items@.map_values(|t: TransformVal| spec_transform_item_emissions(t))),
        ),
        spec_tokens_only_change(*old(tw_set), *final (tw_set)),
{
    let ghost t0 = old(tw_set).toks();
    let ghost m = items@.map_values(|t: TransformVal| spec_transform_item_emissions(t));
    let n = items.len();
    let mut i: usize = 0;
    proof {
        assert(spec_flatten(m.take(0)) =~= Seq::<(Seq<char>, Seq<char>)>::empty());
    }
    while i < n
        invariant
            n == items@.len(),
            i <= n,
            forall|k: int| 0 <= k < items@.len() ==> (#[trigger] items@[k]).wf(),
            m == items@.map_values(|t: TransformVal| spec_transform_item_emissions(t)),
            m.len() == n,
            tw_set.toks() == spec_apply_pushes(t0, spec_flatten(m.take(i as int))),
            spec_tokens_only_change(*old(tw_set), *tw_set),
        decreases n - i,
    {
        let item = &items[i];
        resolve_transform_item(item, tw_set);
        proof {
            assert(m.take(i + 1).drop_last() =~= m.take(i as int));
            assert(m.take(i + 1).last() == m[i as int]);
            lemma_apply_pushes_append(t0, spec_flatten(m.take(i as int)), m[i as int]);
        }
        i += 1;
    }
    proof {
        assert(m.take(n as int) =~= m);
    }
}

/// The pushes one filter function makes under the `filter` prefixes.
pub open spec fn spec_filter_item_emissions(p: FilterProp, f: FilterVal) -> Seq<
    (Seq<char>, Seq<char>),
> {
    match p {
        FilterProp::Filter => match f {
            FilterVal::Blur(css) => spec_keyword_emissions("filter-blur"@, css@),
            FilterVal::Brightness(v) => spec_number_or_percentage_emissions(
                v,
                "filter-brightness"@,
            ),
            FilterVal::Contrast(v) => spec_number_or_percentage_emissions(v, "filter-contrast"@),
            FilterVal::Grayscale(v) => spec_number_or_percentage_emissions(v, "filter-grayscale"@),
            FilterVal::HueRotate(css) => spec_keyword_emissions("filter-hue-rotate"@, css@),
            FilterVal::Invert(v) => spec_number_or_percentage_emissions(v, "filter-invert"@),
            FilterVal::Saturate(v) => spec_number_or_percentage_emissions(v, "filter-saturate"@),
            FilterVal::Sepia(v) => spec_number_or_percentage_emissions(v, "filter-sepia"@),
            FilterVal::DropShadow(css) => spec_keyword_emissions("filter-drop-shadow"@, css@),
            FilterVal::Other => Seq::<(Seq<char>, Seq<char>)>::empty(),
        },
        FilterProp::BackdropFilter => match f {
            FilterVal::Blur(css) => spec_keyword_emissions("backdrop-filter-blur"@, css@),
            FilterVal::Brightness(v) => spec_number_or_percentage_emissions(
                v,
                "backdrop-filter-brightness"@,
            ),
            FilterVal::Contrast(v) => spec_number_or_percentage_emissions(
                v,
                "backdrop-filter-contrast"@,
            ),
            FilterVal::Grayscale(v) => spec_number_or_percentage_emissions(
                v,
                "backdrop-filter-grayscale"@,
            ),
            FilterVal::HueRotate(css) => spec_keyword_emissions(
                "backdrop-filter-hue-rotate"@,
                css@,
            ),
            FilterVal::Invert(v) => spec_number_or_percentage_emissions(
                v,
                "backdrop-filter-invert"@,
            ),
            FilterVal::Saturate(v) => spec_number_or_percentage_emissions(
                v,
                "backdrop-filter-saturate"@,
            ),
            FilterVal::Sepia(v) => spec_number_or_percentage_emissions(v, "backdrop-filter-sepia"@),
            FilterVal::DropShadow(css) => spec_keyword_emissions(
                "backdrop-filter-drop-shadow"@,
                css@,
            ),
            FilterVal::Other => Seq::<(Seq<char>, Seq<char>)>::empty(),
        },
    }
}

fn resolve_filter_item(p: &FilterProp, f: &FilterVal, tw_set: &mut TailwindTokenSet)
    requires
        f.wf(),
    ensures
        final (tw_set).toks() == spec_apply_pushes(
            old(tw_set).toks(),
            spec_filter_item_emissions(*p, *f),
        ),
        spec_tokens_only_change(*old(tw_set), *final (tw_set)),
{
    match p {
        FilterProp::Filter => match f {
            FilterVal::Blur(css) => resolve_keyword(css.as_str(), tw_set, "filter-blur"),
            FilterVal::Brightness(v) => resolve_number_or_percentage(
                v,
                tw_set,
                "filter-brightness",
            ),
            FilterVal::Contrast(v) => resolve_number_or_percentage(v, tw_set, "filter-contrast"),
            FilterVal::Grayscale(v) => resolve_number_or_percentage(v, tw_set, "filter-grayscale"),
            FilterVal::HueRotate(css) => resolve_keyword(css.as_str(), tw_set, "filter-hue-rotate"),
            FilterVal::Invert(v) => resolve_number_or_percentage(v, tw_set, "filter-invert"),
            FilterVal::Saturate(v) => resolve_number_or_percentage(v, tw_set, "filter-saturate"),
            FilterVal::Sepia(v) => resolve_number_or_percentage(v, tw_set, "filter-sepia"),
            FilterVal::DropShadow(css) => resolve_keyword(
                css.as_str(),
                tw_set,
                "filter-drop-shadow",
            ),
            FilterVal::Other => {},
        },
        FilterProp::BackdropFilter => match f {
            FilterVal::Blur(css) => resolve_keyword(css.as_str(), tw_set, "backdrop-filter-blur"),
            FilterVal::Brightness(v) => resolve_number_or_percentage(
                v,
                tw_set,
                "backdrop-filter-brightness",
            ),
            FilterVal::Contrast(v) => resolve_number_or_percentage(
                v,
                tw_set,
                "backdrop-filter-contrast",
            ),
            FilterVal::Grayscale(v) => resolve_number_or_percentage(
                v,
                tw_set,
                "backdrop-filter-grayscale",
            ),
            FilterVal::HueRotate(css) => resolve_keyword(
                css.as_str(),
                tw_set,
                "backdrop-filter-hue-rotate",
            ),
            FilterVal::Invert(v) => resolve_number_or_percentage(
                v,
                tw_set,
                "backdrop-filter-invert",
            ),
            FilterVal::Saturate(v) => resolve_number_or_percentage(
                v,
                tw_set,
                "backdrop-filter-saturate",
            ),
            FilterVal::Sepia(v) => resolve_number_or_percentage(v, tw_set, "backdrop-filter-sepia"),
            FilterVal::DropShadow(css) => resolve_keyword(
                css.as_str(),
                tw_set,
                "backdrop-filter-drop-shadow",
            ),
            FilterVal::Other => {},
        },
    }
}

/// The pushes one filter list makes: `none` under the list's own prefix, or
/// each filter function in turn.
pub open spec fn spec_filter_list_emissions(p: FilterProp, v: FilterListVal) -> Seq<
    (Seq<char>, Seq<char>),
> {
    match v {
        FilterListVal::NoneKw => match p {
            FilterProp::Filter => seq![("filter"@, "none"@)],
            FilterProp::BackdropFilter => seq![("backdrop-filter"@, "none"@)],
        },
        FilterListVal::Filters(fs) => spec_flatten(
            fs@.map_values(|f: FilterVal| spec_filter_item_emissions(p, f)),
        ),
    }
}

fn resolve_filter_list(p: &FilterProp, v: &FilterListVal, tw_set: &mut TailwindTokenSet)
    requires
        v.wf(),
    ensures
        final (tw_set).toks() == spec_apply_pushes(
            old(tw_set).toks(),
            spec_filter_list_emissions(*p, *v),
        ),
        spec_tokens_only_change(*old(tw_set), *final (tw_set)),
{
    match v {
        FilterListVal::NoneKw => {
            match p {
                FilterProp::Filter => {
                    tw_set.push_tailwind_token("filter", "none");
                    proof {
                        lemma_apply_pushes_one(old(tw_set).toks(), "filter"@, "none"@);
                    }
                },
                FilterProp::BackdropFilter => {
                    tw_set.push_tailwind_token("backdrop-filter", "none");
                    proof {
                        lemma_apply_pushes_one(old(tw_set).toks(), "backdrop-filter"@, "none"@);
                    }
                },
            }
        },
        FilterListVal::Filters(fs) => {
            let ghost t0 = old(tw_set).toks();
            let ghost m = fs@.map_values(|f: FilterVal| spec_filter_item_emissions(*p, f));
            let n = fs.len();
            let mut i: usize = 0;
            proof {
                assert(spec_flatten(m.take(0)) =~= Seq::<(Seq<char>, Seq<char>)>::empty());
            }
            while i < n
                invariant
                    n == fs@.len(),
                    i <= n,
                    forall|k: int| 0 <= k < fs@.len() ==> (#[trigger] fs@[k]).wf(),
                    m == fs@.map_values(|f: FilterVal| spec_filter_item_emissions(*p, f)),
                    m.len() == n,
                    tw_set.toks() == spec_apply_pushes(t0, spec_flatten(m.take(i as int))),
                    spec_tokens_only_change(*old(tw_set), *tw_set),
                decreases n - i,
            {
                let item = &fs[i];
                resolve_filter_item(p, item, tw_set);
                proof {
                    assert(m.take(i + 1).drop_last() =~= m.take(i as int));
                    assert(m.take(i + 1).last() == m[i as int]);
                    lemma_apply_pushes_append(t0, spec_flatten(m.take(i as int)), m[i as int]);
                }
                i += 1;
            }
            proof {
                assert(m.take(n as int) =~= m);
            }
        },
    }
}

/// The pushes one SVG paint makes: `fill` passes `none` through as a
/// keyword, `stroke` pins it to a literal `none` token, and both resolve a
/// color under the `fill` prefix.
pub open spec fn spec_svg_paint_emissions(
    tbl: Seq<crate::registry::ColorToken>,
    p: SvgPaintProp,
    v: SvgPaintVal,
) -> Seq<(Seq<char>, Seq<char>)> {
    match v {
        SvgPaintVal::NoneKw(css) => match p {
            SvgPaintProp::Fill => spec_keyword_emissions("fill"@, css@),
            SvgPaintProp::Stroke => seq![("stroke"@, "none"@)],
        },
        SvgPaintVal::Color(c) => spec_color_emissions(tbl, c, "fill"@),
        SvgPaintVal::Other => Seq::<(Seq<char>, Seq<char>)>::empty(),
    }
}

fn resolve_svg_paint(
    p: &SvgPaintProp,
    v: &SvgPaintVal,
    tw_set: &mut TailwindTokenSet,
    reg: &Registry,
)
    ensures
        final (tw_set).toks() == spec_apply_pushes(
            old(tw_set).toks(),
            spec_svg_paint_emissions(reg.colors@, *p, *v),
        ),
        spec_tokens_only_change(*old(tw_set), *final (tw_set)),
{
    match v {
        SvgPaintVal::NoneKw(css) => {
            match p {
                SvgPaintProp::Fill => {
                    resolve_keyword(css.as_str(), tw_set, "fill");
                },
                SvgPaintProp::Stroke => {
                    tw_set.push_tailwind_token("stroke", "none");
                    proof {
                        lemma_apply_pushes_one(old(tw_set).toks(), "stroke"@, "none"@);
                    }
                },
            }
        },
        SvgPaintVal::Color(c) => {
            resolve_color(c, tw_set, "fill", reg);
        },
        SvgPaintVal::Other => {},
    }
}

/// The pushes one grid placement line makes: `auto` under the line's own
/// prefix, anything else as a raw expression under its raw prefix.
pub open spec fn spec_grid_line_emissions(p: GridLineProp, v: GridLineVal) -> Seq<
    (Seq<char>, Seq<char>),
> {
    match v {
        GridLineVal::Auto => seq![(spec_grid_line_auto_prefix(p), "auto"@)],
        GridLineVal::Other(raw) => spec_raw_exp_emissions(spec_grid_line_raw_prefix(p), raw@),
    }
}

fn resolve_grid_line(p: &GridLineProp, v: &GridLineVal, tw_set: &mut TailwindTokenSet)
    ensures
        final (tw_set).toks() == spec_apply_pushes(
            old(tw_set).toks(),
            spec_grid_line_emissions(*p, *v),
        ),
        spec_tokens_only_change(*old(tw_set), *final (tw_set)),
{
    match v {
        GridLineVal::Auto => {
            let pfx = grid_line_auto_prefix(p);
            tw_set.push_tailwind_token(pfx, "auto");
            proof {
                lemma_apply_pushes_one(old(tw_set).toks(), pfx@, "auto"@);
            }
        },
        GridLineVal::Other(raw) => {
            let pfx = grid_line_raw_prefix(p);
            resolve_raw_exp(raw.as_str(), tw_set, pfx);
        },
    }
}

/// The pushes a grid placement pair makes, start then end.
pub open spec fn spec_grid_pair_emissions(p: GridPairProp, s: GridLineVal, e: GridLineVal) -> Seq<
    (Seq<char>, Seq<char>),
> {
    match p {
        GridPairProp::Row => spec_grid_line_start_end_emissions("row-start"@, s)
            + spec_grid_line_start_end_emissions("row-end"@, e),
        GridPairProp::Column => spec_grid_line_start_end_emissions("col-start"@, s)
            + spec_grid_line_start_end_emissions("col-end"@, e),
    }
}

/// One end of a grid pair: `auto` or a raw expression, both under the same
/// prefix.
pub open spec fn spec_grid_line_start_end_emissions(p: Seq<char>, v: GridLineVal) -> Seq<
    (Seq<char>, Seq<char>),
> {
    match v {
        GridLineVal::Auto => seq![(p, "auto"@)],
        GridLineVal::Other(raw) => spec_raw_exp_emissions(p, raw@),
    }
}

fn resolve_grid_line_at(v: &GridLineVal, tw_set: &mut TailwindTokenSet, token_prefix: &str)
    ensures
        final (tw_set).toks() == spec_apply_pushes(
            old(tw_set).toks(),
            spec_grid_line_start_end_emissions(token_prefix@, *v),
        ),
        spec_tokens_only_change(*old(tw_set), *final (tw_set)),
{
    match v {
        GridLineVal::Auto => {
            tw_set.push_tailwind_token(token_prefix, "auto");
            proof {
                lemma_apply_pushes_one(old(tw_set).toks(), token_prefix@, "auto"@);
            }
        },
        GridLineVal::Other(raw) => {
            resolve_raw_exp(raw.as_str(), tw_set, token_prefix);
        },
    }
}

fn resolve_grid_pair(
    p: &GridPairProp,
    s: &GridLineVal,
    e: &GridLineVal,
    tw_set: &mut TailwindTokenSet,
)
    ensures
        final (tw_set).toks() == spec_apply_pushes(
            old(tw_set).toks(),
            spec_grid_pair_emissions(*p, *s, *e),
        ),
        spec_tokens_only_change(*old(tw_set), *final (tw_set)),
{
    let ghost t0 = old(tw_set).toks();
    match p {
        GridPairProp::Row => {
            resolve_grid_line_at(s, tw_set, "row-start");
            resolve_grid_line_at(e, tw_set, "row-end");
            proof {
                lemma_apply_pushes_append(
                    t0,
                    spec_grid_line_start_end_emissions("row-start"@, *s),
                    spec_grid_line_start_end_emissions("row-end"@, *e),
                );
            }
        },
        GridPairProp::Column => {
            resolve_grid_line_at(s, tw_set, "col-start");
            resolve_grid_line_at(e, tw_set, "col-end");
            proof {
                lemma_apply_pushes_append(
                    t0,
                    spec_grid_line_start_end_emissions("col-start"@, *s),
                    spec_grid_line_start_end_emissions("col-end"@, *e),
                );
            }
        },
    }
}

/// A border shorthand that pushes style, width, color in that order, all
/// under one prefix.
pub open spec fn spec_border_swc_emissions(
    tbl: Seq<crate::registry::ColorToken>,
    p: Seq<char>,
    style: Seq<char>,
    w: BorderWidthVal,
    c: ColorVal,
) -> Seq<(Seq<char>, Seq<char>)> {
    spec_keyword_emissions(p, style) + spec_border_side_width_emissions(w, p)
        + spec_color_emissions(tbl, c, p)
}

fn resolve_border_swc(
    token_prefix: &str,
    style: &String,
    w: &BorderWidthVal,
    c: &ColorVal,
    tw_set: &mut TailwindTokenSet,
    reg: &Registry,
)
    requires
        w.wf(),
    ensures
        final (tw_set).toks() == spec_apply_pushes(
            old(tw_set).toks(),
            spec_border_swc_emissions(reg.colors@, token_prefix@, style@, *w, *c),
        ),
        spec_tokens_only_change(*old(tw_set), *final (tw_set)),
{
    let ghost t0 = old(tw_set).toks();
    resolve_keyword(style.as_str(), tw_set, token_prefix);
    resolve_border_side_width(w, tw_set, token_prefix);
    resolve_color(c, tw_set, token_prefix, reg);
    proof {
        lemma_apply_pushes_append(
            t0,
            spec_keyword_emissions(token_prefix@, style@),
            spec_border_side_width_emissions(*w, token_prefix@),
        );
        lemma_apply_pushes_append(
            t0,
            spec_keyword_emissions(token_prefix@, style@) + spec_border_side_width_emissions(
                *w,
                token_prefix@,
            ),
            spec_color_emissions(reg.colors@, *c, token_prefix@),
        );
    }
}

/// A border shorthand that pushes color, style, width in that order, all
/// under one prefix.
pub open spec fn spec_border_csw_emissions(
    tbl: Seq<crate::registry::ColorToken>,
    p: Seq<char>,
    c: ColorVal,
    style: Seq<char>,
    w: BorderWidthVal,
) -> Seq<(Seq<char>, Seq<char>)> {
    spec_color_emissions(tbl, c, p) + spec_keyword_emissions(p, style)
        + spec_border_side_width_emissions(w, p)
}

fn resolve_border_csw(
    token_prefix: &str,
    c: &ColorVal,
    style: &String,
    w: &BorderWidthVal,
    tw_set: &mut TailwindTokenSet,
    reg: &Registry,
)
    requires
        w.wf(),
    ensures
        final (tw_set).toks() == spec_apply_pushes(
            old(tw_set).toks(),
            spec_border_csw_emissions(reg.colors@, token_prefix@, *c, style@, *w),
        ),
        spec_tokens_only_change(*old(tw_set), *final (tw_set)),
{
    let ghost t0 = old(tw_set).toks();
    resolve_color(c, tw_set, token_prefix, reg);
    resolve_keyword(style.as_str(), tw_set, token_prefix);
    resolve_border_side_width(w, tw_set, token_prefix);
    proof {
        lemma_apply_pushes_append(
            t0,
            spec_color_emissions(reg.colors@, *c, token_prefix@),
            spec_keyword_emissions(token_prefix@, style@),
        );
        lemma_apply_pushes_append(
            t0,
            spec_color_emissions(reg.colors@, *c, token_prefix@) + spec_keyword_emissions(
                token_prefix@,
                style@,
            ),
            spec_border_side_width_emissions(*w, token_prefix@),
        );
    }
}

/// A grid template axis inside the `grid` shorthand: `none` pins a literal
/// `none` token, a track list becomes a raw expression.
pub open spec fn spec_grid_sh_template_emissions(p: Seq<char>, v: TrackSizingVal) -> Seq<
    (Seq<char>, Seq<char>),
> {
    match v {
        TrackSizingVal::NoneKw(_) => seq![(p, "none"@)],
        TrackSizingVal::TrackList(raw) => spec_raw_exp_emissions(p, raw@),
    }
}

fn resolve_grid_sh_template(v: &TrackSizingVal, tw_set: &mut TailwindTokenSet, token_prefix: &str)
    ensures
        final (tw_set).toks() == spec_apply_pushes(
            old(tw_set).toks(),
            spec_grid_sh_template_emissions(token_prefix@, *v),
        ),
        spec_tokens_only_change(*old(tw_set), *final (tw_set)),
{
    match v {
        TrackSizingVal::NoneKw(_) => {
            tw_set.push_tailwind_token(token_prefix, "none");
            proof {
                lemma_apply_pushes_one(old(tw_set).toks(), token_prefix@, "none"@);
            }
        },
        TrackSizingVal::TrackList(raw) => {
            resolve_raw_exp(raw.as_str(), tw_set, token_prefix);
        },
    }
}

fn resolve_color_two(
    c1: &ColorVal,
    p1: &str,
    c2: &ColorVal,
    p2: &str,
    tw_set: &mut TailwindTokenSet,
    reg: &Registry,
)
    ensures
        final (tw_set).toks() == spec_apply_pushes(
            old(tw_set).toks(),
            spec_color_emissions(reg.colors@, *c1, p1@) + spec_color_emissions(
                reg.colors@,
                *c2,
                p2@,
            ),
        ),
        spec_tokens_only_change(*old(tw_set), *final (tw_set)),
{
    let ghost t0 = old(tw_set).toks();
    resolve_color(c1, tw_set, p1, reg);
    resolve_color(c2, tw_set, p2, reg);
    proof {
        lemma_apply_pushes_append(
            t0,
            spec_color_emissions(reg.colors@, *c1, p1@),
            spec_color_emissions(reg.colors@, *c2, p2@),
        );
    }
}

fn resolve_color_quad(
    t: &ColorVal,
    b: &ColorVal,
    l: &ColorVal,
    r: &ColorVal,
    tw_set: &mut TailwindTokenSet,
    reg: &Registry,
)
    ensures
        final (tw_set).toks() == spec_apply_pushes(
            old(tw_set).toks(),
            spec_color_emissions(reg.colors@, *t, "b-t"@) + spec_color_emissions(
                reg.colors@,
                *b,
                "b-b"@,
            ) + spec_color_emissions(reg.colors@, *l, "b-l"@) + spec_color_emissions(
                reg.colors@,
                *r,
                "b-r"@,
            ),
        ),
        spec_tokens_only_change(*old(tw_set), *final (tw_set)),
{
    let ghost t0 = old(tw_set).toks();
    resolve_color_two(t, "b-t", b, "b-b", tw_set, reg);
    resolve_color_two(l, "b-l", r, "b-r", tw_set, reg);
    proof {
        let e1 = spec_color_emissions(reg.colors@, *t, "b-t"@);
        let e2 = spec_color_emissions(reg.colors@, *b, "b-b"@);
        let e3 = spec_color_emissions(reg.colors@, *l, "b-l"@);
        let e4 = spec_color_emissions(reg.colors@, *r, "b-r"@);
        lemma_apply_pushes_append(t0, e1 + e2, e3 + e4);
        assert(e1 + e2 + e3 + e4 =~= (e1 + e2) + (e3 + e4));
    }
}

fn resolve_keyword_two(a: &str, p1: &str, b: &str, p2: &str, tw_set: &mut TailwindTokenSet)
    ensures
        final (tw_set).toks() == spec_apply_pushes(
            old(tw_set).toks(),
            spec_keyword_emissions(p1@, a@) + spec_keyword_emissions(p2@, b@),
        ),
        spec_tokens_only_change(*old(tw_set), *final (tw_set)),
{
    let ghost t0 = old(tw_set).toks();
    resolve_keyword(a, tw_set, p1);
    resolve_keyword(b, tw_set, p2);
    proof {
        lemma_apply_pushes_append(
            t0,
            spec_keyword_emissions(p1@, a@),
            spec_keyword_emissions(p2@, b@),
        );
    }
}

fn resolve_keyword_three(
    x: &str,
    p1: &str,
    y: &str,
    p2: &str,
    z: &str,
    p3: &str,
    tw_set: &mut TailwindTokenSet,
)
    ensures
        final (tw_set).toks() == spec_apply_pushes(
            old(tw_set).toks(),
            spec_keyword_emissions(p1@, x@) + spec_keyword_emissions(p2@, y@)
                + spec_keyword_emissions(p3@, z@),
        ),
        spec_tokens_only_change(*old(tw_set), *final (tw_set)),
{
    let ghost t0 = old(tw_set).toks();
    resolve_keyword_two(x, p1, y, p2, tw_set);
    resolve_keyword(z, tw_set, p3);
    proof {
        lemma_apply_pushes_append(
            t0,
            spec_keyword_emissions(p1@, x@) + spec_keyword_emissions(p2@, y@),
            spec_keyword_emissions(p3@, z@),
        );
    }
}

fn resolve_keyword_quad(
    t: &str,
    b: &str,
    l: &str,
    r: &str,
    tw_set: &mut TailwindTokenSet,
)
    ensures
        final (tw_set).toks() == spec_apply_pushes(
            old(tw_set).toks(),
            spec_keyword_emissions("b-t"@, t@) + spec_keyword_emissions("b-b"@, b@)
                + spec_keyword_emissions("b-l"@, l@) + spec_keyword_emissions("b-r"@, r@),
        ),
        spec_tokens_only_change(*old(tw_set), *final (tw_set)),
{
    let ghost t0 = old(tw_set).toks();
    resolve_keyword_two(t, "b-t", b, "b-b", tw_set);
    resolve_keyword_two(l, "b-l", r, "b-r", tw_set);
    proof {
        let e1 = spec_keyword_emissions("b-t"@, t@);
        let e2 = spec_keyword_emissions("b-b"@, b@);
        let e3 = spec_keyword_emissions("b-l"@, l@);
        let e4 = spec_keyword_emissions("b-r"@, r@);
        lemma_apply_pushes_append(t0, e1 + e2, e3 + e4);
        assert(e1 + e2 + e3 + e4 =~= (e1 + e2) + (e3 + e4));
    }
}

fn resolve_lpa_two(
    a: &LpaVal,
    p1: &str,
    b: &LpaVal,
    p2: &str,
    tw_set: &mut TailwindTokenSet,
)
    requires
        a.wf(),
        b.wf(),
    ensures
        final (tw_set).toks() == spec_apply_pushes(
            old(tw_set).toks(),
            spec_length_unit_emissions(*a, p1@) + spec_length_unit_emissions(*b, p2@),
        ),
        spec_tokens_only_change(*old(tw_set), *final (tw_set)),
{
    let ghost t0 = old(tw_set).toks();
    resolve_length_unit(a, tw_set, p1);
    resolve_length_unit(b, tw_set, p2);
    proof {
        lemma_apply_pushes_append(
            t0,
            spec_length_unit_emissions(*a, p1@),
            spec_length_unit_emissions(*b, p2@),
        );
    }
}

fn resolve_lpa_quad(
    a: &LpaVal,
    p1: &str,
    b: &LpaVal,
    p2: &str,
    c: &LpaVal,
    p3: &str,
    d: &LpaVal,
    p4: &str,
    tw_set: &mut TailwindTokenSet,
)
    requires
        a.wf(),
        b.wf(),
        c.wf(),
        d.wf(),
    ensures
        final (tw_set).toks() == spec_apply_pushes(
            old(tw_set).toks(),
            spec_length_unit_emissions(*a, p1@) + spec_length_unit_emissions(*b, p2@)
                + spec_length_unit_emissions(*c, p3@) + spec_length_unit_emissions(*d, p4@),
        ),
        spec_tokens_only_change(*old(tw_set), *final (tw_set)),
{
    let ghost t0 = old(tw_set).toks();
    resolve_lpa_two(a, p1, b, p2, tw_set);
    resolve_lpa_two(c, p3, d, p4, tw_set);
    proof {
        let e1 = spec_length_unit_emissions(*a, p1@);
        let e2 = spec_length_unit_emissions(*b, p2@);
        let e3 = spec_length_unit_emissions(*c, p3@);
        let e4 = spec_length_unit_emissions(*d, p4@);
        lemma_apply_pushes_append(t0, e1 + e2, e3 + e4);
        assert(e1 + e2 + e3 + e4 =~= (e1 + e2) + (e3 + e4));
    }
}

fn resolve_bw_two(
    a: &BorderWidthVal,
    p1: &str,
    b: &BorderWidthVal,
    p2: &str,
    tw_set: &mut TailwindTokenSet,
)
    requires
        a.wf(),
        b.wf(),
    ensures
        final (tw_set).toks() == spec_apply_pushes(
            old(tw_set).toks(),
            spec_border_side_width_emissions(*a, p1@) + spec_border_side_width_emissions(*b, p2@),
        ),
        spec_tokens_only_change(*old(tw_set), *final (tw_set)),
{
    let ghost t0 = old(tw_set).toks();
    resolve_border_side_width(a, tw_set, p1);
    resolve_border_side_width(b, tw_set, p2);
    proof {
        lemma_apply_pushes_append(
            t0,
            spec_border_side_width_emissions(*a, p1@),
            spec_border_side_width_emissions(*b, p2@),
        );
    }
}

fn resolve_bw_quad(
    t: &BorderWidthVal,
    b: &BorderWidthVal,
    l: &BorderWidthVal,
    r: &BorderWidthVal,
    tw_set: &mut TailwindTokenSet,
)
    requires
        t.wf(),
        b.wf(),
        l.wf(),
        r.wf(),
    ensures
        final (tw_set).toks() == spec_apply_pushes(
            old(tw_set).toks(),
            spec_border_side_width_emissions(*t, "b-t"@) + spec_border_side_width_emissions(
                *b,
                "b-b"@,
            ) + spec_border_side_width_emissions(*l, "b-l"@) + spec_border_side_width_emissions(
                *r,
                "b-r"@,
            ),
        ),
        spec_tokens_only_change(*old(tw_set), *final (tw_set)),
{
    let ghost t0 = old(tw_set).toks();
    resolve_bw_two(t, "b-t", b, "b-b", tw_set);
    resolve_bw_two(l, "b-l", r, "b-r", tw_set);
    proof {
        let e1 = spec_border_side_width_emissions(*t, "b-t"@);
        let e2 = spec_border_side_width_emissions(*b, "b-b"@);
        let e3 = spec_border_side_width_emissions(*l, "b-l"@);
        let e4 = spec_border_side_width_emissions(*r, "b-r"@);
        lemma_apply_pushes_append(t0, e1 + e2, e3 + e4);
        assert(e1 + e2 + e3 + e4 =~= (e1 + e2) + (e3 + e4));
    }
}

fn resolve_dim_two(
    a: &DimOrPct,
    p1: &str,
    b: &DimOrPct,
    p2: &str,
    tw_set: &mut TailwindTokenSet,
)
    requires
        a.wf(),
        b.wf(),
    ensures
        final (tw_set).toks() == spec_apply_pushes(
            old(tw_set).toks(),
            spec_dimension_emissions(*a, p1@) + spec_dimension_emissions(*b, p2@),
        ),
        spec_tokens_only_change(*old(tw_set), *final (tw_set)),
{
    let ghost t0 = old(tw_set).toks();
    resolve_dimension(a, tw_set, p1);
    resolve_dimension(b, tw_set, p2);
    proof {
        lemma_apply_pushes_append(
            t0,
            spec_dimension_emissions(*a, p1@),
            spec_dimension_emissions(*b, p2@),
        );
    }
}

fn resolve_radius_quad(
    tl: &DimOrPct,
    tr: &DimOrPct,
    bl: &DimOrPct,
    br: &DimOrPct,
    tw_set: &mut TailwindTokenSet,
)
    requires
        tl.wf(),
        tr.wf(),
        bl.wf(),
        br.wf(),
    ensures
        final (tw_set).toks() == spec_apply_pushes(
            old(tw_set).toks(),
            spec_dimension_emissions(*tl, "rounded-tl"@) + spec_dimension_emissions(
                *tr,
                "rounded-tr"@,
            ) + spec_dimension_emissions(*bl, "rounded-bl"@) + spec_dimension_emissions(
                *br,
                "rounded-br"@,
            ),
        ),
        spec_tokens_only_change(*old(tw_set), *final (tw_set)),
{
    let ghost t0 = old(tw_set).toks();
    resolve_dim_two(tl, "rounded-tl", tr, "rounded-tr", tw_set);
    resolve_dim_two(bl, "rounded-bl", br, "rounded-br", tw_set);
    proof {
        let e1 = spec_dimension_emissions(*tl, "rounded-tl"@);
        let e2 = spec_dimension_emissions(*tr, "rounded-tr"@);
        let e3 = spec_dimension_emissions(*bl, "rounded-bl"@);
        let e4 = spec_dimension_emissions(*br, "rounded-br"@);
        lemma_apply_pushes_append(t0, e1 + e2, e3 + e4);
        assert(e1 + e2 + e3 + e4 =~= (e1 + e2) + (e3 + e4));
    }
}

fn resolve_border_block_sh(
    c: &ColorVal,
    s: &String,
    w: &BorderWidthVal,
    tw_set: &mut TailwindTokenSet,
    reg: &Registry,
)
    requires
        w.wf(),
    ensures
        final (tw_set).toks() == spec_apply_pushes(
            old(tw_set).toks(),
            spec_border_csw_emissions(reg.colors@, "b-t"@, *c, s@, *w) + spec_border_csw_emissions(
                reg.colors@,
                "b-b"@,
                *c,
                s@,
                *w,
            ),
        ),
        spec_tokens_only_change(*old(tw_set), *final (tw_set)),
{
    let ghost t0 = old(tw_set).toks();
    resolve_border_csw("b-t", c, s, w, tw_set, reg);
    resolve_border_csw("b-b", c, s, w, tw_set, reg);
    proof {
        lemma_apply_pushes_append(
            t0,
            spec_border_csw_emissions(reg.colors@, "b-t"@, *c, s@, *w),
            spec_border_csw_emissions(reg.colors@, "b-b"@, *c, s@, *w),
        );
    }
}

fn resolve_border_inline_sh(
    s: &String,
    w: &BorderWidthVal,
    c: &ColorVal,
    tw_set: &mut TailwindTokenSet,
    reg: &Registry,
)
    requires
        w.wf(),
    ensures
        final (tw_set).toks() == spec_apply_pushes(
            old(tw_set).toks(),
            spec_border_swc_emissions(reg.colors@, "b-l"@, s@, *w, *c) + spec_border_swc_emissions(
                reg.colors@,
                "b-r"@,
                s@,
                *w,
                *c,
            ),
        ),
        spec_tokens_only_change(*old(tw_set), *final (tw_set)),
{
    let ghost t0 = old(tw_set).toks();
    resolve_border_swc("b-l", s, w, c, tw_set, reg);
    resolve_border_swc("b-r", s, w, c, tw_set, reg);
    proof {
        lemma_apply_pushes_append(
            t0,
            spec_border_swc_emissions(reg.colors@, "b-l"@, s@, *w, *c),
            spec_border_swc_emissions(reg.colors@, "b-r"@, s@, *w, *c),
        );
    }
}

fn resolve_outline_sh(
    c: &ColorVal,
    w: &BorderWidthVal,
    s: &String,
    tw_set: &mut TailwindTokenSet,
    reg: &Registry,
)
    requires
        w.wf(),
    ensures
        final (tw_set).toks() == spec_apply_pushes(
            old(tw_set).toks(),
            spec_color_emissions(reg.colors@, *c, "outline"@) + spec_border_side_width_emissions(
                *w,
                "outline"@,
            ) + spec_keyword_emissions("outline"@, s@),
        ),
        spec_tokens_only_change(*old(tw_set), *final (tw_set)),
{
    let ghost t0 = old(tw_set).toks();
    resolve_color(c, tw_set, "outline", reg);
    resolve_border_side_width(w, tw_set, "outline");
    resolve_keyword(s.as_str(), tw_set, "outline");
    proof {
        let e1 = spec_color_emissions(reg.colors@, *c, "outline"@);
        let e2 = spec_border_side_width_emissions(*w, "outline"@);
        let e3 = spec_keyword_emissions("outline"@, s@);
        lemma_apply_pushes_append(t0, e1, e2);
        lemma_apply_pushes_append(t0, e1 + e2, e3);
    }
}

fn resolve_flex_sh(b: &LpaVal, s: i64, g: i64, tw_set: &mut TailwindTokenSet)
    requires
        b.wf(),
        crate::values::units_ok(s as int),
        crate::values::units_ok(g as int),
    ensures
        final (tw_set).toks() == spec_apply_pushes(
            old(tw_set).toks(),
            spec_length_unit_emissions(*b, "basis"@) + seq![
                ("shrink"@, spec_fixed_str(s as int)),
                ("grow"@, spec_fixed_str(g as int)),
            ],
        ),
        spec_tokens_only_change(*old(tw_set), *final (tw_set)),
{
    let ghost t0 = old(tw_set).toks();
    resolve_length_unit(b, tw_set, "basis");
    push_fixed_token(s, tw_set, "shrink");
    push_fixed_token(g, tw_set, "grow");
    proof {
        let e1 = spec_length_unit_emissions(*b, "basis"@);
        let e2 = seq![("shrink"@, spec_fixed_str(s as int))];
        let e3 = seq![("grow"@, spec_fixed_str(g as int))];
        lemma_apply_pushes_append(t0, e1, e2);
        lemma_apply_pushes_append(t0, e1 + e2, e3);
        assert(e1 + (e2 + e3) =~= e1 + e2 + e3);
        assert(e2 + e3 =~= seq![
            ("shrink"@, spec_fixed_str(s as int)),
            ("grow"@, spec_fixed_str(g as int)),
        ]);
    }
}

fn resolve_grid_sh(
    areas: &String,
    auto_flow: &String,
    auto_cols: &Vec<TrackSizeVal>,
    auto_rows: &Vec<TrackSizeVal>,
    cols: &TrackSizingVal,
    rows: &TrackSizingVal,
    tw_set: &mut TailwindTokenSet,
)
    requires
        forall|i: int| 0 <= i < auto_cols@.len() ==> (#[trigger] auto_cols@[i]).wf(),
        forall|i: int| 0 <= i < auto_rows@.len() ==> (#[trigger] auto_rows@[i]).wf(),
    ensures
        final (tw_set).toks() == spec_apply_pushes(
            old(tw_set).toks(),
            spec_raw_exp_emissions("grid-areas"@, areas@) + spec_keyword_emissions(
                "grid-flow"@,
                auto_flow@,
            ) + spec_flatten(
                auto_cols@.map_values(
                    |t: TrackSizeVal| spec_track_size_emissions(t, "auto-cols"@),
                ),
            ) + spec_flatten(
                auto_rows@.map_values(
                    |t: TrackSizeVal| spec_track_size_emissions(t, "auto-rows"@),
                ),
            ) + spec_grid_sh_template_emissions("grid-cols"@, *cols)
                + spec_grid_sh_template_emissions("grid-rows"@, *rows),
        ),
        spec_tokens_only_change(*old(tw_set), *final (tw_set)),
{
    let ghost t0 = old(tw_set).toks();
    resolve_raw_exp(areas.as_str(), tw_set, "grid-areas");
    resolve_keyword(auto_flow.as_str(), tw_set, "grid-flow");
    push_track_list(auto_cols, tw_set, "auto-cols");
    push_track_list(auto_rows, tw_set, "auto-rows");
    resolve_grid_sh_template(cols, tw_set, "grid-cols");
    resolve_grid_sh_template(rows, tw_set, "grid-rows");
    proof {
        let e1 = spec_raw_exp_emissions("grid-areas"@, areas@);
        let e2 = spec_keyword_emissions("grid-flow"@, auto_flow@);
        let e3 = spec_flatten(
            auto_cols@.map_values(|t: TrackSizeVal| spec_track_size_emissions(t, "auto-cols"@)),
        );
        let e4 = spec_flatten(
            auto_rows@.map_values(|t: TrackSizeVal| spec_track_size_emissions(t, "auto-rows"@)),
        );
        let e5 = spec_grid_sh_template_emissions("grid-cols"@, *cols);
        let e6 = spec_grid_sh_template_emissions("grid-rows"@, *rows);
        lemma_apply_pushes_append(t0, e1, e2);
        lemma_apply_pushes_append(t0, e1 + e2, e3);
        lemma_apply_pushes_append(t0, e1 + e2 + e3, e4);
        lemma_apply_pushes_append(t0, e1 + e2 + e3 + e4, e5);
        lemma_apply_pushes_append(t0, e1 + e2 + e3 + e4 + e5, e6);
    }
}

/// One parsed style declaration, mirroring the subset of CSS properties the
/// A box-model declaration: sizing, offsets, spacing, flex numbers, radii.
#[derive(Clone, Debug)]
pub enum BoxDecl {
    Size(SizeProp, SizeVal),
    MaxSize(MaxSizeProp, MaxSizeVal),
    Lpa(LpaProp, LpaVal),
    LpaPair(LpaPairProp, LpaVal, LpaVal),
    LpaQuad(LpaQuadProp, LpaVal, LpaVal, LpaVal, LpaVal),
    FlexShorthand(LpaVal, i64, i64),
    Number(NumberProp, i64),
    Order(i32),
    StrokeWidth(DimOrPct),
    Radius(RadiusProp, DimOrPct),
    RadiusQuad(DimOrPct, DimOrPct, DimOrPct, DimOrPct),
    Overflow(String, String),
}

impl BoxDecl {
    pub open spec fn wf(&self) -> bool {
        match self {
            BoxDecl::Size(_, v) => v.wf(),
            BoxDecl::MaxSize(_, v) => v.wf(),
            BoxDecl::Lpa(_, v) => v.wf(),
            BoxDecl::LpaPair(_, a, b) => a.wf() && b.wf(),
            BoxDecl::LpaQuad(_, a, b, c, d) => a.wf() && b.wf() && c.wf() && d.wf(),
            BoxDecl::FlexShorthand(b, s, g) => b.wf() && crate::values::units_ok(*s as int)
                && crate::values::units_ok(*g as int),
            BoxDecl::Number(_, u) => crate::values::units_ok(*u as int),
            BoxDecl::Order(_) => true,
            BoxDecl::StrokeWidth(v) => v.wf(),
            BoxDecl::Radius(_, v) => v.wf(),
            BoxDecl::RadiusQuad(a, b, c, d) => a.wf() && b.wf() && c.wf() && d.wf(),
            BoxDecl::Overflow(_, _) => true,
        }
    }
}

/// The pushes one box-model declaration makes.
pub open spec fn spec_box_emissions(d: BoxDecl) -> Seq<(Seq<char>, Seq<char>)> {
    match d {
        BoxDecl::Size(p, v) => spec_length_size_emissions(v, spec_size_prop_prefix(p)),
        BoxDecl::MaxSize(p, v) => spec_length_max_size_emissions(v, spec_max_size_prop_prefix(p)),
        BoxDecl::Lpa(p, v) => spec_length_unit_emissions(v, spec_lpa_prop_prefix(p)),
        BoxDecl::LpaPair(p, a, b) => spec_length_unit_emissions(a, spec_lpa_pair_prefixes(p).0)
            + spec_length_unit_emissions(b, spec_lpa_pair_prefixes(p).1),
        BoxDecl::LpaQuad(p, a, b, c, d) => spec_length_unit_emissions(
            a,
            spec_lpa_quad_prefixes(p).0,
        ) + spec_length_unit_emissions(b, spec_lpa_quad_prefixes(p).1)
            + spec_length_unit_emissions(c, spec_lpa_quad_prefixes(p).2)
            + spec_length_unit_emissions(d, spec_lpa_quad_prefixes(p).3),
        BoxDecl::FlexShorthand(b, s, g) => spec_length_unit_emissions(b, "basis"@) + seq![
            ("shrink"@, spec_fixed_str(s as int)),
            ("grow"@, spec_fixed_str(g as int)),
        ],
        BoxDecl::Number(p, u) => seq![(spec_number_prop_prefix(p), spec_fixed_str(u as int))],
        BoxDecl::Order(v) => seq![("order"@, spec_dec_int(v as int))],
        BoxDecl::StrokeWidth(v) => spec_dimension_emissions(v, "stroke"@),
        BoxDecl::Radius(p, v) => spec_dimension_emissions(v, spec_radius_prop_prefix(p)),
        BoxDecl::RadiusQuad(tl, tr, bl, br) => spec_dimension_emissions(tl, "rounded-tl"@)
            + spec_dimension_emissions(tr, "rounded-tr"@) + spec_dimension_emissions(
            bl,
            "rounded-bl"@,
        ) + spec_dimension_emissions(br, "rounded-br"@),
        BoxDecl::Overflow(x, y) => spec_keyword_emissions("overflow-x"@, x@)
            + spec_keyword_emissions("overflow-y"@, y@),
    }
}

fn resolve_box_decl(d: &BoxDecl, tw_set: &mut TailwindTokenSet)
    requires
        d.wf(),
    ensures
        final (tw_set).toks() == spec_apply_pushes(old(tw_set).toks(), spec_box_emissions(*d)),
        spec_tokens_only_change(*old(tw_set), *final (tw_set)),
{
    let ghost t0 = old(tw_set).toks();
    match d {
        BoxDecl::Size(p, v) => {
            resolve_length_size(v, tw_set, size_prop_prefix(p));
        },
        BoxDecl::MaxSize(p, v) => {
            resolve_length_max_size(v, tw_set, max_size_prop_prefix(p));
        },
        BoxDecl::Lpa(p, v) => {
            resolve_length_unit(v, tw_set, lpa_prop_prefix(p));
        },
        BoxDecl::LpaPair(p, a, b) => {
            let (p1, p2) = lpa_pair_prefixes(p);
            resolve_lpa_two(a, p1, b, p2, tw_set);
        },
        BoxDecl::LpaQuad(p, a, b, c, dd) => {
            let (p1, p2, p3, p4) = lpa_quad_prefixes(p);
            resolve_lpa_quad(a, p1, b, p2, c, p3, dd, p4, tw_set);
        },
        BoxDecl::FlexShorthand(b, s, g) => {
            resolve_flex_sh(b, *s, *g, tw_set);
        },
        BoxDecl::Number(p, u) => {
            push_fixed_token(*u, tw_set, number_prop_prefix(p));
        },
        BoxDecl::Order(v) => {
            let s = i64_to_dec_string(*v as i64);
            tw_set.push_tailwind_token("order", s.as_str());
            proof {
                lemma_apply_pushes_one(t0, "order"@, s@);
            }
        },
        BoxDecl::StrokeWidth(v) => {
            resolve_dimension(v, tw_set, "stroke");
        },
        BoxDecl::Radius(p, v) => {
            resolve_dimension(v, tw_set, radius_prop_prefix(p));
        },
        BoxDecl::RadiusQuad(tl, tr, bl, br) => {
            resolve_radius_quad(tl, tr, bl, br, tw_set);
        },
        BoxDecl::Overflow(x, y) => {
            resolve_keyword_two(x.as_str(), "overflow-x", y.as_str(), "overflow-y", tw_set);
        },
    }
}

/// A border or outline declaration.
#[derive(Clone, Debug)]
pub enum BorderDecl {
    Width(BorderWidthProp, BorderWidthVal),
    WidthPair(AxisPairProp, BorderWidthVal, BorderWidthVal),
    WidthQuad(BorderWidthVal, BorderWidthVal, BorderWidthVal, BorderWidthVal),
    StylePair(AxisPairProp, String, String),
    StyleQuad(String, String, String, String),
    Shorthand(BorderSideProp, String, BorderWidthVal, ColorVal),
    LogicalShorthand(BorderLogicalProp, ColorVal, String, BorderWidthVal),
    BlockShorthand(ColorVal, String, BorderWidthVal),
    InlineShorthand(String, BorderWidthVal, ColorVal),
    OutlineShorthand(ColorVal, BorderWidthVal, String),
}

impl BorderDecl {
    pub open spec fn wf(&self) -> bool {
        match self {
            BorderDecl::Width(_, v) => v.wf(),
            BorderDecl::WidthPair(_, a, b) => a.wf() && b.wf(),
            BorderDecl::WidthQuad(a, b, c, d) => a.wf() && b.wf() && c.wf() && d.wf(),
            BorderDecl::StylePair(_, _, _) => true,
            BorderDecl::StyleQuad(_, _, _, _) => true,
            BorderDecl::Shorthand(_, _, w, _) => w.wf(),
            BorderDecl::LogicalShorthand(_, _, _, w) => w.wf(),
            BorderDecl::BlockShorthand(_, _, w) => w.wf(),
            BorderDecl::InlineShorthand(_, w, _) => w.wf(),
            BorderDecl::OutlineShorthand(_, w, _) => w.wf(),
        }
    }
}

/// The pushes one border declaration makes, over the color table.
pub open spec fn spec_border_emissions(
    tbl: Seq<crate::registry::ColorToken>,
    d: BorderDecl,
) -> Seq<(Seq<char>, Seq<char>)> {
    match d {
        BorderDecl::Width(p, v) => spec_border_side_width_emissions(v, spec_bw_prop_prefix(p)),
        BorderDecl::WidthPair(p, a, b) => spec_border_side_width_emissions(
            a,
            spec_axis_pair_prefixes(p).0,
        ) + spec_border_side_width_emissions(b, spec_axis_pair_prefixes(p).1),
        BorderDecl::WidthQuad(t, b, l, r) => spec_border_side_width_emissions(t, "b-t"@)
            + spec_border_side_width_emissions(b, "b-b"@) + spec_border_side_width_emissions(
            l,
            "b-l"@,
        ) + spec_border_side_width_emissions(r, "b-r"@),
        BorderDecl::StylePair(p, a, b) => spec_keyword_emissions(spec_axis_pair_prefixes(p).0, a@)
            + spec_keyword_emissions(spec_axis_pair_prefixes(p).1, b@),
        BorderDecl::StyleQuad(t, b, l, r) => spec_keyword_emissions("b-t"@, t@)
            + spec_keyword_emissions("b-b"@, b@) + spec_keyword_emissions("b-l"@, l@)
            + spec_keyword_emissions("b-r"@, r@),
        BorderDecl::Shorthand(p, s, w, c) => spec_border_swc_emissions(
            tbl,
            spec_border_side_prefix(p),
            s@,
            w,
            c,
        ),
        BorderDecl::LogicalShorthand(p, c, s, w) => spec_border_csw_emissions(
            tbl,
            spec_border_logical_prefix(p),
            c,
            s@,
            w,
        ),
        BorderDecl::BlockShorthand(c, s, w) => spec_border_csw_emissions(tbl, "b-t"@, c, s@, w)
            + spec_border_csw_emissions(tbl, "b-b"@, c, s@, w),
        BorderDecl::InlineShorthand(s, w, c) => spec_border_swc_emissions(tbl, "b-l"@, s@, w, c)
            + spec_border_swc_emissions(tbl, "b-r"@, s@, w, c),
        BorderDecl::OutlineShorthand(c, w, s) => spec_color_emissions(tbl, c, "outline"@)
            + spec_border_side_width_emissions(w, "outline"@) + spec_keyword_emissions(
            "outline"@,
            s@,
        ),
    }
}

fn resolve_border_decl(d: &BorderDecl, tw_set: &mut TailwindTokenSet, reg: &Registry)
    requires
        d.wf(),
    ensures
        final (tw_set).toks() == spec_apply_pushes(
            old(tw_set).toks(),
            spec_border_emissions(reg.colors@, *d),
        ),
        spec_tokens_only_change(*old(tw_set), *final (tw_set)),
{
    match d {
        BorderDecl::Width(p, v) => {
            resolve_border_side_width(v, tw_set, bw_prop_prefix(p));
        },
        BorderDecl::WidthPair(p, a, b) => {
            let (p1, p2) = axis_pair_prefixes(p);
            resolve_bw_two(a, p1, b, p2, tw_set);
        },
        BorderDecl::WidthQuad(t, b, l, r) => {
            resolve_bw_quad(t, b, l, r, tw_set);
        },
        BorderDecl::StylePair(p, a, b) => {
            let (p1, p2) = axis_pair_prefixes(p);
            resolve_keyword_two(a.as_str(), p1, b.as_str(), p2, tw_set);
        },
        BorderDecl::StyleQuad(t, b, l, r) => {
            resolve_keyword_quad(t.as_str(), b.as_str(), l.as_str(), r.as_str(), tw_set);
        },
        BorderDecl::Shorthand(p, s, w, c) => {
            resolve_border_swc(border_side_prefix(p), s, w, c, tw_set, reg);
        },
        BorderDecl::LogicalShorthand(p, c, s, w) => {
            resolve_border_csw(border_logical_prefix(p), c, s, w, tw_set, reg);
        },
        BorderDecl::BlockShorthand(c, s, w) => {
            resolve_border_block_sh(c, s, w, tw_set, reg);
        },
        BorderDecl::InlineShorthand(s, w, c) => {
            resolve_border_inline_sh(s, w, c, tw_set, reg);
        },
        BorderDecl::OutlineShorthand(c, w, s) => {
            resolve_outline_sh(c, w, s, tw_set, reg);
        },
    }
}

/// A paint declaration: colors, SVG paints, filters, background keyword
/// lists.
#[derive(Clone, Debug)]
pub enum PaintDecl {
    Color(ColorProp, ColorVal),
    ColorPair(AxisPairProp, ColorVal, ColorVal),
    BorderColorQuad(ColorVal, ColorVal, ColorVal, ColorVal),
    BackgroundList(Vec<ColorVal>),
    SvgPaint(SvgPaintProp, SvgPaintVal),
    Filter(FilterProp, FilterListVal),
    KeywordList(KeywordListProp, Vec<String>),
}

impl PaintDecl {
    pub open spec fn wf(&self) -> bool {
        match self {
            PaintDecl::Filter(_, v) => v.wf(),
            _ => true,
        }
    }
}

/// The pushes one paint declaration makes, over the color table.
pub open spec fn spec_paint_emissions(
    tbl: Seq<crate::registry::ColorToken>,
    d: PaintDecl,
) -> Seq<(Seq<char>, Seq<char>)> {
    match d {
        PaintDecl::Color(p, c) => spec_color_emissions(tbl, c, spec_color_prop_prefix(p)),
        PaintDecl::ColorPair(p, c1, c2) => spec_color_emissions(
            tbl,
            c1,
            spec_axis_pair_prefixes(p).0,
        ) + spec_color_emissions(tbl, c2, spec_axis_pair_prefixes(p).1),
        PaintDecl::BorderColorQuad(t, b, l, r) => spec_color_emissions(tbl, t, "b-t"@)
            + spec_color_emissions(tbl, b, "b-b"@) + spec_color_emissions(tbl, l, "b-l"@)
            + spec_color_emissions(tbl, r, "b-r"@),
        PaintDecl::BackgroundList(cs) => spec_flatten(
            cs@.map_values(|c: ColorVal| spec_color_emissions(tbl, c, "bg"@)),
        ),
        PaintDecl::SvgPaint(p, v) => spec_svg_paint_emissions(tbl, p, v),
        PaintDecl::Filter(p, v) => spec_filter_list_emissions(p, v),
        PaintDecl::KeywordList(_, items) => spec_flatten(
            items.deep_view().map_values(|c: Seq<char>| spec_keyword_emissions("bg"@, c)),
        ),
    }
}

fn resolve_paint_decl(d: &PaintDecl, tw_set: &mut TailwindTokenSet, reg: &Registry)
    requires
        d.wf(),
    ensures
        final (tw_set).toks() == spec_apply_pushes(
            old(tw_set).toks(),
            spec_paint_emissions(reg.colors@, *d),
        ),
        spec_tokens_only_change(*old(tw_set), *final (tw_set)),
{
    match d {
        PaintDecl::Color(p, c) => {
            resolve_color(c, tw_set, color_prop_prefix(p), reg);
        },
        PaintDecl::ColorPair(p, c1, c2) => {
            let (p1, p2) = axis_pair_prefixes(p);
            resolve_color_two(c1, p1, c2, p2, tw_set, reg);
        },
        PaintDecl::BorderColorQuad(t, b, l, r) => {
            resolve_color_quad(t, b, l, r, tw_set, reg);
        },
        PaintDecl::BackgroundList(cs) => {
            push_color_list(cs, tw_set, "bg", reg);
        },
        PaintDecl::SvgPaint(p, v) => {
            resolve_svg_paint(p, v, tw_set, reg);
        },
        PaintDecl::Filter(p, v) => {
            resolve_filter_list(p, v, tw_set);
        },
        PaintDecl::KeywordList(_, items) => {
            push_keyword_list(items, tw_set, "bg");
        },
    }
}

/// A typography or plain keyword declaration.
#[derive(Clone, Debug)]
pub enum TextDecl {
    Keyword(KeywordProp, String),
    Display(DisplayVal),
    Visibility(VisibilityVal),
    FontWeight(FontWeightVal),
    FontSize(FontSizeVal),
    FontStyle(FontStyleVal),
    LineHeight(LineHeightVal),
}

impl TextDecl {
    pub open spec fn wf(&self) -> bool {
        match self {
            TextDecl::FontWeight(v) => v.wf(),
            TextDecl::FontSize(v) => v.wf(),
            TextDecl::LineHeight(v) => v.wf(),
            _ => true,
        }
    }
}

/// The pushes one typography or keyword declaration makes, over the
/// typography table.
pub open spec fn spec_text_emissions(
    tbl: Seq<crate::registry::TypographyToken>,
    d: TextDecl,
) -> Seq<(Seq<char>, Seq<char>)> {
    match d {
        TextDecl::Keyword(p, css) => spec_keyword_emissions(spec_keyword_prop_prefix(p), css@),
        TextDecl::Display(v) => match v {
            DisplayVal::Hidden => seq![(""@, "hidden"@)],
            DisplayVal::Keyword(css) => spec_keyword_emissions(""@, css@),
        },
        TextDecl::Visibility(v) => match v {
            VisibilityVal::Invisible => seq![(""@, "invisible"@)],
            VisibilityVal::Keyword(css) => spec_keyword_emissions(""@, css@),
        },
        TextDecl::FontWeight(v) => spec_font_weight_emissions(v),
        TextDecl::FontSize(v) => spec_font_size_emissions(tbl, v),
        TextDecl::FontStyle(v) => match v {
            FontStyleVal::Normal => Seq::<(Seq<char>, Seq<char>)>::empty(),
            FontStyleVal::Other(css) => spec_keyword_emissions("font"@, css@),
        },
        TextDecl::LineHeight(v) => spec_line_height_emissions(v, "leading"@),
    }
}

fn resolve_text_decl(d: &TextDecl, tw_set: &mut TailwindTokenSet, reg: &Registry)
    requires
        d.wf(),
        reg.wf(),
    ensures
        final (tw_set).toks() == spec_apply_pushes(
            old(tw_set).toks(),
            spec_text_emissions(reg.typography@, *d),
        ),
        spec_tokens_only_change(*old(tw_set), *final (tw_set)),
{
    let ghost t0 = old(tw_set).toks();
    match d {
        TextDecl::Keyword(p, css) => {
            resolve_keyword(css.as_str(), tw_set, keyword_prop_prefix(p));
        },
        TextDecl::Display(v) => {
            match v {
                DisplayVal::Hidden => {
                    tw_set.push_tailwind_token("", "hidden");
                    proof {
                        lemma_apply_pushes_one(t0, ""@, "hidden"@);
                    }
                },
                DisplayVal::Keyword(css) => {
                    resolve_keyword(css.as_str(), tw_set, "");
                },
            }
        },
        TextDecl::Visibility(v) => {
            match v {
                VisibilityVal::Invisible => {
                    tw_set.push_tailwind_token("", "invisible");
                    proof {
                        lemma_apply_pushes_one(t0, ""@, "invisible"@);
                    }
                },
                VisibilityVal::Keyword(css) => {
                    resolve_keyword(css.as_str(), tw_set, "");
                },
            }
        },
        TextDecl::FontWeight(v) => {
            resolve_font_weight(v, tw_set);
        },
        TextDecl::FontSize(v) => {
            resolve_font_set(v, tw_set, reg);
        },
        TextDecl::FontStyle(v) => {
            match v {
                FontStyleVal::Normal => {},
                FontStyleVal::Other(css) => {
                    resolve_keyword(css.as_str(), tw_set, "font");
                },
            }
        },
        TextDecl::LineHeight(v) => {
            resolve_line_height_set(v, tw_set, "leading");
        },
    }
}

/// A grid declaration.
#[derive(Clone, Debug)]
pub enum GridDecl {
    Template(GridTemplateProp, TrackSizingVal),
    AutoTracks(GridAutoProp, Vec<TrackSizeVal>),
    TemplateAreas(String),
    Shorthand {
        areas: String,
        auto_flow: String,
        auto_cols: Vec<TrackSizeVal>,
        auto_rows: Vec<TrackSizeVal>,
        cols: TrackSizingVal,
        rows: TrackSizingVal,
    },
    Line(GridLineProp, GridLineVal),
    Pair(GridPairProp, GridLineVal, GridLineVal),
    Area(String),
}

impl GridDecl {
    pub open spec fn wf(&self) -> bool {
        match self {
            GridDecl::AutoTracks(_, ts) => forall|i: int|
                0 <= i < ts@.len() ==> (#[trigger] ts@[i]).wf(),
            GridDecl::Shorthand { auto_cols, auto_rows, .. } => (forall|i: int|
                0 <= i < auto_cols@.len() ==> (#[trigger] auto_cols@[i]).wf()) && (forall|i: int|
                0 <= i < auto_rows@.len() ==> (#[trigger] auto_rows@[i]).wf()),
            _ => true,
        }
    }
}

/// The pushes one grid declaration makes.
pub open spec fn spec_grid_emissions(d: GridDecl) -> Seq<(Seq<char>, Seq<char>)> {
    match d {
        GridDecl::Template(p, v) => match v {
            TrackSizingVal::NoneKw(css) => spec_keyword_emissions(
                spec_grid_template_prefix(p),
                css@,
            ),
            TrackSizingVal::TrackList(raw) => spec_raw_exp_emissions(
                spec_grid_template_prefix(p),
                raw@,
            ),
        },
        GridDecl::AutoTracks(p, ts) => spec_flatten(
            ts@.map_values(
                |t: TrackSizeVal| spec_track_size_emissions(t, spec_grid_auto_prefix(p)),
            ),
        ),
        GridDecl::TemplateAreas(raw) => spec_raw_exp_emissions("grid-areas"@, raw@),
        GridDecl::Shorthand { areas, auto_flow, auto_cols, auto_rows, cols, rows } => {
            spec_raw_exp_emissions("grid-areas"@, areas@) + spec_keyword_emissions(
                "grid-flow"@,
                auto_flow@,
            ) + spec_flatten(
                auto_cols@.map_values(
                    |t: TrackSizeVal| spec_track_size_emissions(t, "auto-cols"@),
                ),
            ) + spec_flatten(
                auto_rows@.map_values(
                    |t: TrackSizeVal| spec_track_size_emissions(t, "auto-rows"@),
                ),
            ) + spec_grid_sh_template_emissions("grid-cols"@, cols)
                + spec_grid_sh_template_emissions("grid-rows"@, rows)
        },
        GridDecl::Line(p, v) => spec_grid_line_emissions(p, v),
        GridDecl::Pair(p, s, e) => spec_grid_pair_emissions(p, s, e),
        GridDecl::Area(raw) => spec_raw_exp_emissions("area-"@, raw@),
    }
}

fn resolve_grid_decl(d: &GridDecl, tw_set: &mut TailwindTokenSet)
    requires
        d.wf(),
    ensures
        final (tw_set).toks() == spec_apply_pushes(old(tw_set).toks(), spec_grid_emissions(*d)),
        spec_tokens_only_change(*old(tw_set), *final (tw_set)),
{
    match d {
        GridDecl::Template(p, v) => {
            match v {
                TrackSizingVal::NoneKw(css) => {
                    resolve_keyword(css.as_str(), tw_set, grid_template_prefix(p));
                },
                TrackSizingVal::TrackList(raw) => {
                    resolve_raw_exp(raw.as_str(), tw_set, grid_template_prefix(p));
                },
            }
        },
        GridDecl::AutoTracks(p, ts) => {
            push_track_list(ts, tw_set, grid_auto_prefix(p));
        },
        GridDecl::TemplateAreas(raw) => {
            resolve_raw_exp(raw.as_str(), tw_set, "grid-areas");
        },
        GridDecl::Shorthand { areas, auto_flow, auto_cols, auto_rows, cols, rows } => {
            resolve_grid_sh(areas, auto_flow, auto_cols, auto_rows, cols, rows, tw_set);
        },
        GridDecl::Line(p, v) => {
            resolve_grid_line(p, v, tw_set);
        },
        GridDecl::Pair(p, s, e) => {
            resolve_grid_pair(p, s, e, tw_set);
        },
        GridDecl::Area(raw) => {
            resolve_raw_exp(raw.as_str(), tw_set, "area-");
        },
    }
}

/// A motion declaration: transitions, easing, transforms.
#[derive(Clone, Debug)]
pub enum MotionDecl {
    TransitionProperty(Vec<String>),
    TimeList(TimeListProp, Vec<TimeVal>),
    EasingList(Vec<EasingVal>),
    Transition(Vec<TransitionItemVal>),
    Transform(Vec<TransformVal>),
    TransformOrigin(String),
    RotateKeywords(String, String, String),
    ScaleKeywords(String, String, String),
}

impl MotionDecl {
    pub open spec fn wf(&self) -> bool {
        match self {
            MotionDecl::TimeList(_, ts) => forall|i: int|
                0 <= i < ts@.len() ==> (#[trigger] ts@[i]).wf(),
            MotionDecl::EasingList(es) => forall|i: int|
                0 <= i < es@.len() ==> (#[trigger] es@[i]).wf(),
            MotionDecl::Transition(ts) => forall|i: int|
                0 <= i < ts@.len() ==> (#[trigger] ts@[i]).wf(),
            MotionDecl::Transform(ts) => forall|i: int|
                0 <= i < ts@.len() ==> (#[trigger] ts@[i]).wf(),
            _ => true,
        }
    }
}

/// The pushes one motion declaration makes.
pub open spec fn spec_motion_emissions(d: MotionDecl) -> Seq<(Seq<char>, Seq<char>)> {
    match d {
        MotionDecl::TransitionProperty(names) => spec_flatten(
            names.deep_view().map_values(|n: Seq<char>| spec_transition_name_emissions(n)),
        ),
        MotionDecl::TimeList(p, ts) => spec_flatten(
            ts@.map_values(|t: TimeVal| spec_time_emissions(t, spec_time_list_prefix(p))),
        ),
        MotionDecl::EasingList(es) => spec_flatten(
            es@.map_values(|e: EasingVal| spec_easing_emissions(e)),
        ),
        MotionDecl::Transition(ts) => spec_flatten(
            ts@.map_values(|it: TransitionItemVal| spec_transition_item_emissions(it)),
        ),
        MotionDecl::Transform(ts) => spec_flatten(
            ts@.map_values(|t: TransformVal| spec_transform_item_emissions(t)),
        ),
        MotionDecl::TransformOrigin(raw) => seq![("origin"@, spec_space_to_dash(raw@))],
        MotionDecl::RotateKeywords(x, y, z) => spec_keyword_emissions("rotate-x"@, x@)
            + spec_keyword_emissions("rotate-y"@, y@) + spec_keyword_emissions("rotate-z"@, z@),
        MotionDecl::ScaleKeywords(x, y, z) => spec_keyword_emissions("scale-x"@, x@)
            + spec_keyword_emissions("scale-y"@, y@) + spec_keyword_emissions("scale-z"@, z@),
    }
}

fn resolve_motion_decl(d: &MotionDecl, tw_set: &mut TailwindTokenSet)
    requires
        d.wf(),
    ensures
        final (tw_set).toks() == spec_apply_pushes(old(tw_set).toks(), spec_motion_emissions(*d)),
        spec_tokens_only_change(*old(tw_set), *final (tw_set)),
{
    let ghost t0 = old(tw_set).toks();
    match d {
        MotionDecl::TransitionProperty(names) => {
            push_transition_property_list(names, tw_set);
        },
        MotionDecl::TimeList(p, ts) => {
            push_time_list(ts, tw_set, time_list_prefix(p));
        },
        MotionDecl::EasingList(es) => {
            push_easing_list(es, tw_set);
        },
        MotionDecl::Transition(ts) => {
            push_transition_list(ts, tw_set);
        },
        MotionDecl::Transform(ts) => {
            push_transform_list(ts, tw_set);
        },
        MotionDecl::TransformOrigin(raw) => {
            let v = space_to_dash(raw.as_str());
            tw_set.push_tailwind_token("origin", v.as_str());
            proof {
                lemma_apply_pushes_one(t0, "origin"@, v@);
            }
        },
        MotionDecl::RotateKeywords(x, y, z) => {
            resolve_keyword_three(
                x.as_str(),
                "rotate-x",
                y.as_str(),
                "rotate-y",
                z.as_str(),
                "rotate-z",
                tw_set,
            );
        },
        MotionDecl::ScaleKeywords(x, y, z) => {
            resolve_keyword_three(
                x.as_str(),
                "scale-x",
                y.as_str(),
                "scale-y",
                z.as_str(),
                "scale-z",
                tw_set,
            );
        },
    }
}

/// One parsed style declaration, mirroring the subset of CSS properties the
/// engine handles; kinds outside the subset are `Unsupported`.
#[derive(Clone, Debug)]
pub enum Declaration {
    BoxModel(BoxDecl),
    Border(BorderDecl),
    Paint(PaintDecl),
    Text(TextDecl),
    Grid(GridDecl),
    Motion(MotionDecl),
    Unsupported,
}

impl Declaration {
    /// Every scalar payload is within the fixed-point bounds.
    pub open spec fn wf(&self) -> bool {
        match self {
            Declaration::BoxModel(d) => d.wf(),
            Declaration::Border(d) => d.wf(),
            Declaration::Paint(d) => d.wf(),
            Declaration::Text(d) => d.wf(),
            Declaration::Grid(d) => d.wf(),
            Declaration::Motion(d) => d.wf(),
            Declaration::Unsupported => true,
        }
    }
}

/// The pushes one declaration makes, over the preset registry's tables: the
/// total dispatch from declaration kind to emission list. An `Unsupported`
/// kind emits nothing.
pub open spec fn spec_decl_emissions(reg: Registry, d: Declaration) -> Seq<(Seq<char>, Seq<char>)> {
    match d {
        Declaration::BoxModel(d) => spec_box_emissions(d),
        Declaration::Border(d) => spec_border_emissions(reg.colors@, d),
        Declaration::Paint(d) => spec_paint_emissions(reg.colors@, d),
        Declaration::Text(d) => spec_text_emissions(reg.typography@, d),
        Declaration::Grid(d) => spec_grid_emissions(d),
        Declaration::Motion(d) => spec_motion_emissions(d),
        Declaration::Unsupported => Seq::<(Seq<char>, Seq<char>)>::empty(),
    }
}

/// Resolves one declaration: routes its kind to the matching quantizer,
/// matcher, keyword pass-through or composite resolver, and pushes the
/// resulting tokens. Unsupported kinds change nothing.
pub fn resolve_declaration(d: &Declaration, tw_set: &mut TailwindTokenSet, reg: &Registry)
    requires
        d.wf(),
        reg.wf(),
    ensures
        final (tw_set).toks() == spec_apply_pushes(
            old(tw_set).toks(),
            spec_decl_emissions(*reg, *d),
        ),
        spec_tokens_only_change(*old(tw_set), *final (tw_set)),
{
    match d {
        Declaration::BoxModel(dd) => resolve_box_decl(dd, tw_set),
        Declaration::Border(dd) => resolve_border_decl(dd, tw_set, reg),
        Declaration::Paint(dd) => resolve_paint_decl(dd, tw_set, reg),
        Declaration::Text(dd) => resolve_text_decl(dd, tw_set, reg),
        Declaration::Grid(dd) => resolve_grid_decl(dd, tw_set),
        Declaration::Motion(dd) => resolve_motion_decl(dd, tw_set),
        Declaration::Unsupported => {},
    }
}

/// The pushes a whole declaration list makes, in order.
pub open spec fn spec_style_emissions(reg: Registry, decls: Seq<Declaration>) -> Seq<
    (Seq<char>, Seq<char>),
> {
    spec_flatten(decls.map_values(|d: Declaration| spec_decl_emissions(reg, d)))
}

/// Resolves every declaration of one style rule into the token set, in
/// declaration order. Unmapped declaration kinds are silently dropped and
/// leave everything else in the set unchanged.
pub fn resolve_style(decls: &Vec<Declaration>, tw_set: &mut TailwindTokenSet, reg: &Registry)
    requires
        forall|i: int| 0 <= i < decls@.len() ==> (#[trigger] decls@[i]).wf(),
        reg.wf(),
    ensures
        final (tw_set).toks() == spec_apply_pushes(
            old(tw_set).toks(),
            spec_style_emissions(*reg, decls@),
        ),
        spec_tokens_only_change(*old(tw_set), *final (tw_set)),
{
    let ghost t0 = old(tw_set).toks();
    let ghost m = decls@.map_values(|dd: Declaration| spec_decl_emissions(*reg, dd));
    let n = decls.len();
    let mut i: usize = 0;
    proof {
        assert(spec_flatten(m.take(0)) =~= Seq::<(Seq<char>, Seq<char>)>::empty());
    }
    while i < n
        invariant
            n == decls@.len(),
            i <= n,
            forall|k: int| 0 <= k < decls@.len() ==> (#[trigger] decls@[k]).wf(),
            reg.wf(),
            m == decls@.map_values(|dd: Declaration| spec_decl_emissions(*reg, dd)),
            m.len() == n,
            tw_set.toks() == spec_apply_pushes(t0, spec_flatten(m.take(i as int))),
            spec_tokens_only_change(*old(tw_set), *tw_set),
        decreases n - i,
    {
        let item = &decls[i];
        resolve_declaration(item, tw_set, reg);
        proof {
            assert(m.take(i + 1).drop_last() =~= m.take(i as int));
            assert(m.take(i + 1).last() == m[i as int]);
            lemma_apply_pushes_append(t0, spec_flatten(m.take(i as int)), m[i as int]);
        }
        i += 1;
    }
    proof {
        assert(m.take(n as int) =~= m);
    }
}

} // verus!
