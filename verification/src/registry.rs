//! The preset registry: the color, typography and breakpoint tables, and the
//! tolerance searches over them. The tables are loaded once by the caller
//! and read-only afterwards.

use vstd::prelude::*;
use crate::numeric::{SCALE, MAX_UNITS, spec_round_ratio, round_ratio, spec_pow10};
use crate::values::Dim;
use crate::text::{
    spec_lower_seq,
    spec_contains_em,
    str_eq_ignore_ascii_case,
    contains_em,
    spec_is_digit,
};

verus! {

/// One color preset: a name and the RGB channels its literal resolved to.
#[derive(Clone, Debug)]
pub struct ColorToken {
    pub token_name: String,
    pub token_value: String,
    pub color_set_red: u8,
    pub color_set_green: u8,
    pub color_set_blue: u8,
}

impl ColorToken {
    /// The preset's token name.
    pub fn get_token(&self) -> (r: String)
        ensures
            r@ == self.token_name@,
    {
        self.token_name.clone()
    }
}

/// One typography preset: a name, the raw font-size and line-height
/// literals, and the font-size dimension when the literal was one.
#[derive(Clone, Debug)]
pub struct TypographyToken {
    pub token_name: String,
    pub font_size: String,
    pub line_height: String,
    pub font_size_dim: Option<Dim>,
}

impl TypographyToken {
    pub open spec fn wf(&self) -> bool {
        match self.font_size_dim {
            Some(d) => d.wf(),
            None => true,
        }
    }
}

/// One breakpoint preset: a name and its optional min/max width bounds;
/// the searches compare each bound by its rem-equivalent.
#[derive(Clone, Debug)]
pub struct MediaToken {
    pub token_name: String,
    pub min_width_string: String,
    pub max_width_string: String,
    pub min_width: Option<Dim>,
    pub max_width: Option<Dim>,
}

impl MediaToken {
    pub open spec fn wf(&self) -> bool {
        &&& match self.min_width {
            Some(d) => d.wf(),
            None => true,
        }
        &&& match self.max_width {
            Some(d) => d.wf(),
            None => true,
        }
    }
}

/// The three preset tables.
#[derive(Clone, Debug)]
pub struct Registry {
    pub colors: Vec<ColorToken>,
    pub typography: Vec<TypographyToken>,
    pub media: Vec<MediaToken>,
}

impl Registry {
    pub open spec fn wf(&self) -> bool {
        &&& forall|i: int| 0 <= i < self.typography@.len() ==> (#[trigger] self.typography@[i]).wf()
        &&& forall|i: int| 0 <= i < self.media@.len() ==> (#[trigger] self.media@[i]).wf()
    }

    /// An empty registry.
    pub fn new() -> (r: Registry)
        ensures
            r.wf(),
            r.colors@.len() == 0,
            r.typography@.len() == 0,
            r.media@.len() == 0,
    {
        Registry { colors: Vec::new(), typography: Vec::new(), media: Vec::new() }
    }
}

/// The +-2 tolerance window around a preset channel value `a`: a channel of
/// exactly 1 opens its lower bound to 0, a channel of 254 its upper bound to
/// 255, so a window never leaves the 0..255 range.
pub open spec fn spec_channel_window(a: int, v: int) -> bool {
    let lo = if a == 1 {
        0
    } else if a != 0 {
        a - 2
    } else {
        a
    };
    let hi = if a == 254 {
        255
    } else if a != 255 {
        a + 2
    } else {
        a
    };
    lo <= v && v <= hi
}

/// Whether `income_val` falls in the tolerance window around `a_range`.
pub fn in_range(a_range: u8, income_val: u8) -> (r: bool)
    ensures
        r == spec_channel_window(a_range as int, income_val as int),
{
    let lower_val: u8 = if a_range == 1 {
        0
    } else if a_range != 0 {
        a_range - 2
    } else {
        a_range
    };
    let upper_val: u8 = if a_range == 254 {
        255
    } else if a_range != 255 {
        a_range + 2
    } else {
        a_range
    };
    income_val >= lower_val && income_val <= upper_val
}

/// A color entry matches when the query equals its channels exactly or
/// every channel lies in its tolerance window.
pub open spec fn spec_color_entry_matches(e: ColorToken, r: int, g: int, b: int) -> bool {
    (e.color_set_red == r && e.color_set_blue == b && e.color_set_green == g)
        || (spec_channel_window(e.color_set_red as int, r) && spec_channel_window(
        e.color_set_blue as int,
        b,
    ) && spec_channel_window(e.color_set_green as int, g))
}

/// The names of the color entries matching `(r, g, b)`, in table order.
pub open spec fn spec_color_candidates(tbl: Seq<ColorToken>, r: int, g: int, b: int) -> Seq<
    Seq<char>,
>
    decreases tbl.len(),
{
    if tbl.len() == 0 {
        Seq::<Seq<char>>::empty()
    } else {
        spec_color_candidates(tbl.drop_last(), r, g, b) + if spec_color_entry_matches(
            tbl.last(),
            r,
            g,
            b,
        ) {
            seq![tbl.last().token_name@]
        } else {
            Seq::<Seq<char>>::empty()
        }
    }
}

/// Some color entry carries exactly the channels `(r, g, b)`.
pub open spec fn spec_has_exact_color(tbl: Seq<ColorToken>, r: int, g: int, b: int) -> bool {
    exists|i: int|
        0 <= i < tbl.len() && (#[trigger] tbl[i]).color_set_red == r && tbl[i].color_set_green == g
            && tbl[i].color_set_blue == b
}

/// Collects the names of every color preset that matches `(red, green,
/// blue)` exactly or within the tolerance window, in table order.
pub fn search_color(reg: &Registry, red: u8, green: u8, blue: u8) -> (out: Vec<String>)
    ensures
        out.deep_view() == spec_color_candidates(
            reg.colors@,
            red as int,
            green as int,
            blue as int,
        ),
{
    let mut out: Vec<String> = Vec::new();
    let n = reg.colors.len();
    let mut i: usize = 0;
    while i < n
        invariant
            n == reg.colors@.len(),
            i <= n,
            out.deep_view() =~= spec_color_candidates(
                reg.colors@.take(i as int),
                red as int,
                green as int,
                blue as int,
            ),
        decreases n - i,
    {
        let e = &reg.colors[i];
        let ghost out0 = out.deep_view();
        if (e.color_set_red == red && e.color_set_blue == blue && e.color_set_green == green) || (
        in_range(e.color_set_red, red) && in_range(e.color_set_blue, blue) && in_range(
            e.color_set_green,
            green,
        )) {
            out.push(e.token_name.clone());
        }
        proof {
            assert(reg.colors@.take(i + 1).drop_last() =~= reg.colors@.take(i as int));
            assert(reg.colors@.take(i + 1).last() == reg.colors@[i as int]);
            assert(out.deep_view() =~= spec_color_candidates(
                reg.colors@.take(i + 1),
                red as int,
                green as int,
                blue as int,
            ));
        }
        i += 1;
    }
    proof {
        assert(reg.colors@.take(n as int) =~= reg.colors@);
    }
    out
}

/// Whether some color preset carries exactly the channels `(red, green, blue)`.
pub fn has_exact_color(reg: &Registry, red: u8, green: u8, blue: u8) -> (r: bool)
    ensures
        r == spec_has_exact_color(reg.colors@, red as int, green as int, blue as int),
{
    let n = reg.colors.len();
    let mut i: usize = 0;
    while i < n
        invariant
            n == reg.colors@.len(),
            i <= n,
            forall|k: int|
                0 <= k < i ==> !((#[trigger] reg.colors@[k]).color_set_red == red
                    && reg.colors@[k].color_set_green == green && reg.colors@[k].color_set_blue
                    == blue),
        decreases n - i,
    {
        let e = &reg.colors[i];
        if e.color_set_red == red && e.color_set_green == green && e.color_set_blue == blue {
            return true;
        }
        i += 1;
    }
    false
}

/// The +-2 tolerance window for breakpoint widths (fixed-point): a bound of
/// exactly 1 opens its lower edge to 0; the upper edge is always `a + 2`.
pub open spec fn spec_media_window(a: int, v: int) -> bool {
    let lo = if a == SCALE {
        0
    } else if a != 0 {
        a - 2 * (SCALE as int)
    } else {
        a
    };
    let hi = a + 2 * (SCALE as int);
    lo <= v && v <= hi
}

/// Whether `v` falls in the tolerance window around the bound `a` (both in
/// fixed-point units).
pub fn in_media_window(a: i64, v: i64) -> (r: bool)
    requires
        -MAX_UNITS <= a <= MAX_UNITS,
    ensures
        r == spec_media_window(a as int, v as int),
{
    let lo: i64 = if a == SCALE {
        0
    } else if a != 0 {
        a - 2 * SCALE
    } else {
        a
    };
    let hi: i64 = a + 2 * SCALE;
    lo <= v && v <= hi
}


/// The rem-equivalent (fixed-point) of a preset dimension: an `em`-like
/// unit passes through, a pixel value divides by 16 and rounds to a whole
/// rem, anything else counts as zero.
pub open spec fn spec_rem_equiv_units(d: Dim) -> int {
    if spec_contains_em(d.unit@) {
        d.units as int
    } else {
        match d.px_units {
            Some(p) => (SCALE as int) * spec_round_ratio(p as int, 16 * (SCALE as int)),
            None => 0,
        }
    }
}

/// Computes a dimension's rem-equivalent in fixed-point units.
pub fn rem_equiv_units(d: &Dim) -> (r: i64)
    requires
        d.wf(),
    ensures
        r as int == spec_rem_equiv_units(*d),
        -MAX_UNITS <= r <= MAX_UNITS,
{
    if contains_em(d.unit.as_str()) {
        d.units
    } else {
        match &d.px_units {
            Some(p) => {
                let k = round_ratio(*p, 16 * SCALE);
                proof {
                    crate::numeric::lemma_round_ratio_bound(
                        *p as int,
                        16 * (SCALE as int),
                        62_500_000,
                    );
                }
                SCALE * k
            },
            None => 0,
        }
    }
}

/// How one breakpoint entry answers a plain `min-width`/`max-width` query.
pub open spec fn spec_plain_media_matches(e: MediaToken, name_low: Seq<char>, v: int) -> bool {
    if name_low == "min-width"@ {
        match e.min_width {
            Some(d) => spec_media_window(spec_rem_equiv_units(d), v),
            None => false,
        }
    } else if name_low == "max-width"@ {
        match e.max_width {
            Some(d) => spec_media_window(spec_rem_equiv_units(d), v),
            None => false,
        }
    } else {
        false
    }
}

/// The names of breakpoint entries whose named bound's rem-equivalent lies
/// in the tolerance window around `v`, in table order.
pub open spec fn spec_plain_media_candidates(
    tbl: Seq<MediaToken>,
    name_low: Seq<char>,
    v: int,
) -> Seq<Seq<char>>
    decreases tbl.len(),
{
    if tbl.len() == 0 {
        Seq::<Seq<char>>::empty()
    } else {
        spec_plain_media_candidates(tbl.drop_last(), name_low, v) + if spec_plain_media_matches(
            tbl.last(),
            name_low,
            v,
        ) {
            seq![tbl.last().token_name@]
        } else {
            Seq::<Seq<char>>::empty()
        }
    }
}

/// Collects the names of every breakpoint preset whose bound named by
/// `name` (`min-width` or `max-width`, ASCII case-insensitive) lies, as a
/// rem-equivalent, within the tolerance window around `value` (fixed-point
/// rem).
pub fn search_media(reg: &Registry, name: &str, value: i64) -> (out: Vec<String>)
    requires
        reg.wf(),
    ensures
        out.deep_view() == spec_plain_media_candidates(
            reg.media@,
            spec_lower_seq(name@),
            value as int,
        ),
{
    let is_min = str_eq_ignore_ascii_case(name, "min-width");
    let is_max = str_eq_ignore_ascii_case(name, "max-width");
    proof {
        reveal_strlit("min-width");
        reveal_strlit("max-width");
        assert(spec_lower_seq("min-width"@) =~= "min-width"@);
        assert(spec_lower_seq("max-width"@) =~= "max-width"@);
    }
    let mut out: Vec<String> = Vec::new();
    let n = reg.media.len();
    let mut i: usize = 0;
    while i < n
        invariant
            reg.wf(),
            n == reg.media@.len(),
            i <= n,
            is_min == (spec_lower_seq(name@) == "min-width"@),
            is_max == (spec_lower_seq(name@) == "max-width"@),
            out.deep_view() =~= spec_plain_media_candidates(
                reg.media@.take(i as int),
                spec_lower_seq(name@),
                value as int,
            ),
        decreases n - i,
    {
        let e = &reg.media[i];
        proof {
            assert(reg.media@[i as int].wf());
        }
        let mut hit = false;
        if is_min {
            if let Some(w) = &e.min_width {
                hit = in_media_window(rem_equiv_units(w), value);
            }
        } else if is_max {
            if let Some(w) = &e.max_width {
                hit = in_media_window(rem_equiv_units(w), value);
            }
        }
        proof {
            assert(hit == spec_plain_media_matches(
                reg.media@[i as int],
                spec_lower_seq(name@),
                value as int,
            ));
        }
        if hit {
            out.push(e.token_name.clone());
        }
        proof {
            assert(reg.media@.take(i + 1).drop_last() =~= reg.media@.take(i as int));
            assert(reg.media@.take(i + 1).last() == reg.media@[i as int]);
            assert(out.deep_view() =~= spec_plain_media_candidates(
                reg.media@.take(i + 1),
                spec_lower_seq(name@),
                value as int,
            ));
        }
        i += 1;
    }
    proof {
        assert(reg.media@.take(n as int) =~= reg.media@);
    }
    out
}

/// How one breakpoint entry answers a range query: its min bound in the
/// window, or failing that its max bound.
pub open spec fn spec_range_media_matches(e: MediaToken, v: int) -> bool {
    (match e.min_width {
        Some(d) => spec_media_window(spec_rem_equiv_units(d), v),
        None => false,
    }) || (match e.max_width {
        Some(d) => spec_media_window(spec_rem_equiv_units(d), v),
        None => false,
    })
}

/// The names of breakpoint entries either of whose bounds' rem-equivalents
/// lies in the tolerance window around `v`, in table order.
pub open spec fn spec_range_media_candidates(tbl: Seq<MediaToken>, v: int) -> Seq<Seq<char>>
    decreases tbl.len(),
{
    if tbl.len() == 0 {
        Seq::<Seq<char>>::empty()
    } else {
        spec_range_media_candidates(tbl.drop_last(), v) + if spec_range_media_matches(
            tbl.last(),
            v,
        ) {
            seq![tbl.last().token_name@]
        } else {
            Seq::<Seq<char>>::empty()
        }
    }
}

/// Collects the names of every breakpoint preset either of whose bounds
/// lies, as a rem-equivalent, within the tolerance window around `value`
/// (fixed-point rem); used by range-form media features, which carry no
/// bound name.
pub fn search_media_range(reg: &Registry, value: i64) -> (out: Vec<String>)
    requires
        reg.wf(),
    ensures
        out.deep_view() == spec_range_media_candidates(reg.media@, value as int),
{
    let mut out: Vec<String> = Vec::new();
    let n = reg.media.len();
    let mut i: usize = 0;
    while i < n
        invariant
            reg.wf(),
            n == reg.media@.len(),
            i <= n,
            out.deep_view() =~= spec_range_media_candidates(
                reg.media@.take(i as int),
                value as int,
            ),
        decreases n - i,
    {
        let e = &reg.media[i];
        proof {
            assert(reg.media@[i as int].wf());
        }
        let mut hit = false;
        if let Some(w) = &e.min_width {
            hit = in_media_window(rem_equiv_units(w), value);
        }
        if !hit {
            if let Some(w) = &e.max_width {
                hit = in_media_window(rem_equiv_units(w), value);
            }
        }
        if hit {
            out.push(e.token_name.clone());
        }
        proof {
            assert(reg.media@.take(i + 1).drop_last() =~= reg.media@.take(i as int));
            assert(reg.media@.take(i + 1).last() == reg.media@[i as int]);
            assert(out.deep_view() =~= spec_range_media_candidates(
                reg.media@.take(i + 1),
                value as int,
            ));
        }
        i += 1;
    }
    proof {
        assert(reg.media@.take(n as int) =~= reg.media@);
    }
    out
}

/// One typography entry matches when its font-size rem-equivalent equals
/// the query exactly (no tolerance).
pub open spec fn spec_font_entry_matches(e: TypographyToken, q: int) -> bool {
    match e.font_size_dim {
        Some(d) => spec_rem_equiv_units(d) == q,
        None => false,
    }
}

/// The names of typography entries whose rem-equivalent equals `q`, in
/// table order.
pub open spec fn spec_font_candidates(tbl: Seq<TypographyToken>, q: int) -> Seq<Seq<char>>
    decreases tbl.len(),
{
    if tbl.len() == 0 {
        Seq::<Seq<char>>::empty()
    } else {
        spec_font_candidates(tbl.drop_last(), q) + if spec_font_entry_matches(tbl.last(), q) {
            seq![tbl.last().token_name@]
        } else {
            Seq::<Seq<char>>::empty()
        }
    }
}

/// Collects the names of every typography preset whose font-size
/// rem-equivalent equals `income_value` (fixed-point rem) exactly.
pub fn search_font(reg: &Registry, income_value: i64) -> (out: Vec<String>)
    requires
        reg.wf(),
    ensures
        out.deep_view() == spec_font_candidates(reg.typography@, income_value as int),
{
    let mut out: Vec<String> = Vec::new();
    let n = reg.typography.len();
    let mut i: usize = 0;
    while i < n
        invariant
            reg.wf(),
            n == reg.typography@.len(),
            i <= n,
            out.deep_view() =~= spec_font_candidates(
                reg.typography@.take(i as int),
                income_value as int,
            ),
        decreases n - i,
    {
        let e = &reg.typography[i];
        let mut hit = false;
        if let Some(d) = &e.font_size_dim {
            let rem = rem_equiv_units(d);
            hit = rem == income_value;
        }
        if hit {
            out.push(e.token_name.clone());
        }
        proof {
            assert(reg.typography@.take(i + 1).drop_last() =~= reg.typography@.take(i as int));
            assert(reg.typography@.take(i + 1).last() == reg.typography@[i as int]);
            assert(out.deep_view() =~= spec_font_candidates(
                reg.typography@.take(i + 1),
                income_value as int,
            ));
        }
        i += 1;
    }
    proof {
        assert(reg.typography@.take(n as int) =~= reg.typography@);
    }
    out
}


/// An ASCII letter.
pub open spec fn spec_is_ascii_letter(c: char) -> bool {
    ('a' <= c && c <= 'z') || ('A' <= c && c <= 'Z')
}

fn is_ascii_letter(c: char) -> (r: bool)
    ensures
        r == spec_is_ascii_letter(c),
{
    ('a' <= c && c <= 'z') || ('A' <= c && c <= 'Z')
}

/// Start of the maximal trailing run of ASCII letters: the unit name of a
/// width literal.
pub open spec fn spec_unit_start(s: Seq<char>) -> int
    decreases s.len(),
{
    if s.len() == 0 {
        0
    } else if spec_is_ascii_letter(s.last()) {
        spec_unit_start(s.drop_last())
    } else {
        s.len() as int
    }
}

pub proof fn lemma_unit_start(s: Seq<char>)
    ensures
        0 <= spec_unit_start(s) <= s.len(),
        forall|k: int| spec_unit_start(s) <= k < s.len() ==> spec_is_ascii_letter(#[trigger] s[k]),
        spec_unit_start(s) > 0 ==> !spec_is_ascii_letter(s[spec_unit_start(s) - 1]),
    decreases s.len(),
{
    if s.len() > 0 && spec_is_ascii_letter(s.last()) {
        lemma_unit_start(s.drop_last());
        assert forall|k: int| 0 <= k < s.len() - 1 implies s.drop_last()[k] == s[k] by {}
    }
}

/// Start of the maximal run of digits and dots ending at `end`: the number
/// part of a width literal.
pub open spec fn spec_num_start(s: Seq<char>, end: int) -> int
    recommends
        0 <= end <= s.len(),
    decreases end,
{
    if end <= 0 {
        0
    } else if spec_is_digit(s[end - 1]) || s[end - 1] == '.' {
        spec_num_start(s, end - 1)
    } else {
        end
    }
}

pub proof fn lemma_num_start(s: Seq<char>, end: int)
    requires
        0 <= end <= s.len(),
    ensures
        0 <= spec_num_start(s, end) <= end,
        forall|k: int|
            spec_num_start(s, end) <= k < end ==> (spec_is_digit(#[trigger] s[k]) || s[k] == '.'),
        spec_num_start(s, end) > 0 ==> !(spec_is_digit(s[spec_num_start(s, end) - 1]) || s[
            spec_num_start(s, end) - 1] == '.'),
    decreases end,
{
    if end > 0 && (spec_is_digit(s[end - 1]) || s[end - 1] == '.') {
        lemma_num_start(s, end - 1);
    }
}

/// The value of a digit character.
pub open spec fn spec_digit_val(c: char) -> int {
    c as int - 48
}

/// All characters are decimal digits.
pub open spec fn spec_all_digits(s: Seq<char>) -> bool {
    forall|k: int| 0 <= k < s.len() ==> spec_is_digit(#[trigger] s[k])
}

/// The integer a digit string denotes.
pub open spec fn spec_digits_int(s: Seq<char>) -> int
    decreases s.len(),
{
    if s.len() == 0 {
        0
    } else {
        10 * spec_digits_int(s.drop_last()) + spec_digit_val(s.last())
    }
}

pub proof fn lemma_digits_int_bound(s: Seq<char>)
    requires
        spec_all_digits(s),
    ensures
        0 <= spec_digits_int(s) < spec_pow10(s.len()),
    decreases s.len(),
{
    reveal_with_fuel(spec_pow10, 2);
    if s.len() > 0 {
        assert(spec_all_digits(s.drop_last())) by {
            assert forall|k: int| 0 <= k < s.len() - 1 implies spec_is_digit(
                #[trigger] s.drop_last()[k],
            ) by {
                assert(s.drop_last()[k] == s[k]);
            }
        }
        lemma_digits_int_bound(s.drop_last());
        assert(spec_pow10(s.len()) == 10 * spec_pow10((s.len() - 1) as nat));
        assert(spec_is_digit(s.last()));
        assert(0 <= spec_digit_val(s.last()) <= 9);
    }
}

/// Index of the first `.` in `s`, or `-1`.
pub open spec fn spec_dot_index(s: Seq<char>) -> int
    decreases s.len(),
{
    if s.len() == 0 {
        -1
    } else if s[0] == '.' {
        0
    } else {
        let r = spec_dot_index(s.drop_first());
        if r == -1 {
            -1
        } else {
            r + 1
        }
    }
}

pub proof fn lemma_dot_index(s: Seq<char>)
    ensures
        spec_dot_index(s) == -1 ==> forall|k: int| 0 <= k < s.len() ==> #[trigger] s[k] != '.',
        spec_dot_index(s) != -1 ==> {
            let i = spec_dot_index(s);
            &&& 0 <= i < s.len()
            &&& s[i] == '.'
            &&& forall|k: int| 0 <= k < i ==> #[trigger] s[k] != '.'
        },
    decreases s.len(),
{
    if s.len() > 0 && s[0] != '.' {
        lemma_dot_index(s.drop_first());
        assert forall|k: int| 1 <= k < s.len() implies s.drop_first()[k - 1] == s[k] by {}
    }
}

/// The fixed-point value a number literal denotes: a plain digit string, or
/// digits around one dot, the fraction truncated to six places. `None` for
/// an empty, over-long or otherwise malformed number.
pub open spec fn spec_parse_fixed(s: Seq<char>) -> Option<int> {
    if s.len() == 0 {
        Option::None
    } else {
        let di = spec_dot_index(s);
        if di == -1 {
            if spec_all_digits(s) && s.len() <= 9 {
                Option::Some(spec_digits_int(s) * (SCALE as int))
            } else {
                Option::None
            }
        } else {
            let ip = s.subrange(0, di);
            let fp = s.subrange(di + 1, s.len() as int);
            if spec_all_digits(ip) && spec_all_digits(fp) && ip.len() <= 9 && ip.len() + fp.len()
                >= 1 {
                let f6 = if fp.len() <= 6 {
                    fp
                } else {
                    fp.take(6)
                };
                Option::Some(
                    spec_digits_int(ip) * (SCALE as int) + spec_digits_int(f6) * (spec_pow10(
                        (6 - f6.len()) as nat,
                    ) as int),
                )
            } else {
                Option::None
            }
        }
    }
}

fn digits_int(s: &str, from: usize, to: usize) -> (r: Option<i64>)
    requires
        from <= to <= s@.len(),
        s@.len() <= usize::MAX,
    ensures
        match r {
            Some(v) => spec_all_digits(s@.subrange(from as int, to as int)) && to - from <= 9 && v
                == spec_digits_int(s@.subrange(from as int, to as int)) && 0 <= v < 1_000_000_000,
            None => !(spec_all_digits(s@.subrange(from as int, to as int)) && to - from <= 9),
        },
{
    if to - from > 9 {
        return Option::None;
    }
    let ghost piece = s@.subrange(from as int, to as int);
    let mut acc: i64 = 0;
    let mut i: usize = from;
    proof {
        assert(piece.take(0) =~= Seq::<char>::empty());
        reveal_with_fuel(spec_pow10, 11);
    }
    while i < to
        invariant
            from <= i <= to <= s@.len(),
            s@.len() <= usize::MAX,
            to - from <= 9,
            piece == s@.subrange(from as int, to as int),
            spec_all_digits(piece.take(i - from)),
            acc == spec_digits_int(piece.take(i - from)),
            0 <= acc < spec_pow10((i - from) as nat),
            spec_pow10((i - from) as nat) <= 1_000_000_000,
        decreases to - i,
    {
        let c = s.get_char(i);
        if !('0' <= c && c <= '9') {
            proof {
                assert(piece[i - from] == c);
                assert(!spec_is_digit(piece[i - from]));
            }
            return Option::None;
        }
        proof {
            reveal_with_fuel(spec_pow10, 11);
            assert(piece.take(i - from + 1).drop_last() =~= piece.take(i - from));
            assert(piece.take(i - from + 1).last() == piece[i - from]);
            assert(spec_pow10((i - from + 1) as nat) == 10 * spec_pow10((i - from) as nat));
        }
        acc = acc * 10 + ((c as u8) - 48) as i64;
        i += 1;
    }
    proof {
        assert(piece.take(to - from) =~= piece);
        reveal_with_fuel(spec_pow10, 11);
    }
    Option::Some(acc)
}

fn pow10_exec(w: u64) -> (r: i64)
    requires
        w <= 6,
    ensures
        r == spec_pow10(w as nat),
        1 <= r <= 1_000_000,
{
    proof {
        reveal_with_fuel(spec_pow10, 8);
    }
    match w {
        0 => 1,
        1 => 10,
        2 => 100,
        3 => 1_000,
        4 => 10_000,
        5 => 100_000,
        _ => 1_000_000,
    }
}

fn parse_fixed(s: &str, from: usize, to: usize) -> (r: Option<i64>)
    requires
        from <= to <= s@.len(),
        s@.len() <= usize::MAX,
    ensures
        match r {
            Some(v) => spec_parse_fixed(s@.subrange(from as int, to as int)) == Option::Some(
                v as int,
            ) && 0 <= v <= MAX_UNITS,
            None => spec_parse_fixed(s@.subrange(from as int, to as int)) is None,
        },
{
    let ghost piece = s@.subrange(from as int, to as int);
    if to == from {
        return Option::None;
    }
    // find the first dot
    let mut dot: Option<usize> = None;
    let mut k: usize = from;
    while k < to
        invariant
            from <= k <= to <= s@.len(),
            s@.len() <= usize::MAX,
            piece == s@.subrange(from as int, to as int),
            match dot {
                None => forall|q: int| 0 <= q < k - from ==> #[trigger] piece[q] != '.',
                Some(dd) => from <= dd && (dd as int) < k as int && piece[dd - from] == '.' && (
                forall|q: int| 0 <= q < dd - from ==> #[trigger] piece[q] != '.'),
            },
        decreases to - k,
    {
        if dot.is_none() && s.get_char(k) == '.' {
            dot = Some(k);
        }
        k += 1;
    }
    proof {
        lemma_dot_index(piece);
        match dot {
            Some(dd) => {
                let di = spec_dot_index(piece);
                if di == -1 {
                    assert(piece[dd - from] != '.');
                } else if di < dd - from {
                    assert(piece[di] != '.');
                } else if di > dd - from {
                    assert(piece[dd - from] != '.');
                }
                assert(spec_dot_index(piece) == dd - from);
            },
            None => {
                if spec_dot_index(piece) != -1 {
                    let di = spec_dot_index(piece);
                    assert(piece[di] != '.');
                }
                assert(spec_dot_index(piece) == -1);
            },
        }
    }
    match dot {
        None => {
            match digits_int(s, from, to) {
                Some(v) => {
                    proof {
                        assert(piece =~= s@.subrange(from as int, to as int));
                    }
                    Option::Some(v * SCALE)
                },
                None => {
                    proof {
                        assert(!(spec_all_digits(piece) && piece.len() <= 9));
                        assert(spec_parse_fixed(piece) is None);
                    }
                    Option::None
                },
            }
        },
        Some(dd) => {
            let ghost ip = piece.subrange(0, dd - from);
            let ghost fp = piece.subrange(dd - from + 1, piece.len() as int);
            let iv = match digits_int(s, from, dd) {
                Some(v) => v,
                None => {
                    proof {
                        assert(s@.subrange(from as int, dd as int) =~= ip);
                        assert(!(spec_all_digits(ip) && ip.len() <= 9));
                        assert(spec_parse_fixed(piece) is None);
                    }
                    return Option::None;
                },
            };
            proof {
                assert(s@.subrange(from as int, dd as int) =~= ip);
            }
            // the fraction: all digits, the first six carry value
            let flen = to - (dd + 1);
            if dd == from && flen == 0 {
                proof {
                    assert(ip.len() + fp.len() == 0);
                    assert(spec_parse_fixed(piece) is None);
                }
                return Option::None;
            }
            let fkeep: usize = if flen <= 6 {
                flen
            } else {
                6
            };
            let ghost f6 = if fp.len() <= 6 {
                fp
            } else {
                fp.take(6)
            };
            // check every fraction digit
            let mut j: usize = dd + 1;
            while j < to
                invariant
                    from <= dd && (dd as int) < to as int,
                    dd + 1 <= j <= to <= s@.len(),
                    s@.len() <= usize::MAX,
                    piece == s@.subrange(from as int, to as int),
                    fp == piece.subrange(dd - from + 1, piece.len() as int),
                    spec_dot_index(piece) == dd - from,
                    forall|q: int| 0 <= q < j - dd - 1 ==> spec_is_digit(#[trigger] fp[q]),
                decreases to - j,
            {
                let c = s.get_char(j);
                if !('0' <= c && c <= '9') {
                    proof {
                        assert(fp[j - dd - 1] == c);
                        assert(!spec_is_digit(fp[j - dd - 1]));
                        assert(!spec_all_digits(fp));
                        assert(spec_parse_fixed(piece) is None);
                    }
                    return Option::None;
                }
                j += 1;
            }
            proof {
                assert(spec_all_digits(fp));
            }
            let fv = match digits_int(s, dd + 1, dd + 1 + fkeep) {
                Some(v) => v,
                None => {
                    proof {
                        assert(s@.subrange(dd + 1 as int, dd + 1 + fkeep as int) =~= f6);
                        assert(spec_all_digits(f6)) by {
                            assert forall|q: int| 0 <= q < f6.len() implies spec_is_digit(
                                #[trigger] f6[q],
                            ) by {
                                assert(f6[q] == fp[q]);
                            }
                        }
                        assert(f6.len() <= 9);
                        assert(false);
                    }
                    return Option::None;
                },
            };
            proof {
                assert(s@.subrange(dd + 1 as int, dd + 1 + fkeep as int) =~= f6);
            }
            let mult = pow10_exec((6 - fkeep) as u64);
            proof {
                assert(f6.len() == fkeep as nat);
                lemma_digits_int_bound(f6);
                reveal_with_fuel(spec_pow10, 11);
                assert(spec_pow10(f6.len()) * spec_pow10((6 - f6.len()) as nat) == spec_pow10(6))
                    by {
                    lemma_pow10_add(f6.len(), (6 - f6.len()) as nat);
                }
                assert(spec_digits_int(f6) * (spec_pow10((6 - f6.len()) as nat) as int)
                    < 1_000_000) by (nonlinear_arith)
                    requires
                        0 <= spec_digits_int(f6) < spec_pow10(f6.len()),
                        spec_pow10(f6.len()) * spec_pow10((6 - f6.len()) as nat) == spec_pow10(6),
                        spec_pow10(6) == 1_000_000,
                        spec_pow10((6 - f6.len()) as nat) >= 1,
                ;
                assert(fv * mult == spec_digits_int(f6) * (spec_pow10((6 - f6.len()) as nat) as int));
                assert(ip.len() + fp.len() >= 1);
                assert(spec_parse_fixed(piece) == Option::Some(
                    spec_digits_int(ip) * (SCALE as int) + spec_digits_int(f6) * (spec_pow10(
                        (6 - f6.len()) as nat,
                    ) as int),
                ));
            }
            Option::Some(iv * SCALE + fv * mult)
        },
    }
}

/// Ten to a sum of exponents is the product.
pub proof fn lemma_pow10_add(a: nat, b: nat)
    ensures
        spec_pow10(a + b) == spec_pow10(a) * spec_pow10(b),
    decreases a,
{
    if a == 0 {
        assert(spec_pow10(0) == 1) by {
            reveal_with_fuel(spec_pow10, 1);
        }
    } else {
        lemma_pow10_add((a - 1) as nat, b);
        assert(spec_pow10(a) == 10 * spec_pow10((a - 1) as nat));
        assert(spec_pow10(a + b) == 10 * spec_pow10((a - 1 + b) as nat));
        assert(10 * (spec_pow10((a - 1) as nat) * spec_pow10(b)) == (10 * spec_pow10(
            (a - 1) as nat,
        )) * spec_pow10(b)) by (nonlinear_arith);
    }
}

/// What a width literal parses to: the magnitude in fixed-point units and
/// whether the unit was `px` (`rem` and `em` pass through, any other unit
/// degrades to a zero rem bound as the loader always has).
pub open spec fn spec_width_parse(s: Seq<char>) -> Option<(int, bool)> {
    let us = spec_unit_start(s);
    if us == s.len() || us == 0 {
        Option::None
    } else {
        let ns = spec_num_start(s, us);
        if ns == us {
            Option::None
        } else {
            match spec_parse_fixed(s.subrange(ns, us)) {
                Option::None => Option::None,
                Option::Some(v) => {
                    let unit_low = spec_lower_seq(s.subrange(us, s.len() as int));
                    if unit_low == "rem"@ || unit_low == "em"@ {
                        Option::Some((v, false))
                    } else if unit_low == "px"@ {
                        Option::Some((v, true))
                    } else {
                        Option::Some((0, false))
                    }
                },
            }
        }
    }
}

/// Parses a preset width literal (`48rem`, `768px`) into a dimension: the
/// trailing letters are the unit, the digits-and-dot run before them the
/// magnitude. `None` when either part is missing or malformed.
pub fn parse_width_literal(s: &str) -> (r: Option<Dim>)
    ensures
        match r {
            Some(d) => {
                &&& d.wf()
                &&& match spec_width_parse(s@) {
                    Option::Some((v, is_px)) => {
                        &&& d.units == v
                        &&& if is_px {
                            d.px_units == Option::Some(d.units) && d.unit@ == "px"@
                        } else {
                            d.px_units is None && d.unit@ == "rem"@
                        }
                    },
                    Option::None => false,
                }
            },
            None => spec_width_parse(s@) is None,
        },
{
    let len = s.unicode_len();
    // the unit: maximal trailing run of letters, found by tracking the
    // last non-letter position
    let mut us: usize = 0;
    let mut k: usize = 0;
    while k < len
        invariant
            len == s@.len(),
            us <= k <= len,
            forall|q: int| us <= q < k ==> spec_is_ascii_letter(#[trigger] s@[q]),
            us > 0 ==> us - 1 < k && !spec_is_ascii_letter(s@[us - 1]),
        decreases len - k,
    {
        if !is_ascii_letter(s.get_char(k)) {
            us = k + 1;
        }
        k += 1;
    }
    proof {
        assert(spec_unit_start(s@) == us as int) by {
            lemma_unit_start(s@);
            let j = spec_unit_start(s@);
            if j < us as int {
                assert(spec_is_ascii_letter(s@[us - 1]));
            } else if j > us as int {
                assert(spec_is_ascii_letter(s@[j - 1]));
            }
        }
    }
    if us == len || us == 0 {
        return Option::None;
    }
    // the number: maximal run of digits and dots before the unit
    let mut ns: usize = 0;
    let mut k2: usize = 0;
    while k2 < us
        invariant
            len == s@.len(),
            us <= len,
            ns <= k2 <= us,
            forall|q: int| ns <= q < k2 ==> (spec_is_digit(#[trigger] s@[q]) || s@[q] == '.'),
            ns > 0 ==> ns - 1 < k2 && !(spec_is_digit(s@[ns - 1]) || s@[ns - 1] == '.'),
        decreases us - k2,
    {
        let c = s.get_char(k2);
        if !(('0' <= c && c <= '9') || c == '.') {
            ns = k2 + 1;
        }
        k2 += 1;
    }
    proof {
        assert(spec_num_start(s@, us as int) == ns as int) by {
            lemma_num_start(s@, us as int);
            let j = spec_num_start(s@, us as int);
            if j < ns as int {
                assert(spec_is_digit(s@[ns - 1]) || s@[ns - 1] == '.');
            } else if j > ns as int {
                assert(spec_is_digit(s@[j - 1]) || s@[j - 1] == '.');
            }
        }
    }
    if ns == us {
        return Option::None;
    }
    let v = match parse_fixed(s, ns, us) {
        Some(v) => v,
        None => {
            return Option::None;
        },
    };
    // classify the unit, ASCII case-folded
    let is_rem = {
        let a = str_eq_ignore_ascii_case(s.substring_char(us, len), "rem");
        let b = str_eq_ignore_ascii_case(s.substring_char(us, len), "em");
        a || b
    };
    let is_px = str_eq_ignore_ascii_case(s.substring_char(us, len), "px");
    proof {
        reveal_strlit("rem");
        reveal_strlit("em");
        reveal_strlit("px");
        assert(spec_lower_seq("rem"@) =~= "rem"@);
        assert(spec_lower_seq("em"@) =~= "em"@);
        assert(spec_lower_seq("px"@) =~= "px"@);
    }
    if is_rem {
        proof {
            reveal_strlit("rem");
        }
        Option::Some(Dim { units: v, unit: String::from_str("rem"), px_units: Option::None })
    } else if is_px {
        proof {
            reveal_strlit("px");
        }
        Option::Some(Dim { units: v, unit: String::from_str("px"), px_units: Option::Some(v) })
    } else {
        proof {
            reveal_strlit("rem");
        }
        Option::Some(Dim { units: 0, unit: String::from_str("rem"), px_units: Option::None })
    }
}



/// A color present verbatim in the preset table always matches: each
/// tolerance window contains its own centre, so the exact entry's name is
/// among the candidates.
pub proof fn lemma_exact_color_is_candidate(tbl: Seq<ColorToken>, i: int, r: int, g: int, b: int)
    requires
        0 <= i < tbl.len(),
        tbl[i].color_set_red == r,
        tbl[i].color_set_green == g,
        tbl[i].color_set_blue == b,
    ensures
        spec_has_exact_color(tbl, r, g, b),
        spec_color_candidates(tbl, r, g, b).contains(tbl[i].token_name@),
    decreases tbl.len(),
{
    if i == tbl.len() - 1 {
        assert(spec_color_entry_matches(tbl.last(), r, g, b));
        let cands = spec_color_candidates(tbl, r, g, b);
        assert(cands.last() == tbl[i].token_name@);
        assert(cands.contains(tbl[i].token_name@));
    } else {
        lemma_exact_color_is_candidate(tbl.drop_last(), i, r, g, b);
        let prev = spec_color_candidates(tbl.drop_last(), r, g, b);
        let cands = spec_color_candidates(tbl, r, g, b);
        let j = choose|j: int| 0 <= j < prev.len() && prev[j] == tbl.drop_last()[i].token_name@;
        assert(tbl.drop_last()[i] == tbl[i]);
        assert(cands[j] == tbl[i].token_name@);
        assert(cands.contains(tbl[i].token_name@));
    }
}

/// The tolerance window is exactly the +-2 band: for channel values within
/// the 8-bit range, a query lies in the window around a preset channel iff
/// the two differ by at most 2; the boundary rule only keeps the window
/// inside the range.
pub proof fn lemma_channel_window_iff_tolerance(a: int, v: int)
    requires
        0 <= a <= 255,
        0 <= v <= 255,
    ensures
        spec_channel_window(a, v) <==> (-2 <= a - v && a - v <= 2),
{
}

} // verus!
