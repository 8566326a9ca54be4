//! The media condition resolver: turns one parsed media query condition
//! into breakpoint tokens via the tolerance search over the preset table.

use vstd::prelude::*;
use crate::values::Dim;
use crate::registry::{
    Registry,
    MediaToken,
    spec_plain_media_candidates,
    spec_range_media_candidates,
    search_media,
    search_media_range,
    spec_rem_equiv_units,
    rem_equiv_units,
};
use crate::text::{spec_lower_seq, spec_starts_with, str_starts_with};

verus! {

/// A range comparison operator of a media feature.
#[derive(Clone, Copy, Debug)]
pub enum RangeOp {
    Equal,
    GreaterThan,
    GreaterThanEqual,
    LessThan,
    LessThanEqual,
}

/// One parsed media feature: a plain `name: value` feature, a range
/// comparison, or an unsupported feature shape. A `None` value means the
/// feature's value was not a length.
#[derive(Clone, Debug)]
pub enum MediaFeatureVal {
    Plain { name: String, value: Option<Dim> },
    Range { op: RangeOp, value: Option<Dim> },
    Other,
}

impl MediaFeatureVal {
    pub open spec fn wf(&self) -> bool {
        match self {
            MediaFeatureVal::Plain { value: Some(d), .. } => d.wf(),
            MediaFeatureVal::Range { value: Some(d), .. } => d.wf(),
            _ => true,
        }
    }
}

/// One entry of a conjunctive media condition.
#[derive(Clone, Debug)]
pub enum MediaCondItem {
    Feature(MediaFeatureVal),
    Other,
}

impl MediaCondItem {
    pub open spec fn wf(&self) -> bool {
        match self {
            MediaCondItem::Feature(f) => f.wf(),
            MediaCondItem::Other => true,
        }
    }
}

/// A parsed media condition: a single feature, a joint operation whose
/// direct feature children are resolved independently, or an unsupported
/// shape (negations, nested boolean structure), which yields no tokens.
#[derive(Clone, Debug)]
pub enum MediaCondVal {
    Feature(MediaFeatureVal),
    Operation(Vec<MediaCondItem>),
    Unsupported,
}

impl MediaCondVal {
    pub open spec fn wf(&self) -> bool {
        match self {
            MediaCondVal::Feature(f) => f.wf(),
            MediaCondVal::Operation(items) => forall|i: int|
                0 <= i < items@.len() ==> (#[trigger] items@[i]).wf(),
            MediaCondVal::Unsupported => true,
        }
    }
}

/// One media query: its optional condition.
#[derive(Clone, Debug)]
pub struct MediaQueryVal {
    pub condition: Option<MediaCondVal>,
}

impl MediaQueryVal {
    pub open spec fn wf(&self) -> bool {
        match self.condition {
            Some(c) => c.wf(),
            None => true,
        }
    }
}

/// The bucket tag a range operator selects by: `at-` for equality, `gt-`
/// for the greater-than family, `lt-` for the less-than family.
pub open spec fn spec_range_bucket(op: RangeOp) -> Seq<char> {
    match op {
        RangeOp::Equal => "at-"@,
        RangeOp::GreaterThan => "gt-"@,
        RangeOp::GreaterThanEqual => "gt-"@,
        RangeOp::LessThan => "lt-"@,
        RangeOp::LessThanEqual => "lt-"@,
    }
}

fn range_bucket(op: &RangeOp) -> (r: &'static str)
    ensures
        r@ == spec_range_bucket(*op),
{
    match op {
        RangeOp::Equal => "at-",
        RangeOp::GreaterThan => "gt-",
        RangeOp::GreaterThanEqual => "gt-",
        RangeOp::LessThan => "lt-",
        RangeOp::LessThanEqual => "lt-",
    }
}

/// Index of the first name starting with `p`, or `-1`.
pub open spec fn spec_first_with_prefix(s: Seq<Seq<char>>, p: Seq<char>) -> int
    decreases s.len(),
{
    if s.len() == 0 {
        -1
    } else if spec_starts_with(s[0], p) {
        0
    } else {
        let r = spec_first_with_prefix(s.drop_first(), p);
        if r == -1 {
            -1
        } else {
            r + 1
        }
    }
}

pub proof fn lemma_first_with_prefix(s: Seq<Seq<char>>, p: Seq<char>)
    ensures
        spec_first_with_prefix(s, p) == -1 ==> forall|k: int|
            0 <= k < s.len() ==> !spec_starts_with(#[trigger] s[k], p),
        spec_first_with_prefix(s, p) != -1 ==> {
            let i = spec_first_with_prefix(s, p);
            &&& 0 <= i < s.len()
            &&& spec_starts_with(s[i], p)
            &&& forall|k: int| 0 <= k < i ==> !spec_starts_with(#[trigger] s[k], p)
        },
    decreases s.len(),
{
    if s.len() > 0 && !spec_starts_with(s[0], p) {
        lemma_first_with_prefix(s.drop_first(), p);
        assert forall|k: int| 1 <= k < s.len() implies s.drop_first()[k - 1] == s[k] by {}
    }
}

/// The candidate a range feature selects: the first name carrying the
/// bucket tag, or the first candidate when none does.
pub open spec fn spec_find_or_first(s: Seq<Seq<char>>, p: Seq<char>) -> Seq<char>
    recommends
        s.len() > 0,
{
    let i = spec_first_with_prefix(s, p);
    if i == -1 {
        s[0]
    } else {
        s[i]
    }
}

fn find_or_first(s: &Vec<String>, p: &str) -> (r: String)
    requires
        s@.len() > 0,
    ensures
        r@ == spec_find_or_first(s.deep_view(), p@),
{
    let n = s.len();
    let mut k: usize = 0;
    while k < n
        invariant
            n == s@.len(),
            k <= n,
            forall|q: int| 0 <= q < k ==> !spec_starts_with(#[trigger] s.deep_view()[q], p@),
        decreases n - k,
    {
        if str_starts_with(s[k].as_str(), p) {
            proof {
                assert(s.deep_view()[k as int] == s@[k as int]@);
                assert(spec_starts_with(s.deep_view()[k as int], p@));
                lemma_first_with_prefix(s.deep_view(), p@);
                let i = spec_first_with_prefix(s.deep_view(), p@);
                if i == -1 {
                    assert(!spec_starts_with(s.deep_view()[k as int], p@));
                } else if i < k as int {
                    assert(!spec_starts_with(s.deep_view()[i], p@));
                } else if i > k as int {
                    assert(!spec_starts_with(s.deep_view()[k as int], p@));
                }
                assert(spec_first_with_prefix(s.deep_view(), p@) == k as int);
            }
            return s[k].clone();
        }
        k += 1;
    }
    proof {
        lemma_first_with_prefix(s.deep_view(), p@);
        assert(spec_first_with_prefix(s.deep_view(), p@) == -1);
    }
    s[0].clone()
}

/// The breakpoint tokens one media feature yields: a plain feature collects
/// every preset in the tolerance window of its named bound; a range feature
/// selects one candidate by bucket tag; anything else yields nothing.
pub open spec fn spec_feature_tokens(media: Seq<MediaToken>, f: MediaFeatureVal) -> Seq<Seq<char>> {
    match f {
        MediaFeatureVal::Plain { name, value } => match value {
            Some(d) => spec_plain_media_candidates(
                media,
                spec_lower_seq(name@),
                spec_rem_equiv_units(d),
            ),
            None => Seq::<Seq<char>>::empty(),
        },
        MediaFeatureVal::Range { op, value } => match value {
            Some(d) => {
                let cands = spec_range_media_candidates(media, spec_rem_equiv_units(d));
                if cands.len() == 0 {
                    Seq::<Seq<char>>::empty()
                } else {
                    seq![spec_find_or_first(cands, spec_range_bucket(op))]
                }
            },
            None => Seq::<Seq<char>>::empty(),
        },
        MediaFeatureVal::Other => Seq::<Seq<char>>::empty(),
    }
}

/// Resolves one media feature to its breakpoint tokens.
pub fn resolve_media_query_feat(f: &MediaFeatureVal, reg: &Registry) -> (out: Vec<String>)
    requires
        f.wf(),
        reg.wf(),
    ensures
        out.deep_view() == spec_feature_tokens(reg.media@, *f),
{
    match f {
        MediaFeatureVal::Plain { name, value } => {
            match value {
                Some(d) => {
                    let rem = rem_equiv_units(d);
                    search_media(reg, name.as_str(), rem)
                },
                None => {
                    let out: Vec<String> = Vec::new();
                    proof {
                        assert(out.deep_view() =~= Seq::<Seq<char>>::empty());
                    }
                    out
                },
            }
        },
        MediaFeatureVal::Range { op, value } => {
            match value {
                Some(d) => {
                    let rem = rem_equiv_units(d);
                    let cands = search_media_range(reg, rem);
                    if cands.len() == 0 {
                        let out: Vec<String> = Vec::new();
                        proof {
                            assert(out.deep_view() =~= Seq::<Seq<char>>::empty());
                        }
                        out
                    } else {
                        let chosen = find_or_first(&cands, range_bucket(op));
                        let mut out: Vec<String> = Vec::new();
                        let ghost cv = chosen@;
                        out.push(chosen);
                        proof {
                            assert(out.deep_view() =~= seq![cv]);
                        }
                        out
                    }
                },
                None => {
                    let out: Vec<String> = Vec::new();
                    proof {
                        assert(out.deep_view() =~= Seq::<Seq<char>>::empty());
                    }
                    out
                },
            }
        },
        MediaFeatureVal::Other => {
            let out: Vec<String> = Vec::new();
            proof {
                assert(out.deep_view() =~= Seq::<Seq<char>>::empty());
            }
            out
        },
    }
}

/// Concatenation of string lists, in order.
pub open spec fn spec_concat_strs(s: Seq<Seq<Seq<char>>>) -> Seq<Seq<char>>
    decreases s.len(),
{
    if s.len() == 0 {
        Seq::<Seq<char>>::empty()
    } else {
        spec_concat_strs(s.drop_last()) + s.last()
    }
}

/// The breakpoint tokens one media condition yields: a feature resolves
/// directly; a joint operation resolves each direct feature child and
/// unions the lists; anything else yields nothing.
pub open spec fn spec_cond_tokens(media: Seq<MediaToken>, c: MediaCondVal) -> Seq<Seq<char>> {
    match c {
        MediaCondVal::Feature(f) => spec_feature_tokens(media, f),
        MediaCondVal::Operation(items) => spec_concat_strs(
            items@.map_values(
                |it: MediaCondItem|
                    match it {
                        MediaCondItem::Feature(f) => spec_feature_tokens(media, f),
                        MediaCondItem::Other => Seq::<Seq<char>>::empty(),
                    },
            ),
        ),
        MediaCondVal::Unsupported => Seq::<Seq<char>>::empty(),
    }
}

/// The breakpoint tokens one media query yields; a query without a
/// condition yields nothing.
pub open spec fn spec_query_tokens(media: Seq<MediaToken>, q: MediaQueryVal) -> Seq<Seq<char>> {
    match q.condition {
        Some(c) => spec_cond_tokens(media, c),
        None => Seq::<Seq<char>>::empty(),
    }
}

/// Resolves one media query's condition to its breakpoint token list.
pub fn resolve_media_query_prefix(q: &MediaQueryVal, reg: &Registry) -> (out: Vec<String>)
    requires
        q.wf(),
        reg.wf(),
    ensures
        out.deep_view() == spec_query_tokens(reg.media@, *q),
{
    match &q.condition {
        None => {
            let out: Vec<String> = Vec::new();
            proof {
                assert(out.deep_view() =~= Seq::<Seq<char>>::empty());
            }
            out
        },
        Some(c) => {
            match c {
                MediaCondVal::Feature(f) => resolve_media_query_feat(f, reg),
                MediaCondVal::Operation(items) => {
                    let ghost m = items@.map_values(
                        |it: MediaCondItem|
                            match it {
                                MediaCondItem::Feature(f) => spec_feature_tokens(reg.media@, f),
                                MediaCondItem::Other => Seq::<Seq<char>>::empty(),
                            },
                    );
                    let mut out: Vec<String> = Vec::new();
                    let n = items.len();
                    let mut i: usize = 0;
                    proof {
                        assert(out.deep_view() =~= spec_concat_strs(m.take(0)));
                    }
                    while i < n
                        invariant
                            n == items@.len(),
                            i <= n,
                            reg.wf(),
                            forall|k: int| 0 <= k < items@.len() ==> (#[trigger] items@[k]).wf(),
                            m == items@.map_values(
                                |it: MediaCondItem|
                                    match it {
                                        MediaCondItem::Feature(f) => spec_feature_tokens(
                                            reg.media@,
                                            f,
                                        ),
                                        MediaCondItem::Other => Seq::<Seq<char>>::empty(),
                                    },
                            ),
                            m.len() == n,
                            out.deep_view() =~= spec_concat_strs(m.take(i as int)),
                        decreases n - i,
                    {
                        let ghost out0 = out.deep_view();
                        match &items[i] {
                            MediaCondItem::Feature(f) => {
                                let ext = resolve_media_query_feat(f, reg);
                                let mut j: usize = 0;
                                let en = ext.len();
                                while j < en
                                    invariant
                                        en == ext@.len(),
                                        j <= en,
                                        out.deep_view() =~= out0 + ext.deep_view().take(j as int),
                                    decreases en - j,
                                {
                                    let ghost prev = out.deep_view();
                                    let item = ext[j].clone();
                                    let ghost iv = item@;
                                    out.push(item);
                                    proof {
                                        assert(out.deep_view() =~= prev.push(iv));
                                        assert(ext.deep_view().take(j + 1) =~= ext.deep_view().take(
                                            j as int,
                                        ).push(ext.deep_view()[j as int]));
                                        assert(out.deep_view() =~= out0 + ext.deep_view().take(
                                            j + 1,
                                        ));
                                    }
                                    j += 1;
                                }
                                proof {
                                    assert(ext.deep_view().take(en as int) =~= ext.deep_view());
                                }
                            },
                            MediaCondItem::Other => {},
                        }
                        proof {
                            assert(m.take(i + 1).drop_last() =~= m.take(i as int));
                            assert(m.take(i + 1).last() == m[i as int]);
                            assert(out.deep_view() =~= spec_concat_strs(m.take(i + 1)));
                        }
                        i += 1;
                    }
                    proof {
                        assert(m.take(n as int) =~= m);
                    }
                    out
                },
                MediaCondVal::Unsupported => {
                    let out: Vec<String> = Vec::new();
                    proof {
                        assert(out.deep_view() =~= Seq::<Seq<char>>::empty());
                    }
                    out
                },
            }
        },
    }
}


/// The range tie-break: when any candidate carries the operator's bucket
/// tag, the selected candidate carries it too.
pub proof fn lemma_range_tie_break(s: Seq<Seq<char>>, p: Seq<char>)
    requires
        s.len() > 0,
        exists|k: int| 0 <= k < s.len() && spec_starts_with(#[trigger] s[k], p),
    ensures
        spec_starts_with(spec_find_or_first(s, p), p),
{
    lemma_first_with_prefix(s, p);
    if spec_first_with_prefix(s, p) == -1 {
        let k = choose|k: int| 0 <= k < s.len() && spec_starts_with(#[trigger] s[k], p);
        assert(!spec_starts_with(s[k], p));
    }
}

} // verus!
