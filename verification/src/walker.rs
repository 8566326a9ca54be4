//! The rule walker: iterates a stylesheet's top-level rules, resolving each
//! style rule's declarations and attaching breakpoint tokens from `@media`
//! groupings, one token set per style rule.

use vstd::prelude::*;
use crate::registry::Registry;
use crate::dispatch::{Declaration, spec_style_emissions, resolve_style};
use crate::media::{MediaQueryVal, spec_query_tokens, spec_concat_strs, resolve_media_query_prefix};
use crate::token_set::{TailwindTokenSet, spec_apply_pushes};

verus! {

/// One style rule: its selector text, the enclosing rule's raw CSS text,
/// and its parsed declarations.
#[derive(Clone, Debug)]
pub struct StyleRuleData {
    pub selector_text: String,
    pub raw_text: String,
    pub declarations: Vec<Declaration>,
}

impl StyleRuleData {
    pub open spec fn wf(&self) -> bool {
        &&& forall|i: int| 0 <= i < self.declarations@.len() ==> (#[trigger] self.declarations@[i]).wf()
        &&& self.declarations@.len() <= i32::MAX
    }
}

/// One rule nested in an `@media` block.
#[derive(Clone, Debug)]
pub enum NestedRule {
    Style(StyleRuleData),
    Other,
}

impl NestedRule {
    pub open spec fn wf(&self) -> bool {
        match self {
            NestedRule::Style(d) => d.wf(),
            NestedRule::Other => true,
        }
    }
}

/// One top-level rule of a stylesheet.
#[derive(Clone, Debug)]
pub enum Rule {
    Style(StyleRuleData),
    Media { queries: Vec<MediaQueryVal>, rules: Vec<NestedRule> },
    Other,
}

impl Rule {
    pub open spec fn wf(&self) -> bool {
        match self {
            Rule::Style(d) => d.wf(),
            Rule::Media { queries, rules } => {
                &&& forall|i: int| 0 <= i < queries@.len() ==> (#[trigger] queries@[i]).wf()
                &&& forall|i: int| 0 <= i < rules@.len() ==> (#[trigger] rules@[i]).wf()
                &&& rules@.len() <= i32::MAX
            },
            Rule::Other => true,
        }
    }
}

/// Index of the first `", "` separator in `s`, or `-1`.
pub open spec fn spec_find_sep(s: Seq<char>) -> int
    decreases s.len(),
{
    if s.len() < 2 {
        -1
    } else if s[0] == ',' && s[1] == ' ' {
        0
    } else {
        let r = spec_find_sep(s.drop_first());
        if r == -1 {
            -1
        } else {
            r + 1
        }
    }
}

pub proof fn lemma_find_sep(s: Seq<char>)
    ensures
        spec_find_sep(s) == -1 ==> forall|k: int|
            0 <= k < s.len() - 1 ==> !(#[trigger] s[k] == ',' && s[k + 1] == ' '),
        spec_find_sep(s) != -1 ==> {
            let i = spec_find_sep(s);
            &&& 0 <= i <= s.len() - 2
            &&& s[i] == ','
            &&& s[i + 1] == ' '
            &&& forall|k: int| 0 <= k < i ==> !(#[trigger] s[k] == ',' && s[k + 1] == ' ')
        },
    decreases s.len(),
{
    if s.len() >= 2 && !(s[0] == ',' && s[1] == ' ') {
        lemma_find_sep(s.drop_first());
        assert forall|k: int| 1 <= k < s.len() implies s.drop_first()[k - 1] == s[k] by {}
    }
}

/// The selector text split on `", "` into fragments, separators dropped.
pub open spec fn spec_split_selectors(s: Seq<char>) -> Seq<Seq<char>>
    decreases s.len(),
{
    let i = spec_find_sep(s);
    if i < 0 || i + 2 > s.len() {
        seq![s]
    } else {
        seq![s.subrange(0, i)] + spec_split_selectors(s.subrange(i + 2, s.len() as int))
    }
}

/// Splits selector text on `", "`.
pub fn split_selectors(s: &str) -> (r: Vec<String>)
    ensures
        r.deep_view() == spec_split_selectors(s@),
    decreases s@.len(),
{
    let len = s.unicode_len();
    let scan: usize = if len >= 1 {
        len - 1
    } else {
        0
    };
    let mut found: Option<usize> = None;
    let mut k: usize = 0;
    proof {
        lemma_find_sep(s@);
    }
    while k < scan
        invariant
            len == s@.len(),
            scan == if len >= 1 {
                (len - 1) as int
            } else {
                0
            },
            k <= scan,
            match found {
                None => forall|q: int|
                    0 <= q < k ==> !(#[trigger] s@[q] == ',' && s@[q + 1] == ' '),
                Some(f) => f < k && s@[f as int] == ',' && s@[f as int + 1] == ' ' && (forall|
                    q: int,
                |
                    0 <= q < f ==> !(#[trigger] s@[q] == ',' && s@[q + 1] == ' ')),
            },
        decreases scan - k,
    {
        if found.is_none() && s.get_char(k) == ',' && s.get_char(k + 1) == ' ' {
            found = Some(k);
        }
        k += 1;
    }
    if let Some(i) = found {
        proof {
            assert(spec_find_sep(s@) == i as int) by {
                lemma_find_sep(s@);
                let f = spec_find_sep(s@);
                if f == -1 {
                    assert(!(s@[i as int] == ',' && s@[i as int + 1] == ' '));
                } else if f < i as int {
                    assert(!(s@[f] == ',' && s@[f + 1] == ' '));
                } else if f > i as int {
                    assert(!(s@[i as int] == ',' && s@[i as int + 1] == ' '));
                }
            }
        }
        let piece = s.substring_char(0, i);
        let rest = s.substring_char(i + 2, len);
        let mut r: Vec<String> = Vec::new();
        r.push(String::from_str(piece));
        let mut tail = split_selectors(rest);
        let ghost tailv = tail.deep_view();
        r.append(&mut tail);
        proof {
            assert(r.deep_view() =~= seq![s@.subrange(0, i as int)] + tailv);
        }
        r
    } else {
        proof {
            assert(spec_find_sep(s@) == -1) by {
                lemma_find_sep(s@);
                if spec_find_sep(s@) != -1 {
                    let i = spec_find_sep(s@);
                    assert(!(s@[i] == ',' && s@[i + 1] == ' '));
                }
            }
        }
        let mut r: Vec<String> = Vec::new();
        r.push(String::from_str(s));
        proof {
            assert(r.deep_view() =~= seq![s@]);
        }
        r
    }
}

/// The mathematical content of one emitted token set.
pub ghost struct TokenSetModel {
    pub classnames: Seq<Seq<char>>,
    pub toks: Seq<(Seq<char>, Seq<char>)>,
    pub layer: Seq<char>,
    pub media: Seq<Seq<char>>,
    pub raw: Seq<char>,
    pub count: int,
}

/// The model a concrete token set carries.
pub open spec fn spec_model_of(ts: TailwindTokenSet) -> TokenSetModel {
    TokenSetModel {
        classnames: ts.involved_classnames.deep_view(),
        toks: ts.toks(),
        layer: ts.layer_group@,
        media: ts.media_query.deep_view(),
        raw: ts.raw_property@,
        count: ts.raw_property_count as int,
    }
}

/// The token set one style rule produces: split selectors, the layer label,
/// the enclosing rule's raw text, the given declaration count, the media
/// tokens, and the tokens its declarations resolve to, folded through the
/// override rule from an empty list.
pub open spec fn spec_style_rule_model(
    reg: Registry,
    layer: Seq<char>,
    mq: Seq<Seq<char>>,
    count: int,
    r: StyleRuleData,
) -> TokenSetModel {
    TokenSetModel {
        classnames: spec_split_selectors(r.selector_text@),
        toks: spec_apply_pushes(
            Seq::<(Seq<char>, Seq<char>)>::empty(),
            spec_style_emissions(reg, r.declarations@),
        ),
        layer: layer,
        media: mq,
        raw: r.raw_text@,
        count: count,
    }
}

/// Concatenation of model lists, in order.
pub open spec fn spec_concat_models(s: Seq<Seq<TokenSetModel>>) -> Seq<TokenSetModel>
    decreases s.len(),
{
    if s.len() == 0 {
        Seq::<TokenSetModel>::empty()
    } else {
        spec_concat_models(s.drop_last()) + s.last()
    }
}

/// The token sets one top-level rule produces: one per style rule, with
/// media-grouped rules sharing their block's breakpoint tokens and nested
/// rule count.
pub open spec fn spec_rule_models(reg: Registry, layer: Seq<char>, r: Rule) -> Seq<TokenSetModel> {
    match r {
        Rule::Style(data) => seq![
            spec_style_rule_model(
                reg,
                layer,
                Seq::<Seq<char>>::empty(),
                data.declarations@.len() as int,
                data,
            ),
        ],
        Rule::Media { queries, rules } => {
            let mq = spec_concat_strs(
                queries@.map_values(|q: MediaQueryVal| spec_query_tokens(reg.media@, q)),
            );
            spec_concat_models(
                rules@.map_values(
                    |nr: NestedRule|
                        match nr {
                            NestedRule::Style(data) => seq![
                                spec_style_rule_model(
                                    reg,
                                    layer,
                                    mq,
                                    rules@.len() as int,
                                    data,
                                ),
                            ],
                            NestedRule::Other => Seq::<TokenSetModel>::empty(),
                        },
                ),
            )
        },
        Rule::Other => Seq::<TokenSetModel>::empty(),
    }
}

/// The token sets a whole stylesheet produces, in rule order.
pub open spec fn spec_walk(reg: Registry, layer: Seq<char>, rules: Seq<Rule>) -> Seq<
    TokenSetModel,
> {
    spec_concat_models(rules.map_values(|r: Rule| spec_rule_models(reg, layer, r)))
}

/// Builds the token set of one style rule: selectors, layer label, raw
/// text, declaration count, then the resolved declarations.
fn create_new_tw_token(data: &StyleRuleData, layer: &str, reg: &Registry) -> (ts: TailwindTokenSet)
    requires
        data.wf(),
        reg.wf(),
    ensures
        spec_model_of(ts) == spec_style_rule_model(
            *reg,
            layer@,
            Seq::<Seq<char>>::empty(),
            data.declarations@.len() as int,
            *data,
        ),
{
    let mut ts = TailwindTokenSet::new();
    let names = split_selectors(data.selector_text.as_str());
    let ghost nv = names.deep_view();
    ts.push_involved_classnames(names);
    ts.set_layer_group(layer);
    ts.set_raw_property(data.raw_text.as_str());
    let n = data.declarations.len();
    ts.set_raw_property_count(n as i32);
    resolve_style(&data.declarations, &mut ts, reg);
    proof {
        assert(ts.involved_classnames.deep_view() =~= nv);
        assert(ts.media_query.deep_view() =~= Seq::<Seq<char>>::empty());
    }
    ts
}

/// Walks a stylesheet's top-level rules and produces one token set per
/// style rule, in input order; `@media` blocks resolve their condition once
/// and attach the shared breakpoint tokens and nested rule count to every
/// nested style rule's set.
pub fn resolve_stylesheet(rules: &Vec<Rule>, layer: &str, reg: &Registry) -> (out: Vec<
    TailwindTokenSet,
>)
    requires
        forall|i: int| 0 <= i < rules@.len() ==> (#[trigger] rules@[i]).wf(),
        reg.wf(),
    ensures
        out@.map_values(|ts: TailwindTokenSet| spec_model_of(ts)) == spec_walk(
            *reg,
            layer@,
            rules@,
        ),
{
    let ghost mrules = rules@.map_values(|r: Rule| spec_rule_models(*reg, layer@, r));
    let mut out: Vec<TailwindTokenSet> = Vec::new();
    let n = rules.len();
    let mut i: usize = 0;
    proof {
        assert(out@.map_values(|ts: TailwindTokenSet| spec_model_of(ts)) =~= spec_concat_models(
            mrules.take(0),
        ));
    }
    while i < n
        invariant
            n == rules@.len(),
            i <= n,
            reg.wf(),
            forall|k: int| 0 <= k < rules@.len() ==> (#[trigger] rules@[k]).wf(),
            mrules == rules@.map_values(|r: Rule| spec_rule_models(*reg, layer@, r)),
            mrules.len() == n,
            out@.map_values(|ts: TailwindTokenSet| spec_model_of(ts)) =~= spec_concat_models(
                mrules.take(i as int),
            ),
        decreases n - i,
    {
        let ghost outm0 = out@.map_values(|ts: TailwindTokenSet| spec_model_of(ts));
        match &rules[i] {
            Rule::Style(data) => {
                let ts = create_new_tw_token(data, layer, reg);
                let ghost tm = spec_model_of(ts);
                out.push(ts);
                proof {
                    assert(out@.map_values(|ts: TailwindTokenSet| spec_model_of(ts)) =~= outm0.push(
                        tm,
                    ));
                }
            },
            Rule::Media { queries, rules: nested } => {
                // resolve the media condition once for the whole block
                let ghost mquer = queries@.map_values(
                    |q: MediaQueryVal| spec_query_tokens(reg.media@, q),
                );
                let mut mq_token: Vec<String> = Vec::new();
                let qn = queries.len();
                let mut qi: usize = 0;
                proof {
                    assert(mq_token.deep_view() =~= spec_concat_strs(mquer.take(0)));
                }
                while qi < qn
                    invariant
                        qn == queries@.len(),
                        qi <= qn,
                        reg.wf(),
                        forall|k: int| 0 <= k < queries@.len() ==> (#[trigger] queries@[k]).wf(),
                        mquer == queries@.map_values(
                            |q: MediaQueryVal| spec_query_tokens(reg.media@, q),
                        ),
                        mquer.len() == qn,
                        mq_token.deep_view() =~= spec_concat_strs(mquer.take(qi as int)),
                    decreases qn - qi,
                {
                    let ghost mq0 = mq_token.deep_view();
                    let ext = resolve_media_query_prefix(&queries[qi], reg);
                    let en = ext.len();
                    let mut j: usize = 0;
                    while j < en
                        invariant
                            en == ext@.len(),
                            j <= en,
                            mq_token.deep_view() =~= mq0 + ext.deep_view().take(j as int),
                        decreases en - j,
                    {
                        let ghost prev = mq_token.deep_view();
                        let item = ext[j].clone();
                        let ghost iv = item@;
                        mq_token.push(item);
                        proof {
                            assert(mq_token.deep_view() =~= prev.push(iv));
                            assert(ext.deep_view().take(j + 1) =~= ext.deep_view().take(
                                j as int,
                            ).push(ext.deep_view()[j as int]));
                            assert(mq_token.deep_view() =~= mq0 + ext.deep_view().take(j + 1));
                        }
                        j += 1;
                    }
                    proof {
                        assert(ext.deep_view().take(en as int) =~= ext.deep_view());
                        assert(mquer.take(qi + 1).drop_last() =~= mquer.take(qi as int));
                        assert(mquer.take(qi + 1).last() == mquer[qi as int]);
                        assert(mq_token.deep_view() =~= spec_concat_strs(mquer.take(qi + 1)));
                    }
                    qi += 1;
                }
                proof {
                    assert(mquer.take(qn as int) =~= mquer);
                }
                let ghost mq = mq_token.deep_view();
                // process every nested style rule with the shared tokens
                let ghost mnest = nested@.map_values(
                    |nr: NestedRule|
                        match nr {
                            NestedRule::Style(data) => seq![
                                spec_style_rule_model(
                                    *reg,
                                    layer@,
                                    mq,
                                    nested@.len() as int,
                                    data,
                                ),
                            ],
                            NestedRule::Other => Seq::<TokenSetModel>::empty(),
                        },
                );
                let sub_count = nested.len();
                let mut ri: usize = 0;
                proof {
                    assert(outm0 + spec_concat_models(mnest.take(0)) =~= outm0);
                }
                while ri < sub_count
                    invariant
                        sub_count == nested@.len(),
                        sub_count <= i32::MAX,
                        ri <= sub_count,
                        reg.wf(),
                        forall|k: int| 0 <= k < nested@.len() ==> (#[trigger] nested@[k]).wf(),
                        mq == mq_token.deep_view(),
                        mnest == nested@.map_values(
                            |nr: NestedRule|
                                match nr {
                                    NestedRule::Style(data) => seq![
                                        spec_style_rule_model(
                                            *reg,
                                            layer@,
                                            mq,
                                            nested@.len() as int,
                                            data,
                                        ),
                                    ],
                                    NestedRule::Other => Seq::<TokenSetModel>::empty(),
                                },
                        ),
                        mnest.len() == sub_count,
                        out@.map_values(|ts: TailwindTokenSet| spec_model_of(ts)) =~= outm0
                            + spec_concat_models(mnest.take(ri as int)),
                    decreases sub_count - ri,
                {
                    let ghost outp = out@.map_values(|ts: TailwindTokenSet| spec_model_of(ts));
                    match &nested[ri] {
                        NestedRule::Style(data) => {
                            let mut ts = create_new_tw_token(data, layer, reg);
                            ts.set_raw_property_count(sub_count as i32);
                            ts.push_media_queries(&mq_token);
                            let ghost tm = spec_model_of(ts);
                            proof {
                                assert(ts.media_query.deep_view() =~= mq);
                                assert(tm == spec_style_rule_model(
                                    *reg,
                                    layer@,
                                    mq,
                                    nested@.len() as int,
                                    *data,
                                ));
                            }
                            out.push(ts);
                            proof {
                                assert(out@.map_values(|ts: TailwindTokenSet| spec_model_of(ts))
                                    =~= outp.push(tm));
                            }
                        },
                        NestedRule::Other => {},
                    }
                    proof {
                        assert(mnest.take(ri + 1).drop_last() =~= mnest.take(ri as int));
                        assert(mnest.take(ri + 1).last() == mnest[ri as int]);
                        assert(out@.map_values(|ts: TailwindTokenSet| spec_model_of(ts)) =~= outm0
                            + spec_concat_models(mnest.take(ri + 1)));
                    }
                    ri += 1;
                }
                proof {
                    assert(mnest.take(sub_count as int) =~= mnest);
                    assert(spec_rule_models(*reg, layer@, rules@[i as int]) =~= spec_concat_models(
                        mnest,
                    ));
                }
            },
            Rule::Other => {},
        }
        proof {
            assert(mrules.take(i + 1).drop_last() =~= mrules.take(i as int));
            assert(mrules.take(i + 1).last() == mrules[i as int]);
            assert(out@.map_values(|ts: TailwindTokenSet| spec_model_of(ts)) =~= spec_concat_models(
                mrules.take(i + 1),
            ));
        }
        i += 1;
    }
    proof {
        assert(mrules.take(n as int) =~= mrules);
    }
    out
}

} // verus!
