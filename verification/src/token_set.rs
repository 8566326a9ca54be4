//! The token accumulator: one `TailwindTokenSet` per resolved style rule.
//!
//! Tokens are `(prefix, value)` pairs rendered as `prefix-value` (or the bare
//! value when the prefix is empty). A later resolution for the same non-empty
//! prefix replaces the earlier token: the old slot is swap-removed and the new
//! token appended, so the replacement always lands at the end of the list.

use vstd::prelude::*;

verus! {

/// One utility token: a category prefix and a value.
#[derive(Clone, Debug)]
pub struct UtilityToken {
    pub prefix: String,
    pub value: String,
}

impl View for UtilityToken {
    type V = (Seq<char>, Seq<char>);

    open spec fn view(&self) -> (Seq<char>, Seq<char>) {
        (self.prefix@, self.value@)
    }
}

impl DeepView for UtilityToken {
    type V = (Seq<char>, Seq<char>);

    open spec fn deep_view(&self) -> (Seq<char>, Seq<char>) {
        self.view()
    }
}

/// How a token renders: bare value for an empty prefix, else `prefix-value`.
pub open spec fn spec_render_token(p: Seq<char>, v: Seq<char>) -> Seq<char> {
    if p.len() == 0 {
        v
    } else {
        p + seq!['-'] + v
    }
}

impl UtilityToken {
    /// Renders the token as its output string.
    pub fn render(&self) -> (s: String)
        ensures
            s@ == spec_render_token(self.prefix@, self.value@),
    {
        if self.prefix.as_str().unicode_len() == 0 {
            let s = self.value.clone();
            proof {
                assert(s@ =~= spec_render_token(self.prefix@, self.value@));
            }
            s
        } else {
            proof {
                reveal_strlit("-");
            }
            let mut s = self.prefix.clone();
            s.append("-");
            s.append(self.value.as_str());
            proof {
                assert(s@ =~= spec_render_token(self.prefix@, self.value@));
            }
            s
        }
    }
}

/// Index of the first token whose prefix is `p`, or `-1`.
pub open spec fn spec_first_prefix_match(s: Seq<(Seq<char>, Seq<char>)>, p: Seq<char>) -> int
    decreases s.len(),
{
    if s.len() == 0 {
        -1
    } else if s[0].0 == p {
        0
    } else {
        let r = spec_first_prefix_match(s.drop_first(), p);
        if r == -1 {
            -1
        } else {
            r + 1
        }
    }
}

pub proof fn lemma_first_prefix_match(s: Seq<(Seq<char>, Seq<char>)>, p: Seq<char>)
    ensures
        spec_first_prefix_match(s, p) == -1 ==> forall|k: int|
            0 <= k < s.len() ==> (#[trigger] s[k]).0 != p,
        spec_first_prefix_match(s, p) != -1 ==> {
            let i = spec_first_prefix_match(s, p);
            &&& 0 <= i < s.len()
            &&& s[i].0 == p
            &&& forall|k: int| 0 <= k < i ==> (#[trigger] s[k]).0 != p
        },
    decreases s.len(),
{
    if s.len() > 0 && s[0].0 != p {
        lemma_first_prefix_match(s.drop_first(), p);
        assert forall|k: int| 1 <= k < s.len() implies s.drop_first()[k - 1] == s[k] by {}
    }
}

/// The token list after one push: an empty prefix always appends; a non-empty
/// prefix first swap-removes the earlier token with the same prefix, if any,
/// then appends.
pub open spec fn spec_push_token(
    s: Seq<(Seq<char>, Seq<char>)>,
    p: Seq<char>,
    v: Seq<char>,
) -> Seq<(Seq<char>, Seq<char>)> {
    if p.len() == 0 {
        s.push((p, v))
    } else {
        let i = spec_first_prefix_match(s, p);
        if i == -1 {
            s.push((p, v))
        } else {
            s.update(i, s.last()).drop_last().push((p, v))
        }
    }
}

/// At most one token per non-empty prefix.
pub open spec fn spec_unique_prefixes(s: Seq<(Seq<char>, Seq<char>)>) -> bool {
    forall|i: int, j: int|
        0 <= i < j < s.len() && (#[trigger] s[i]).0.len() > 0 ==> s[i].0 != (#[trigger] s[j]).0
}

/// Pushing a token keeps the per-prefix uniqueness invariant: after the push
/// there is still at most one token for any non-empty prefix.
pub proof fn lemma_push_token_unique(s: Seq<(Seq<char>, Seq<char>)>, p: Seq<char>, v: Seq<char>)
    requires
        spec_unique_prefixes(s),
    ensures
        spec_unique_prefixes(spec_push_token(s, p, v)),
{
    lemma_first_prefix_match(s, p);
    let r = spec_push_token(s, p, v);
    if p.len() == 0 {
        assert forall|i: int, j: int|
            0 <= i < j < r.len() && (#[trigger] r[i]).0.len() > 0 implies r[i].0 != (
        #[trigger] r[j]).0 by {
            if j < s.len() {
                assert(r[i] == s[i] && r[j] == s[j]);
            } else {
                assert(r[j].0 == p);
            }
        }
    } else {
        let m = spec_first_prefix_match(s, p);
        if m == -1 {
            assert forall|i: int, j: int|
                0 <= i < j < r.len() && (#[trigger] r[i]).0.len() > 0 implies r[i].0 != (
            #[trigger] r[j]).0 by {
                if j < s.len() {
                    assert(r[i] == s[i] && r[j] == s[j]);
                } else {
                    assert(r[i] == s[i]);
                    assert(s[i].0 != p);
                }
            }
        } else {
            let t = s.update(m, s.last()).drop_last();
            assert forall|i: int, j: int|
                0 <= i < j < r.len() && (#[trigger] r[i]).0.len() > 0 implies r[i].0 != (
            #[trigger] r[j]).0 by {
                if j < t.len() {
                    // two surviving tokens come from distinct positions of s
                    let oi = if i == m {
                        s.len() - 1
                    } else {
                        i
                    };
                    let oj = if j == m {
                        s.len() - 1
                    } else {
                        j
                    };
                    assert(r[i] == s[oi] && r[j] == s[oj]);
                    assert(oi != oj);
                } else {
                    // the new token's prefix was removed from the survivors
                    let oi = if i == m {
                        s.len() - 1
                    } else {
                        i
                    };
                    assert(r[i] == s[oi]);
                    if s[oi].0 == p {
                        assert(oi != m);
                        if oi < m {
                            assert(s[oi].0 != p);
                        } else {
                            assert(s[m].0 == p);
                            assert(spec_unique_prefixes(s));
                            assert(s[m].0 != s[oi].0);
                        }
                    }
                }
            }
        }
    }
}

/// The token list after a sequence of pushes, applied left to right.
pub open spec fn spec_apply_pushes(
    s: Seq<(Seq<char>, Seq<char>)>,
    es: Seq<(Seq<char>, Seq<char>)>,
) -> Seq<(Seq<char>, Seq<char>)>
    decreases es.len(),
{
    if es.len() == 0 {
        s
    } else {
        spec_apply_pushes(spec_push_token(s, es[0].0, es[0].1), es.drop_first())
    }
}

/// Applying a concatenation of push lists equals applying them in turn.
pub proof fn lemma_apply_pushes_append(
    s: Seq<(Seq<char>, Seq<char>)>,
    e1: Seq<(Seq<char>, Seq<char>)>,
    e2: Seq<(Seq<char>, Seq<char>)>,
)
    ensures
        spec_apply_pushes(s, e1 + e2) == spec_apply_pushes(spec_apply_pushes(s, e1), e2),
    decreases e1.len(),
{
    if e1.len() == 0 {
        assert(e1 + e2 =~= e2);
    } else {
        assert((e1 + e2)[0] == e1[0]);
        assert((e1 + e2).drop_first() =~= e1.drop_first() + e2);
        lemma_apply_pushes_append(spec_push_token(s, e1[0].0, e1[0].1), e1.drop_first(), e2);
    }
}

/// A single-element push list is one push.
pub proof fn lemma_apply_pushes_one(s: Seq<(Seq<char>, Seq<char>)>, p: Seq<char>, v: Seq<char>)
    ensures
        spec_apply_pushes(s, seq![(p, v)]) == spec_push_token(s, p, v),
{
    let es = seq![(p, v)];
    assert(es[0] == (p, v));
    assert(es.drop_first() =~= Seq::<(Seq<char>, Seq<char>)>::empty());
    assert(spec_apply_pushes(s, es) == spec_apply_pushes(
        spec_push_token(s, p, v),
        es.drop_first(),
    ));
    assert(spec_apply_pushes(spec_push_token(s, p, v), es.drop_first()) == spec_push_token(
        s,
        p,
        v,
    ));
}

/// Flattens a list of push lists into one push list, in order.
pub open spec fn spec_flatten(es: Seq<Seq<(Seq<char>, Seq<char>)>>) -> Seq<(Seq<char>, Seq<char>)>
    decreases es.len(),
{
    if es.len() == 0 {
        Seq::<(Seq<char>, Seq<char>)>::empty()
    } else {
        spec_flatten(es.drop_last()) + es.last()
    }
}

/// Extending a push list by one element applies the extra push last.
pub proof fn lemma_apply_pushes_snoc(
    s: Seq<(Seq<char>, Seq<char>)>,
    es: Seq<(Seq<char>, Seq<char>)>,
    e: (Seq<char>, Seq<char>),
)
    ensures
        spec_apply_pushes(s, es.push(e)) == spec_push_token(spec_apply_pushes(s, es), e.0, e.1),
{
    assert(es.push(e) =~= es + seq![e]);
    lemma_apply_pushes_append(s, es, seq![e]);
    lemma_apply_pushes_one(spec_apply_pushes(s, es), e.0, e.1);
}

/// Applying pushes keeps the per-prefix uniqueness invariant.
pub proof fn lemma_apply_pushes_unique(
    s: Seq<(Seq<char>, Seq<char>)>,
    es: Seq<(Seq<char>, Seq<char>)>,
)
    requires
        spec_unique_prefixes(s),
    ensures
        spec_unique_prefixes(spec_apply_pushes(s, es)),
    decreases es.len(),
{
    if es.len() > 0 {
        lemma_push_token_unique(s, es[0].0, es[0].1);
        lemma_apply_pushes_unique(spec_push_token(s, es[0].0, es[0].1), es.drop_first());
    }
}

/// The token set collected for one style rule.
#[derive(Clone, Debug)]
pub struct TailwindTokenSet {
    pub involved_classnames: Vec<String>,
    pub tailwind_token: Vec<UtilityToken>,
    pub layer_group: String,
    pub media_query: Vec<String>,
    pub raw_property: String,
    pub raw_property_count: i32,
}

/// Two token sets that agree on everything but the token list.
pub open spec fn spec_tokens_only_change(pre: TailwindTokenSet, post: TailwindTokenSet) -> bool {
    &&& pre.involved_classnames == post.involved_classnames
    &&& pre.layer_group == post.layer_group
    &&& pre.media_query == post.media_query
    &&& pre.raw_property == post.raw_property
    &&& pre.raw_property_count == post.raw_property_count
}

impl TailwindTokenSet {
    /// The `(prefix, value)` pairs collected so far.
    pub open spec fn toks(&self) -> Seq<(Seq<char>, Seq<char>)> {
        self.tailwind_token.deep_view()
    }

    /// An empty token set.
    pub fn new() -> (r: TailwindTokenSet)
        ensures
            r.involved_classnames.deep_view() == Seq::<Seq<char>>::empty(),
            r.toks() == Seq::<(Seq<char>, Seq<char>)>::empty(),
            r.layer_group@ == Seq::<char>::empty(),
            r.media_query.deep_view() == Seq::<Seq<char>>::empty(),
            r.raw_property@ == Seq::<char>::empty(),
            r.raw_property_count == 0,
    {
        let r = TailwindTokenSet {
            involved_classnames: Vec::new(),
            tailwind_token: Vec::new(),
            layer_group: String::new(),
            media_query: Vec::new(),
            raw_property: String::new(),
            raw_property_count: 0i32,
        };
        proof {
            assert(r.involved_classnames.deep_view() =~= Seq::<Seq<char>>::empty());
            assert(r.toks() =~= Seq::<(Seq<char>, Seq<char>)>::empty());
            assert(r.media_query.deep_view() =~= Seq::<Seq<char>>::empty());
        }
        r
    }

    /// Sets the layer/source label.
    pub fn set_layer_group(&mut self, income_str: &str)
        ensures
            final (self).layer_group@ == income_str@,
            final (self).involved_classnames == old(self).involved_classnames,
            final (self).tailwind_token == old(self).tailwind_token,
            final (self).media_query == old(self).media_query,
            final (self).raw_property == old(self).raw_property,
            final (self).raw_property_count == old(self).raw_property_count,
    {
        self.layer_group = String::from_str(income_str);
    }

    /// Appends one selector fragment.
    pub fn push_involved_classname(&mut self, income_str: &str)
        ensures
            final (self).involved_classnames.deep_view() == old(
                self,
            ).involved_classnames.deep_view().push(income_str@),
            final (self).tailwind_token == old(self).tailwind_token,
            final (self).layer_group == old(self).layer_group,
            final (self).media_query == old(self).media_query,
            final (self).raw_property == old(self).raw_property,
            final (self).raw_property_count == old(self).raw_property_count,
    {
        self.involved_classnames.push(String::from_str(income_str));
        proof {
            assert(self.involved_classnames.deep_view() =~= old(
                self,
            ).involved_classnames.deep_view().push(income_str@));
        }
    }

    /// Appends a batch of selector fragments.
    pub fn push_involved_classnames(&mut self, income_arr: Vec<String>)
        ensures
            final (self).involved_classnames.deep_view() == old(
                self,
            ).involved_classnames.deep_view() + income_arr.deep_view(),
            final (self).tailwind_token == old(self).tailwind_token,
            final (self).layer_group == old(self).layer_group,
            final (self).media_query == old(self).media_query,
            final (self).raw_property == old(self).raw_property,
            final (self).raw_property_count == old(self).raw_property_count,
    {
        self.involved_classnames.extend_from_slice(income_arr.as_slice());
        proof {
            assert(self.involved_classnames.deep_view() =~= old(
                self,
            ).involved_classnames.deep_view() + income_arr.deep_view());
        }
    }

    /// Appends one media-breakpoint token.
    pub fn push_media_query(&mut self, income_str: String)
        ensures
            final (self).media_query.deep_view() == old(self).media_query.deep_view().push(
                income_str@,
            ),
            final (self).involved_classnames == old(self).involved_classnames,
            final (self).tailwind_token == old(self).tailwind_token,
            final (self).layer_group == old(self).layer_group,
            final (self).raw_property == old(self).raw_property,
            final (self).raw_property_count == old(self).raw_property_count,
    {
        self.media_query.push(income_str);
        proof {
            assert(self.media_query.deep_view() =~= old(self).media_query.deep_view().push(
                income_str@,
            ));
        }
    }

    /// Appends a batch of media-breakpoint tokens.
    pub fn push_media_queries(&mut self, income_arr: &Vec<String>)
        ensures
            final (self).media_query.deep_view() == old(self).media_query.deep_view()
                + income_arr.deep_view(),
            final (self).involved_classnames == old(self).involved_classnames,
            final (self).tailwind_token == old(self).tailwind_token,
            final (self).layer_group == old(self).layer_group,
            final (self).raw_property == old(self).raw_property,
            final (self).raw_property_count == old(self).raw_property_count,
    {
        self.media_query.extend_from_slice(income_arr.as_slice());
        proof {
            assert(self.media_query.deep_view() =~= old(self).media_query.deep_view()
                + income_arr.deep_view());
        }
    }

    /// Pushes one utility token under the per-prefix override rule.
    pub fn push_tailwind_token(&mut self, property_name: &str, property_value: &str)
        ensures
            final (self).toks() == spec_push_token(
                old(self).toks(),
                property_name@,
                property_value@,
            ),
            final (self).involved_classnames == old(self).involved_classnames,
            final (self).layer_group == old(self).layer_group,
            final (self).media_query == old(self).media_query,
            final (self).raw_property == old(self).raw_property,
            final (self).raw_property_count == old(self).raw_property_count,
    {
        let name_len = property_name.unicode_len();
        if name_len > 0 {
            let n = self.tailwind_token.len();
            let mut k: usize = 0;
            let mut existing: Option<usize> = None;
            while k < n
                invariant
                    n == self.tailwind_token.len(),
                    k <= n,
                    *self == *old(self),
                    match existing {
                        None => forall|q: int|
                            0 <= q < k ==> (#[trigger] self.toks()[q]).0 != property_name@,
                        Some(idx) => idx < k && self.toks()[idx as int].0 == property_name@ && (
                        forall|q: int|
                            0 <= q < idx ==> (#[trigger] self.toks()[q]).0 != property_name@),
                    },
                decreases n - k,
            {
                if existing.is_none() && crate::text::str_eq(
                    self.tailwind_token[k].prefix.as_str(),
                    property_name,
                ) {
                    existing = Some(k);
                }
                k += 1;
            }
            proof {
                lemma_first_prefix_match(old(self).toks(), property_name@);
                match existing {
                    Some(idx) => {
                        assert(spec_first_prefix_match(old(self).toks(), property_name@)
                            == idx as int);
                    },
                    None => {
                        assert(spec_first_prefix_match(old(self).toks(), property_name@) == -1);
                    },
                }
            }
            if let Some(idx) = existing {
                self.tailwind_token.swap_remove(idx);
            }
        }
        self.tailwind_token.push(
            UtilityToken {
                prefix: String::from_str(property_name),
                value: String::from_str(property_value),
            },
        );
        proof {
            assert(final (self).toks() =~= spec_push_token(
                old(self).toks(),
                property_name@,
                property_value@,
            ));
        }
    }

    /// Sets the raw declaration text carried for diagnostics.
    pub fn set_raw_property(&mut self, income_str: &str)
        ensures
            final (self).raw_property@ == income_str@,
            final (self).involved_classnames == old(self).involved_classnames,
            final (self).tailwind_token == old(self).tailwind_token,
            final (self).layer_group == old(self).layer_group,
            final (self).media_query == old(self).media_query,
            final (self).raw_property_count == old(self).raw_property_count,
    {
        self.raw_property = String::from_str(income_str);
    }

    /// Sets the original declaration count.
    pub fn set_raw_property_count(&mut self, income: i32)
        ensures
            final (self).raw_property_count == income,
            final (self).involved_classnames == old(self).involved_classnames,
            final (self).tailwind_token == old(self).tailwind_token,
            final (self).layer_group == old(self).layer_group,
            final (self).media_query == old(self).media_query,
            final (self).raw_property == old(self).raw_property,
    {
        self.raw_property_count = income;
    }

    /// The rendered token strings, in list order.
    pub fn rendered_tokens(&self) -> (r: Vec<String>)
        ensures
            r.deep_view() == Seq::new(
                self.toks().len(),
                |i: int| spec_render_token(self.toks()[i].0, self.toks()[i].1),
            ),
    {
        let mut r: Vec<String> = Vec::new();
        let n = self.tailwind_token.len();
        let mut i: usize = 0;
        while i < n
            invariant
                n == self.tailwind_token.len(),
                i <= n,
                r.deep_view() =~= Seq::new(
                    i as nat,
                    |q: int| spec_render_token(self.toks()[q].0, self.toks()[q].1),
                ),
            decreases n - i,
        {
            let tok = self.tailwind_token[i].render();
            let ghost tv = tok@;
            let ghost rv0 = r@;
            let ghost r0 = r.deep_view();
            r.push(tok);
            proof {
                assert(r0.len() == i as nat);
                assert(r@ == rv0.push(tok));
                assert(r.deep_view() =~= Seq::new(
                    (i + 1) as nat,
                    |q: int| spec_render_token(self.toks()[q].0, self.toks()[q].1),
                )) by {
                    assert forall|q: int| 0 <= q < i + 1 implies r.deep_view()[q]
                        == spec_render_token(self.toks()[q].0, self.toks()[q].1) by {
                        assert(r.deep_view()[q] == r@[q].deep_view());
                        if q == i as int {
                            assert(r@[q] == tok);
                            assert(r@[q].deep_view() == tv);
                        } else {
                            assert(r@[q] == rv0[q]);
                            assert(r0[q] == rv0[q].deep_view());
                            assert(r0[q] == spec_render_token(self.toks()[q].0, self.toks()[q].1));
                        }
                    }
                }
            }
            i += 1;
        }
        r
    }

    /// The empty starter token list.
    pub fn export_token() -> (r: Vec<String>)
        ensures
            r.deep_view() == Seq::<Seq<char>>::empty(),
    {
        let r: Vec<String> = vec![];
        proof {
            assert(r.deep_view() =~= Seq::<Seq<char>>::empty());
        }
        r
    }
}


/// The kinds of preset token table an entry can come from.
#[derive(Clone, Copy, Debug)]
pub enum TwToken {
    ColorToken,
    TypographyToken,
}

} // verus!
