//! Character and string helpers shared by the matchers and quantizers:
//! ASCII case folding, prefix tests, the `em`-unit test, the numbered-shade
//! name pattern, and the escaping used by bracketed literal tokens.

use vstd::prelude::*;

verus! {

/// Relies on std's `String::push`: appends exactly one character.
pub assume_specification[ String::push ](s: &mut String, c: char)
    ensures
        final (s)@ == old(s)@.push(c),
;

/// ASCII lower-casing of one character.
pub open spec fn spec_lower_char(c: char) -> char {
    if 'A' <= c && c <= 'Z' {
        (((c as u8) + 32) as char)
    } else {
        c
    }
}

/// ASCII lower-casing of one character.
pub fn lower_char(c: char) -> (r: char)
    ensures
        r == spec_lower_char(c),
{
    if 'A' <= c && c <= 'Z' {
        ((c as u8) + 32) as char
    } else {
        c
    }
}

/// ASCII lower-casing of a character sequence.
pub open spec fn spec_lower_seq(s: Seq<char>) -> Seq<char> {
    s.map_values(|c: char| spec_lower_char(c))
}

/// Character-for-character equality of two strings.
pub fn str_eq(a: &str, b: &str) -> (r: bool)
    ensures
        r == (a@ == b@),
{
    let alen = a.unicode_len();
    let blen = b.unicode_len();
    if alen != blen {
        proof {
            assert(a@ != b@);
        }
        return false;
    }
    let mut i: usize = 0;
    while i < alen
        invariant
            i <= alen,
            alen == a@.len(),
            alen == b@.len(),
            forall|k: int| 0 <= k < i ==> a@[k] == b@[k],
        decreases alen - i,
    {
        if a.get_char(i) != b.get_char(i) {
            proof {
                assert(a@ != b@);
            }
            return false;
        }
        i += 1;
    }
    proof {
        assert(a@ =~= b@);
    }
    true
}

/// Equality of two strings up to ASCII case.
pub fn str_eq_ignore_ascii_case(a: &str, b: &str) -> (r: bool)
    ensures
        r == (spec_lower_seq(a@) == spec_lower_seq(b@)),
{
    let alen = a.unicode_len();
    let blen = b.unicode_len();
    if alen != blen {
        proof {
            assert(spec_lower_seq(a@).len() != spec_lower_seq(b@).len());
        }
        return false;
    }
    let mut i: usize = 0;
    while i < alen
        invariant
            i <= alen,
            alen == a@.len(),
            alen == b@.len(),
            forall|k: int| 0 <= k < i ==> spec_lower_char(a@[k]) == spec_lower_char(b@[k]),
        decreases alen - i,
    {
        if lower_char(a.get_char(i)) != lower_char(b.get_char(i)) {
            proof {
                assert(spec_lower_seq(a@)[i as int] != spec_lower_seq(b@)[i as int]);
            }
            return false;
        }
        i += 1;
    }
    proof {
        assert(spec_lower_seq(a@) =~= spec_lower_seq(b@));
    }
    true
}

/// `p` is a prefix of `s`.
pub open spec fn spec_starts_with(s: Seq<char>, p: Seq<char>) -> bool {
    p.len() <= s.len() && s.subrange(0, p.len() as int) == p
}

/// Whether `p` is a prefix of `s`, character for character.
pub fn str_starts_with(s: &str, p: &str) -> (r: bool)
    ensures
        r == spec_starts_with(s@, p@),
{
    let slen = s.unicode_len();
    let plen = p.unicode_len();
    if plen > slen {
        return false;
    }
    let mut i: usize = 0;
    while i < plen
        invariant
            i <= plen,
            plen == p@.len(),
            slen == s@.len(),
            plen <= slen,
            forall|k: int| 0 <= k < i ==> s@[k] == p@[k],
        decreases plen - i,
    {
        if s.get_char(i) != p.get_char(i) {
            proof {
                assert(s@.subrange(0, p@.len() as int)[i as int] != p@[i as int]);
            }
            return false;
        }
        i += 1;
    }
    proof {
        assert(s@.subrange(0, p@.len() as int) =~= p@);
    }
    true
}

/// A word character of the shade-name pattern: letters, digits, underscore.
pub open spec fn spec_is_word_char(c: char) -> bool {
    ('a' <= c && c <= 'z') || ('A' <= c && c <= 'Z') || ('0' <= c && c <= '9') || c == '_'
}

/// A decimal digit character.
pub open spec fn spec_is_digit(c: char) -> bool {
    '0' <= c && c <= '9'
}

fn is_word_char(c: char) -> (r: bool)
    ensures
        r == spec_is_word_char(c),
{
    ('a' <= c && c <= 'z') || ('A' <= c && c <= 'Z') || ('0' <= c && c <= '9') || c == '_'
}

fn is_digit_char(c: char) -> (r: bool)
    ensures
        r == spec_is_digit(c),
{
    '0' <= c && c <= '9'
}

/// A name of the form "word, dash, digit ...": a run of word characters,
/// then `-`, then a decimal digit, as a numbered shade such as `blue-500`.
pub open spec fn spec_is_numbered_shade(s: Seq<char>) -> bool {
    exists|i: int|
        1 <= i && i + 1 < s.len() && #[trigger] s[i] == '-' && spec_is_digit(s[i + 1]) && (
        forall|k: int| 0 <= k < i ==> spec_is_word_char(#[trigger] s[k]))
}

/// Whether a candidate name is a numbered shade (`word-digits...`).
pub fn is_numbered_shade(s: &str) -> (r: bool)
    ensures
        r == spec_is_numbered_shade(s@),
{
    let len = s.unicode_len();
    let mut j: usize = 0;
    while j < len
        invariant
            j <= len,
            len == s@.len(),
            forall|k: int| 0 <= k < j ==> spec_is_word_char(s@[k]),
        decreases len - j,
    {
        let c = s.get_char(j);
        if !is_word_char(c) {
            // first non-word character: the pattern can only match here
            if j >= 1 && c == '-' && j + 1 < len && is_digit_char(s.get_char(j + 1)) {
                proof {
                    assert(1 <= j as int && j as int + 1 < s@.len() && s@[j as int] == '-'
                        && spec_is_digit(s@[j as int + 1]) && (forall|k: int|
                        0 <= k < j as int ==> spec_is_word_char(#[trigger] s@[k])));
                }
                return true;
            } else {
                proof {
                    if spec_is_numbered_shade(s@) {
                        let i = choose|i: int|
                            1 <= i && i + 1 < s@.len() && #[trigger] s@[i] == '-' && spec_is_digit(
                                s@[i + 1],
                            ) && (forall|k: int|
                                0 <= k < i ==> spec_is_word_char(#[trigger] s@[k]));
                        if i < j as int {
                            assert(spec_is_word_char(s@[i]));
                        } else if i > j as int {
                            assert(spec_is_word_char(s@[j as int]));
                        }
                        assert(false);
                    }
                }
                return false;
            }
        }
        j += 1;
    }
    proof {
        if spec_is_numbered_shade(s@) {
            let i = choose|i: int|
                1 <= i && i + 1 < s@.len() && #[trigger] s@[i] == '-' && spec_is_digit(s@[i + 1])
                    && (forall|k: int| 0 <= k < i ==> spec_is_word_char(#[trigger] s@[k]));
            assert(spec_is_word_char(s@[i]));
            assert(false);
        }
    }
    false
}

/// The unit name contains "em" (case-folded): em, rem, vmax-style names do not
/// qualify unless the two letters are adjacent, exactly as the engine checks.
pub open spec fn spec_contains_em(s: Seq<char>) -> bool {
    exists|i: int|
        0 <= i && i + 2 <= s.len() && spec_lower_char(#[trigger] s[i]) == 'e' && spec_lower_char(
            s[i + 1],
        ) == 'm'
}

/// Whether the unit name contains the letters "em", ignoring ASCII case.
pub fn contains_em(s: &str) -> (r: bool)
    ensures
        r == spec_contains_em(s@),
{
    let len = s.unicode_len();
    if len < 2 {
        return false;
    }
    let mut i: usize = 0;
    while i <= len - 2
        invariant
            2 <= len,
            len == s@.len(),
            i <= len - 1,
            forall|k: int|
                0 <= k < i ==> !(spec_lower_char(#[trigger] s@[k]) == 'e' && spec_lower_char(
                    s@[k + 1],
                ) == 'm'),
        decreases len - i,
    {
        if lower_char(s.get_char(i)) == 'e' && lower_char(s.get_char(i + 1)) == 'm' {
            return true;
        }
        i += 1;
    }
    false
}

/// `sub` occurs contiguously somewhere in `s`.
pub open spec fn spec_contains_seq(s: Seq<char>, sub: Seq<char>) -> bool {
    exists|i: int| 0 <= i && i + sub.len() <= s.len() && #[trigger] s.subrange(i, i + sub.len()) == sub
}

fn window_eq(s: &str, sub: &str, i: usize) -> (r: bool)
    requires
        s@.len() <= usize::MAX,
        i + sub@.len() <= s@.len(),
    ensures
        r == (s@.subrange(i as int, i as int + sub@.len()) == sub@),
{
    let sublen = sub.unicode_len();
    let mut j: usize = 0;
    while j < sublen
        invariant
            s@.len() <= usize::MAX,
            sublen == sub@.len(),
            i + sublen <= s@.len(),
            j <= sublen,
            forall|q: int| 0 <= q < j ==> s@[i + q] == sub@[q],
        decreases sublen - j,
    {
        if s.get_char(i + j) != sub.get_char(j) {
            proof {
                assert(s@.subrange(i as int, i as int + sub@.len())[j as int] != sub@[j as int]);
            }
            return false;
        }
        j += 1;
    }
    proof {
        assert(s@.subrange(i as int, i as int + sub@.len()) =~= sub@);
    }
    true
}

/// Whether `sub` occurs contiguously in `s`.
pub fn str_contains(s: &str, sub: &str) -> (r: bool)
    ensures
        r == spec_contains_seq(s@, sub@),
{
    let slen = s.unicode_len();
    let sublen = sub.unicode_len();
    if sublen > slen {
        proof {
            if spec_contains_seq(s@, sub@) {
                let i = choose|i: int|
                    0 <= i && i + sub@.len() <= s@.len() && #[trigger] s@.subrange(
                        i,
                        i + sub@.len(),
                    ) == sub@;
                assert(false);
            }
        }
        return false;
    }
    if sublen == 0 {
        proof {
            assert(s@.subrange(0, 0 + sub@.len() as int) =~= sub@);
            assert(0 <= 0int && 0 + sub@.len() <= s@.len() && s@.subrange(
                0,
                0 + sub@.len() as int,
            ) == sub@);
        }
        return true;
    }
    let mut i: usize = 0;
    while i <= slen - sublen
        invariant
            slen == s@.len(),
            sublen == sub@.len(),
            0 < sublen <= slen,
            i <= slen - sublen + 1,
            forall|k: int|
                0 <= k < i ==> #[trigger] s@.subrange(k, k + sub@.len()) != sub@,
        decreases slen + 1 - sublen - i,
    {
        if window_eq(s, sub, i) {
            proof {
                assert(0 <= i as int && i as int + sub@.len() <= s@.len() && s@.subrange(
                    i as int,
                    i as int + sub@.len(),
                ) == sub@);
            }
            return true;
        }
        i += 1;
    }
    proof {
        if spec_contains_seq(s@, sub@) {
            let w = choose|w: int|
                0 <= w && w + sub@.len() <= s@.len() && #[trigger] s@.subrange(
                    w,
                    w + sub@.len(),
                ) == sub@;
            assert(s@.subrange(w, w + sub@.len()) != sub@);
            assert(false);
        }
    }
    false
}

/// A character the bracketed-literal escape rewrites to `_`: ASCII whitespace
/// or a comma.
pub open spec fn spec_is_escaped_char(c: char) -> bool {
    c == ' ' || c == '\t' || c == '\n' || c == '\r' || c == ','
}

/// The bracketed-literal escape: whitespace and commas become underscores.
pub open spec fn spec_escape(s: Seq<char>) -> Seq<char> {
    s.map_values(
        |c: char|
            if spec_is_escaped_char(c) {
                '_'
            } else {
                c
            },
    )
}

/// Escapes a raw CSS expression for use inside a bracketed literal token.
pub fn escape_raw(s: &str) -> (r: String)
    ensures
        r@ == spec_escape(s@),
{
    let len = s.unicode_len();
    let mut out = String::new();
    let mut i: usize = 0;
    while i < len
        invariant
            i <= len,
            len == s@.len(),
            out@ =~= spec_escape(s@.subrange(0, i as int)),
        decreases len - i,
    {
        let c = s.get_char(i);
        if c == ' ' || c == '\t' || c == '\n' || c == '\r' || c == ',' {
            out.push('_');
        } else {
            out.push(c);
        }
        proof {
            assert(spec_escape(s@.subrange(0, i as int + 1)) =~= spec_escape(
                s@.subrange(0, i as int),
            ).push(
                if spec_is_escaped_char(s@[i as int]) {
                    '_'
                } else {
                    s@[i as int]
                },
            ));
        }
        i += 1;
    }
    proof {
        assert(s@.subrange(0, len as int) =~= s@);
    }
    out
}

/// Space-to-dash rewriting for multi-word keyword values.
pub open spec fn spec_space_to_dash(s: Seq<char>) -> Seq<char> {
    s.map_values(
        |c: char|
            if c == ' ' {
                '-'
            } else {
                c
            },
    )
}

/// Replaces every space with a dash.
pub fn space_to_dash(s: &str) -> (r: String)
    ensures
        r@ == spec_space_to_dash(s@),
{
    let len = s.unicode_len();
    let mut out = String::new();
    let mut i: usize = 0;
    while i < len
        invariant
            i <= len,
            len == s@.len(),
            out@ =~= spec_space_to_dash(s@.subrange(0, i as int)),
        decreases len - i,
    {
        let c = s.get_char(i);
        if c == ' ' {
            out.push('-');
        } else {
            out.push(c);
        }
        proof {
            assert(spec_space_to_dash(s@.subrange(0, i as int + 1)) =~= spec_space_to_dash(
                s@.subrange(0, i as int),
            ).push(
                if s@[i as int] == ' ' {
                    '-'
                } else {
                    s@[i as int]
                },
            ));
        }
        i += 1;
    }
    proof {
        assert(s@.subrange(0, len as int) =~= s@);
    }
    out
}

} // verus!
