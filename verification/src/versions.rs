//! Finding a version number in a tool's version output.
use crate::text::{char_rows, chars_of, split_words, string_from_chars, words};
use vstd::prelude::*;

verus! {

/// An ASCII decimal digit.
pub open spec fn is_digit(c: char) -> bool {
    '0' <= c && c <= '9'
}

/// An ASCII letter or digit.
pub open spec fn is_alnum(c: char) -> bool {
    ('a' <= c && c <= 'z') || ('A' <= c && c <= 'Z') || is_digit(c)
}

/// A character that may stand in a version token: an ASCII letter or digit, `.`, `-`, `+`, and
/// `_` where `underscore` is set.
pub open spec fn version_char(c: char, underscore: bool) -> bool {
    is_alnum(c) || c == '.' || c == '-' || c == '+' || (underscore && c == '_')
}

/// Whether a character may stand in a version token.
pub fn is_version_char(c: char, underscore: bool) -> (r: bool)
    ensures
        r == version_char(c, underscore),
{
    ('a' <= c && c <= 'z') || ('A' <= c && c <= 'Z') || ('0' <= c && c <= '9') || c == '.' || c
        == '-' || c == '+' || (underscore && c == '_')
}

/// The first index at or after `i` that holds a version character, or the length.
pub open spec fn first_kept(s: Seq<char>, i: int, underscore: bool) -> int
    decreases s.len() - i,
{
    if i < 0 || i >= s.len() {
        if i < 0 { 0 } else { s.len() as int }
    } else if version_char(s[i], underscore) {
        i
    } else {
        first_kept(s, i + 1, underscore)
    }
}

/// One past the last index before `j` that holds a version character, or 0.
pub open spec fn last_kept_end(s: Seq<char>, j: int, underscore: bool) -> int
    decreases j,
{
    if j <= 0 || j > s.len() {
        0
    } else if version_char(s[j - 1], underscore) {
        j
    } else {
        last_kept_end(s, j - 1, underscore)
    }
}

/// `s` without the characters at either end that are not version characters (`trim_matches`).
pub open spec fn trim_version(s: Seq<char>, underscore: bool) -> Seq<char> {
    let a = first_kept(s, 0, underscore);
    if a >= s.len() {
        Seq::empty()
    } else {
        s.subrange(a, last_kept_end(s, s.len() as int, underscore))
    }
}

/// `s` without its leading `v` characters (`trim_start_matches('v')`).
pub open spec fn drop_leading_v(s: Seq<char>) -> Seq<char>
    decreases s.len(),
{
    if s.len() > 0 && s[0] == 'v' {
        drop_leading_v(s.drop_first())
    } else {
        s
    }
}

/// `s` without leading `v`s and then without a `go` prefix, where it has one.
pub open spec fn strip_version_prefix(s: Seq<char>) -> Seq<char> {
    let t = drop_leading_v(s);
    if t.len() >= 2 && t[0] == 'g' && t[1] == 'o' {
        t.subrange(2, t.len() as int)
    } else {
        t
    }
}

/// What one word contributes: its trimmed form, where that starts with a digit and holds a dot.
pub open spec fn word_version(w: Seq<char>) -> Option<Seq<char>> {
    let t = trim_version(strip_version_prefix(w), false);
    if t.len() > 0 && is_digit(t[0]) && t.contains('.') {
        Some(t)
    } else {
        None
    }
}

/// The first word, from index `k` on, that yields a version.
pub open spec fn first_word_version(ws: Seq<Seq<char>>, k: int) -> Option<Seq<char>>
    decreases ws.len() - k,
{
    if k < 0 || k >= ws.len() {
        None
    } else {
        match word_version(ws[k]) {
            Some(v) => Some(v),
            None => first_word_version(ws, k + 1),
        }
    }
}

/// The version number in a tool's output: the first white-space separated word that, without
/// leading `v`s, without a `go` prefix and without non-version characters at its ends, starts
/// with a digit and contains a dot.
pub open spec fn spec_version_number(output: Seq<char>) -> Option<Seq<char>> {
    first_word_version(words(output), 0)
}

/// A version found in an output starts with a digit, so it is neither empty nor white space.
pub proof fn lemma_version_starts_with_digit(output: Seq<char>)
    ensures
        spec_version_number(output) matches Some(v) ==> v.len() > 0 && is_digit(v[0])
            && !crate::text::all_space(v),
{
    lemma_first_word_version(words(output), 0);
    if spec_version_number(output) is Some {
        let v = spec_version_number(output)->0;
        assert(!crate::text::is_space(v[0]));
    }
}

proof fn lemma_first_word_version(ws: Seq<Seq<char>>, k: int)
    ensures
        first_word_version(ws, k) matches Some(v) ==> v.len() > 0 && is_digit(v[0]),
    decreases ws.len() - k,
{
    if 0 <= k < ws.len() && word_version(ws[k]) is None {
        lemma_first_word_version(ws, k + 1);
    }
}

fn drop_v(s: &Vec<char>) -> (r: usize)
    ensures
        r <= s@.len(),
        s@.subrange(r as int, s@.len() as int) == drop_leading_v(s@),
{
    let mut i: usize = 0;
    proof {
        assert(s@.subrange(0, s@.len() as int) =~= s@);
    }
    while i < s.len() && s[i] == 'v'
        invariant
            i <= s@.len(),
            drop_leading_v(s@) == drop_leading_v(s@.subrange(i as int, s@.len() as int)),
        decreases s.len() - i,
    {
        proof {
            assert(s@.subrange(i as int, s@.len() as int).drop_first() =~= s@.subrange(
                i + 1,
                s@.len() as int,
            ));
        }
        i = i + 1;
    }
    i
}

/// Trims the characters that are not version characters from both ends.
pub fn trim_version_chars(s: &Vec<char>, underscore: bool) -> (r: Vec<char>)
    ensures
        r@ == trim_version(s@, underscore),
{
    let mut a: usize = 0;
    while a < s.len() && !is_version_char(s[a], underscore)
        invariant
            a <= s@.len(),
            first_kept(s@, 0, underscore) == first_kept(s@, a as int, underscore),
        decreases s.len() - a,
    {
        a = a + 1;
    }
    if a == s.len() {
        return Vec::new();
    }
    let mut b: usize = s.len();
    while b > a && !is_version_char(s[b - 1], underscore)
        invariant
            a < s@.len(),
            version_char(s@[a as int], underscore),
            a < b <= s@.len(),
            last_kept_end(s@, s@.len() as int, underscore) == last_kept_end(s@, b as int, underscore),
        decreases b,
    {
        b = b - 1;
    }
    let mut out: Vec<char> = Vec::new();
    let mut k = a;
    while k < b
        invariant
            a <= k <= b,
            b <= s@.len(),
            out@ == s@.subrange(a as int, k as int),
        decreases b - k,
    {
        out.push(s[k]);
        k = k + 1;
    }
    out
}

fn version_of_word(w: &Vec<char>) -> (r: Option<Vec<char>>)
    ensures
        match (r, word_version(w@)) {
            (Some(x), Some(y)) => x@ == y,
            (None, None) => true,
            _ => false,
        },
{
    let start = drop_v(w);
    let mut rest: Vec<char> = Vec::new();
    let mut k = start;
    let skip_go = start < w.len() && w.len() - start >= 2 && w[start] == 'g' && w[start + 1] == 'o';
    if skip_go {
        k = start + 2;
    }
    while k < w.len()
        invariant
            start <= k <= w@.len(),
            skip_go ==> start + 2 <= k,
            rest@ == w@.subrange(
                if skip_go {
                    start + 2
                } else {
                    start as int
                },
                k as int,
            ),
        decreases w.len() - k,
    {
        rest.push(w[k]);
        k = k + 1;
    }
    proof {
        let t = drop_leading_v(w@);
        assert(t == w@.subrange(start as int, w@.len() as int));
        if skip_go {
            assert(rest@ =~= t.subrange(2, t.len() as int));
        } else {
            assert(rest@ =~= t);
        }
        assert(rest@ == strip_version_prefix(w@));
    }
    let trimmed = trim_version_chars(&rest, false);
    if trimmed.len() > 0 && '0' <= trimmed[0] && trimmed[0] <= '9' {
        let mut i: usize = 0;
        while i < trimmed.len()
            invariant
                i <= trimmed@.len(),
                trimmed@ == trim_version(strip_version_prefix(w@), false),
                trimmed@.len() > 0,
                is_digit(trimmed@[0]),
                forall|m: int| 0 <= m < i ==> trimmed@[m] != '.',
            decreases trimmed.len() - i,
        {
            if trimmed[i] == '.' {
                proof {
                    assert(trimmed@[i as int] == '.');
                    assert(trimmed@.contains('.'));
                }
                return Some(trimmed);
            }
            i = i + 1;
        }
    }
    None
}

/// The version number in a tool's version output, if it holds one.
pub fn version_number(output: &str) -> (r: Option<String>)
    ensures
        match (r, spec_version_number(output@)) {
            (Some(x), Some(y)) => x@ == y,
            (None, None) => true,
            _ => false,
        },
{
    let chars = chars_of(output);
    let ws = split_words(&chars);
    let mut k: usize = 0;
    while k < ws.len()
        invariant
            char_rows(ws@) == words(output@),
            k <= ws@.len(),
            first_word_version(words(output@), 0) == first_word_version(words(output@), k as int),
        decreases ws.len() - k,
    {
        assert(char_rows(ws@)[k as int] == ws@[k as int]@);
        match version_of_word(&ws[k]) {
            Some(v) => {
                return Some(string_from_chars(&v));
            },
            None => {},
        }
        k = k + 1;
    }
    None
}

} // verus!
