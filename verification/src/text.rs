//! Character-sequence helpers shared by the parsers and redactors.
use vstd::prelude::*;

verus! {

/// The Unicode `White_Space` property, as `char::is_whitespace` documents it.
pub open spec fn is_space(c: char) -> bool {
    let n = c as u32;
    (0x09 <= n && n <= 0x0d) || n == 0x20 || n == 0x85 || n == 0xa0 || n == 0x1680 || (0x2000
        <= n && n <= 0x200a) || n == 0x2028 || n == 0x2029 || n == 0x202f || n == 0x205f || n
        == 0x3000
}

/// Whether `c` is Unicode white space.
pub fn char_is_space(c: char) -> (r: bool)
    ensures
        r == is_space(c),
{
    let n = c as u32;
    (0x09 <= n && n <= 0x0d) || n == 0x20 || n == 0x85 || n == 0xa0 || n == 0x1680 || (0x2000
        <= n && n <= 0x200a) || n == 0x2028 || n == 0x2029 || n == 0x202f || n == 0x205f || n
        == 0x3000
}

/// The characters of a string slice, in order.
pub fn chars_of(s: &str) -> (r: Vec<char>)
    ensures
        r@ == s@,
{
    let n = s.unicode_len();
    let mut out: Vec<char> = Vec::new();
    let mut i: usize = 0;
    while i < n
        invariant
            n == s@.len(),
            i <= n,
            out@ == s@.subrange(0, i as int),
        decreases n - i,
    {
        out.push(s.get_char(i));
        i = i + 1;
    }
    out
}

/// Builds a `String` from characters (std's `FromIterator<char>` for `String`).
#[verifier::external_body]
pub(crate) fn string_from_chars(chars: &Vec<char>) -> (r: String)
    ensures
        r@ == chars@,
{
    chars.iter().collect()
}

/// Whether `p` occurs in `s` starting at index `i`.
pub open spec fn occurs_at<A>(s: Seq<A>, p: Seq<A>, i: int) -> bool {
    0 <= i && i + p.len() <= s.len() && s.subrange(i, i + p.len()) == p
}

/// Whether `p` occurs anywhere in `s`.
pub open spec fn contains_seq<A>(s: Seq<A>, p: Seq<A>) -> bool {
    exists|i: int| occurs_at(s, p, i)
}

/// The first index at or after `from` where `p` occurs in `s`.
pub open spec fn first_occurrence<A>(s: Seq<A>, p: Seq<A>, from: int) -> Option<int>
    decreases s.len() + 1 - from,
{
    if from < 0 || from + p.len() > s.len() {
        None
    } else if occurs_at(s, p, from) {
        Some(from)
    } else {
        first_occurrence(s, p, from + 1)
    }
}

/// `first_occurrence` finds the first match and only a match.
pub proof fn lemma_first_occurrence<A>(s: Seq<A>, p: Seq<A>, from: int)
    requires
        0 <= from,
    ensures
        first_occurrence(s, p, from) matches Some(i) ==> from <= i && occurs_at(s, p, i) && (
        forall|j: int| from <= j < i ==> !occurs_at(s, p, j)),
        first_occurrence(s, p, from) is None ==> forall|j: int| from <= j ==> !occurs_at(s, p, j),
    decreases s.len() + 1 - from,
{
    if from + p.len() > s.len() {
    } else if occurs_at(s, p, from) {
    } else {
        lemma_first_occurrence(s, p, from + 1);
        assert forall|j: int| from <= j && first_occurrence(s, p, from) is None implies !occurs_at(
            s,
            p,
            j,
        ) by {
            if j == from {
            }
        }
    }
}

/// Whether `p` occurs in `s` at index `i`.
pub fn matches_at(s: &Vec<char>, p: &Vec<char>, i: usize) -> (r: bool)
    ensures
        r == occurs_at(s@, p@, i as int),
{
    if i > s.len() || p.len() > s.len() - i {
        return false;
    }
    let mut k: usize = 0;
    while k < p.len()
        invariant
            i + p@.len() <= s@.len(),
            k <= p@.len(),
            forall|m: int| 0 <= m < k ==> s@[i + m] == p@[m],
        decreases p.len() - k,
    {
        assert(i + k < s.len());
        if s[i + k] != p[k] {
            assert(s@.subrange(i as int, i + p@.len())[k as int] != p@[k as int]);
            return false;
        }
        k = k + 1;
    }
    assert(s@.subrange(i as int, i + p@.len()) =~= p@);
    true
}

/// The first index at or after `from` where `p` occurs in `s`.
pub fn find_from(s: &Vec<char>, p: &Vec<char>, from: usize) -> (r: Option<usize>)
    ensures
        r matches Some(i) ==> first_occurrence(s@, p@, from as int) == Some(i as int),
        r is None ==> first_occurrence(s@, p@, from as int) is None,
{
    let mut i = from;
    while i <= s.len() && p.len() <= s.len() - i
        invariant
            from <= i,
            first_occurrence(s@, p@, from as int) == first_occurrence(s@, p@, i as int),
        decreases s.len() + 1 - i,
    {
        if matches_at(s, p, i) {
            return Some(i);
        }
        proof {
            if p@.len() == 0 {
                assert(s@.subrange(i as int, i as int) =~= p@);
            }
        }
        i = i + 1;
    }
    None
}

/// Whether `p` occurs anywhere in `s`.
pub fn contains_chars(s: &Vec<char>, p: &Vec<char>) -> (r: bool)
    ensures
        r == contains_seq(s@, p@),
{
    let found = find_from(s, p, 0);
    proof {
        lemma_first_occurrence(s@, p@, 0);
    }
    found.is_some()
}


/// What `str::to_lowercase` returns: the Unicode lower-case mapping of each character.
pub uninterp spec fn unicode_lowercase(s: Seq<char>) -> Seq<char>;

/// ASCII text with each upper-case letter replaced by its lower-case letter.
pub open spec fn ascii_lowercase(s: Seq<char>) -> Seq<char> {
    s.map_values(
        |c: char|
            if 'A' <= c && c <= 'Z' {
                ((c as u32) + 32) as char
            } else {
                c
            },
    )
}

/// `str::to_lowercase`. The contract names the result, and states what the documentation of
/// `char::to_lowercase` gives for ASCII text: each upper-case ASCII letter becomes its
/// lower-case letter and every other ASCII character stays as it is.
#[verifier::external_body]
pub(crate) fn to_lowercase(s: &str) -> (r: String)
    ensures
        r@ == unicode_lowercase(s@),
        (forall|i: int| 0 <= i < s@.len() ==> (s@[i] as u32) < 128) ==> r@ == ascii_lowercase(s@),
{
    s.to_lowercase()
}

/// Whether `s` starts with `p`.
pub fn starts_with_chars(s: &Vec<char>, p: &Vec<char>) -> (r: bool)
    ensures
        r == occurs_at(s@, p@, 0),
{
    matches_at(s, p, 0)
}

/// Whether two character vectors hold the same characters.
pub fn chars_eq(a: &Vec<char>, b: &Vec<char>) -> (r: bool)
    ensures
        r == (a@ == b@),
{
    if a.len() != b.len() {
        return false;
    }
    let mut i: usize = 0;
    while i < a.len()
        invariant
            a@.len() == b@.len(),
            i <= a@.len(),
            forall|k: int| 0 <= k < i ==> a@[k] == b@[k],
        decreases a.len() - i,
    {
        if a[i] != b[i] {
            return false;
        }
        i = i + 1;
    }
    assert(a@ =~= b@);
    true
}

/// The two character vectors one after the other.
pub fn concat_chars(a: &Vec<char>, b: &Vec<char>) -> (r: Vec<char>)
    ensures
        r@ == a@ + b@,
{
    let mut out: Vec<char> = Vec::new();
    push_all(&mut out, a);
    push_all(&mut out, b);
    assert(out@ =~= a@ + b@);
    out
}

/// A copy of a character vector.
pub fn copy_chars(a: &Vec<char>) -> (r: Vec<char>)
    ensures
        r@ == a@,
{
    let mut out: Vec<char> = Vec::new();
    push_all(&mut out, a);
    assert(out@ =~= a@);
    out
}

/// Whether two string slices hold the same characters.
pub fn str_eq(a: &str, b: &str) -> (r: bool)
    ensures
        r == (a@ == b@),
{
    let x = chars_of(a);
    let y = chars_of(b);
    if x.len() != y.len() {
        return false;
    }
    let mut i: usize = 0;
    while i < x.len()
        invariant
            x@ == a@,
            y@ == b@,
            x@.len() == y@.len(),
            i <= x@.len(),
            forall|m: int| 0 <= m < i ==> x@[m] == y@[m],
        decreases x.len() - i,
    {
        if x[i] != y[i] {
            return false;
        }
        i = i + 1;
    }
    assert(x@ =~= y@);
    true
}

/// Whether every character of `s` is white space (so that `s.trim()` is empty).
pub open spec fn all_space(s: Seq<char>) -> bool {
    forall|i: int| 0 <= i < s.len() ==> is_space(s[i])
}

/// Whether every character of a string slice is white space.
pub fn str_all_space(s: &str) -> (r: bool)
    ensures
        r == all_space(s@),
{
    let chars = chars_of(s);
    let mut i: usize = 0;
    while i < chars.len()
        invariant
            chars@ == s@,
            i <= chars@.len(),
            forall|k: int| 0 <= k < i ==> is_space(chars@[k]),
        decreases chars.len() - i,
    {
        if !char_is_space(chars[i]) {
            return false;
        }
        i = i + 1;
    }
    true
}

/// Appends the characters of `tail` to `out`.
pub fn push_all(out: &mut Vec<char>, tail: &Vec<char>)
    ensures
        final(out)@ == old(out)@ + tail@,
{
    let ghost start = out@;
    let mut k: usize = 0;
    while k < tail.len()
        invariant
            k <= tail@.len(),
            out@ == start + tail@.subrange(0, k as int),
        decreases tail.len() - k,
    {
        out.push(tail[k]);
        k = k + 1;
    }
    assert(tail@.subrange(0, tail@.len() as int) =~= tail@);
}

/// The two string slices one after the other.
pub fn concat_str(a: &str, b: &str) -> (r: String)
    ensures
        r@ == a@ + b@,
{
    let mut out = chars_of(a);
    let tail = chars_of(b);
    push_all(&mut out, &tail);
    string_from_chars(&out)
}

/// The three string slices one after another.
pub fn concat3(a: &str, b: &str, c: &str) -> (r: String)
    ensures
        r@ == a@ + b@ + c@,
{
    let mut out = chars_of(a);
    let mid = chars_of(b);
    let tail = chars_of(c);
    push_all(&mut out, &mid);
    push_all(&mut out, &tail);
    string_from_chars(&out)
}

/// The first index at or after `i` that holds no white space, or the length.
pub open spec fn skip_space(s: Seq<char>, i: int) -> int
    decreases s.len() - i,
{
    if i < 0 || i >= s.len() {
        if i < 0 { 0 } else { s.len() as int }
    } else if is_space(s[i]) {
        skip_space(s, i + 1)
    } else {
        i
    }
}

/// The first index at or after `i` that holds white space, or the length.
pub open spec fn word_end(s: Seq<char>, i: int) -> int
    decreases s.len() - i,
{
    if i < 0 || i >= s.len() {
        if i < 0 { 0 } else { s.len() as int }
    } else if is_space(s[i]) {
        i
    } else {
        word_end(s, i + 1)
    }
}

/// The white-space separated words of `s` from index `i` on (`split_whitespace`).
pub open spec fn words_from(s: Seq<char>, i: int) -> Seq<Seq<char>>
    decreases s.len() - i,
{
    let j = skip_space(s, i);
    if i < 0 || j >= s.len() {
        Seq::empty()
    } else {
        let e = word_end(s, j);
        if e <= i || e > s.len() {
            Seq::empty()
        } else {
            seq![s.subrange(j, e)] + words_from(s, e)
        }
    }
}

/// The white-space separated words of `s`.
pub open spec fn words(s: Seq<char>) -> Seq<Seq<char>> {
    words_from(s, 0)
}

proof fn lemma_skip_space(s: Seq<char>, i: int)
    requires
        0 <= i <= s.len(),
    ensures
        i <= skip_space(s, i) <= s.len(),
        skip_space(s, i) < s.len() ==> !is_space(s[skip_space(s, i)]),
    decreases s.len() - i,
{
    if i < s.len() && is_space(s[i]) {
        lemma_skip_space(s, i + 1);
    }
}

/// A word that starts at `i` ends at or after `i`, within the text.
pub proof fn lemma_word_end_bounds(s: Seq<char>, i: int)
    requires
        0 <= i <= s.len(),
    ensures
        i <= word_end(s, i) <= s.len(),
    decreases s.len() - i,
{
    if i < s.len() && !is_space(s[i]) {
        lemma_word_end_bounds(s, i + 1);
    }
}

proof fn lemma_word_end(s: Seq<char>, i: int)
    requires
        0 <= i < s.len(),
        !is_space(s[i]),
    ensures
        i < word_end(s, i) <= s.len(),
    decreases s.len() - i,
{
    if i + 1 < s.len() && !is_space(s[i + 1]) {
        lemma_word_end(s, i + 1);
    } else if i + 1 < s.len() {
        assert(word_end(s, i + 1) == i + 1);
    } else {
        assert(word_end(s, i + 1) == s.len());
    }
}


/// Every word is non-empty and starts with a character that is not white space.
pub proof fn lemma_words_not_blank(s: Seq<char>, k: int)
    requires
        0 <= k < words(s).len(),
    ensures
        words(s)[k].len() > 0,
        !is_space(words(s)[k][0]),
        !all_space(words(s)[k]),
{
    lemma_words_from_not_blank(s, 0, k);
}

proof fn lemma_words_from_not_blank(s: Seq<char>, i: int, k: int)
    requires
        0 <= i,
        0 <= k < words_from(s, i).len(),
    ensures
        words_from(s, i)[k].len() > 0,
        !is_space(words_from(s, i)[k][0]),
        !all_space(words_from(s, i)[k]),
    decreases s.len() - i,
{
    let j = skip_space(s, i);
    if i <= s.len() {
        lemma_skip_space(s, i);
    }
    if j < s.len() {
        lemma_word_end(s, j);
        let e = word_end(s, j);
        if k > 0 {
            lemma_words_from_not_blank(s, e, k - 1);
        } else {
            assert(words_from(s, i)[0] == s.subrange(j, e));
        }
    }
}

/// The character sequences of a list of character vectors.
pub open spec fn char_rows(v: Seq<Vec<char>>) -> Seq<Seq<char>> {
    v.map_values(|w: Vec<char>| w@)
}

/// The white-space separated words of a character sequence, in order.
pub fn split_words(s: &Vec<char>) -> (r: Vec<Vec<char>>)
    ensures
        char_rows(r@) == words(s@),
{
    let mut out: Vec<Vec<char>> = Vec::new();
    let mut i: usize = 0;
    while i < s.len()
        invariant
            i <= s@.len(),
            char_rows(out@) + words_from(s@, i as int) == words(s@),
        decreases s.len() - i,
    {
        let ghost start = i as int;
        while i < s.len() && char_is_space(s[i])
            invariant
                start <= i <= s@.len(),
                skip_space(s@, start) == skip_space(s@, i as int),
            decreases s.len() - i,
        {
            i = i + 1;
        }
        proof {
            lemma_skip_space(s@, start);
        }
        if i == s.len() {
            proof {
                assert(words_from(s@, start) =~= Seq::<Seq<char>>::empty());
                assert(words_from(s@, i as int) =~= Seq::<Seq<char>>::empty());
            }
        } else {
            let j = i;
            let mut word: Vec<char> = Vec::new();
            while i < s.len() && !char_is_space(s[i])
                invariant
                    j <= i <= s@.len(),
                    j < s@.len(),
                    word@ == s@.subrange(j as int, i as int),
                    word_end(s@, j as int) == word_end(s@, i as int),
                decreases s.len() - i,
            {
                word.push(s[i]);
                i = i + 1;
            }
            proof {
                lemma_word_end(s@, j as int);
                let ghost ws = words_from(s@, start);
                assert(ws == seq![s@.subrange(j as int, i as int)] + words_from(s@, i as int));
                assert(char_rows(out@).push(word@) + words_from(s@, i as int) =~= char_rows(out@)
                    + ws);
            }
            let ghost before = out@;
            let ghost w = word@;
            out.push(word);
            proof {
                assert(char_rows(out@) =~= char_rows(before).push(w));
            }
        }
    }
    proof {
        assert(words_from(s@, i as int) =~= Seq::<Seq<char>>::empty());
        assert(char_rows(out@) + Seq::<Seq<char>>::empty() =~= char_rows(out@));
    }
    out
}


/// The index of the first `\n` at or after `i`, or the length.
pub open spec fn newline_at_or_after(s: Seq<char>, i: int) -> int
    decreases s.len() - i,
{
    if i < 0 || i >= s.len() {
        if i < 0 { 0 } else { s.len() as int }
    } else if s[i] == '\n' {
        i
    } else {
        newline_at_or_after(s, i + 1)
    }
}

/// The next newline lies between `i` and the end.
pub proof fn lemma_newline_bounds(s: Seq<char>, i: int)
    requires
        0 <= i <= s.len(),
    ensures
        i <= newline_at_or_after(s, i) <= s.len(),
    decreases s.len() - i,
{
    if i < s.len() && s[i] != '\n' {
        lemma_newline_bounds(s, i + 1);
    }
}

/// A line without its trailing `\r`, where it has one.
pub open spec fn without_cr(line: Seq<char>) -> Seq<char> {
    if line.len() > 0 && line.last() == '\r' {
        line.drop_last()
    } else {
        line
    }
}

/// The lines of `s` from index `i` on (`str::lines`): split at `\n`, each without a trailing
/// `\r`, and no empty line after a final `\n`.
pub open spec fn lines_from(s: Seq<char>, i: int) -> Seq<Seq<char>>
    decreases s.len() - i,
{
    if i < 0 || i >= s.len() {
        Seq::empty()
    } else {
        let j = newline_at_or_after(s, i);
        proof {
            lemma_newline_bounds(s, i);
        }
        let rest = if j < s.len() {
            lines_from(s, j + 1)
        } else {
            Seq::empty()
        };
        seq![without_cr(s.subrange(i, j))] + rest
    }
}

/// The lines of `s`.
pub open spec fn lines(s: Seq<char>) -> Seq<Seq<char>> {
    lines_from(s, 0)
}

/// The lines of a character sequence, in order.
pub fn split_lines(s: &Vec<char>) -> (r: Vec<Vec<char>>)
    ensures
        char_rows(r@) == lines(s@),
{
    let mut out: Vec<Vec<char>> = Vec::new();
    let mut i: usize = 0;
    while i < s.len()
        invariant
            i <= s@.len(),
            char_rows(out@) + lines_from(s@, i as int) == lines(s@),
        decreases s.len() - i,
    {
        let start = i;
        let mut line: Vec<char> = Vec::new();
        while i < s.len() && s[i] != '\n'
            invariant
                start <= i <= s@.len(),
                start < s@.len(),
                line@ == s@.subrange(start as int, i as int),
                newline_at_or_after(s@, start as int) == newline_at_or_after(s@, i as int),
            decreases s.len() - i,
        {
            line.push(s[i]);
            i = i + 1;
        }
        let ghost raw = line@;
        if line.len() > 0 && line[line.len() - 1] == '\r' {
            line.pop();
            proof {
                assert(line@ =~= raw.drop_last());
            }
        }
        let ghost before = out@;
        let ghost lv = line@;
        out.push(line);
        proof {
            assert(char_rows(out@) =~= char_rows(before).push(lv));
            assert(lv == without_cr(s@.subrange(start as int, i as int)));
            assert(char_rows(out@) + lines_from(s@, i + 1) =~= char_rows(before) + lines_from(
                s@,
                start as int,
            ));
        }
        if i < s.len() {
            i = i + 1;
        } else {
            proof {
                assert(lines_from(s@, i + 1) =~= Seq::<Seq<char>>::empty());
                assert(lines_from(s@, i as int) =~= Seq::<Seq<char>>::empty());
            }
        }
    }
    proof {
        assert(lines_from(s@, i as int) =~= Seq::<Seq<char>>::empty());
        assert(char_rows(out@) =~= char_rows(out@) + lines_from(s@, i as int));
    }
    out
}

} // verus!
