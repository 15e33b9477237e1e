//! Redaction of credentials and of the home directory in text that Beacon logs or shows.
use crate::text::{
    chars_of, char_is_space, contains_seq, find_from, first_occurrence, is_space, lemma_first_occurrence,
    lemma_word_end_bounds, occurs_at, push_all, string_from_chars, word_end,
};
use vstd::prelude::*;

verus! {

/// The text that stands in place of a hidden value.
pub open spec fn redacted_text() -> Seq<char> {
    seq!['[', 'R', 'E', 'D', 'A', 'C', 'T', 'E', 'D', ']']
}

/// `s` from index `from` on, with every occurrence of `p` (found left to right, without
/// overlap) replaced by `r` (`str::replace`).
pub open spec fn replaced_from(s: Seq<char>, p: Seq<char>, r: Seq<char>, from: int) -> Seq<
    char,
>
    decreases s.len() - from,
{
    if from < 0 || from > s.len() || p.len() == 0 {
        Seq::empty()
    } else {
        match first_occurrence(s, p, from) {
            None => s.subrange(from, s.len() as int),
            Some(i) => {
                proof {
                    lemma_first_occurrence(s, p, from);
                }
                s.subrange(from, i) + r + replaced_from(s, p, r, i + p.len())
            },
        }
    }
}

/// `s` with every occurrence of `p` replaced by `r`.
pub open spec fn replace_all(s: Seq<char>, p: Seq<char>, r: Seq<char>) -> Seq<char> {
    replaced_from(s, p, r, 0)
}

/// `s` from index `from` on, with the value after each occurrence of `marker` (up to the next
/// white space or the end) replaced by `[REDACTED]`; the search goes on after each value.
pub open spec fn masked_from(s: Seq<char>, marker: Seq<char>, from: int) -> Seq<char>
    decreases s.len() - from,
{
    if from < 0 || from > s.len() || marker.len() == 0 {
        Seq::empty()
    } else {
        match first_occurrence(s, marker, from) {
            None => s.subrange(from, s.len() as int),
            Some(i) => {
                proof {
                    lemma_first_occurrence(s, marker, from);
                    lemma_word_end_bounds(s, i + marker.len());
                }
                let value_start = i + marker.len();
                s.subrange(from, value_start) + redacted_text() + masked_from(
                    s,
                    marker,
                    word_end(s, value_start),
                )
            },
        }
    }
}

/// One pass of value masking over the whole text.
pub open spec fn mask_values(s: Seq<char>, marker: Seq<char>) -> Seq<char> {
    masked_from(s, marker, 0)
}

/// The markers whose values are hidden, in the order in which they are handled.
pub open spec fn secret_markers() -> Seq<Seq<char>> {
    seq![
        seq!['t', 'o', 'k', 'e', 'n', '='],
        seq!['T', 'O', 'K', 'E', 'N', '='],
        seq!['p', 'a', 's', 's', 'w', 'o', 'r', 'd', '='],
        seq!['P', 'A', 'S', 'S', 'W', 'O', 'R', 'D', '='],
        seq!['c', 'o', 'o', 'k', 'i', 'e', '='],
        seq!['C', 'O', 'O', 'K', 'I', 'E', '='],
        seq!['B', 'e', 'a', 'r', 'e', 'r', ' '],
        seq!['B', 'a', 's', 'i', 'c', ' '],
    ]
}

/// The text after the masking passes for the first `n` markers.
pub open spec fn masked_by_first(s: Seq<char>, n: int) -> Seq<char>
    decreases n,
{
    if n <= 0 {
        s
    } else {
        mask_values(masked_by_first(s, n - 1), secret_markers()[n - 1])
    }
}

/// The text with the home directory, where one is given and not empty, replaced by `~`.
pub open spec fn home_replaced(input: Seq<char>, home: Option<Seq<char>>) -> Seq<char> {
    match home {
        Some(h) => if h.len() > 0 {
            replace_all(input, h, seq!['~'])
        } else {
            input
        },
        None => input,
    }
}

/// What `redact` returns: the home directory replaced by `~`, then the value after each
/// secret marker replaced by `[REDACTED]`, marker by marker.
pub open spec fn redacted(input: Seq<char>, home: Option<Seq<char>>) -> Seq<char> {
    masked_by_first(home_replaced(input, home), secret_markers().len() as int)
}

/// The view of an optional string slice.
pub open spec fn opt_str_view(home: Option<&str>) -> Option<Seq<char>> {
    match home {
        Some(h) => Some(h@),
        None => None,
    }
}

/// Appends `s[from..to]` to `out`.
fn push_range(out: &mut Vec<char>, s: &Vec<char>, from: usize, to: usize)
    requires
        from <= to <= s@.len(),
    ensures
        final(out)@ == old(out)@ + s@.subrange(from as int, to as int),
{
    let ghost start = out@;
    let mut k = from;
    while k < to
        invariant
            from <= k <= to,
            to <= s@.len(),
            out@ == start + s@.subrange(from as int, k as int),
        decreases to - k,
    {
        out.push(s[k]);
        proof {
            assert(s@.subrange(from as int, k + 1) =~= s@.subrange(from as int, k as int).push(
                s@[k as int],
            ));
        }
        k = k + 1;
    }
}

/// Replaces every occurrence of a non-empty pattern (`str::replace`).
pub fn replace_chars(s: &Vec<char>, p: &Vec<char>, r: &Vec<char>) -> (out: Vec<char>)
    requires
        p@.len() > 0,
    ensures
        out@ == replace_all(s@, p@, r@),
{
    let mut out: Vec<char> = Vec::new();
    let mut cursor: usize = 0;
    loop
        invariant_except_break
            cursor <= s@.len(),
            p@.len() > 0,
            out@ + replaced_from(s@, p@, r@, cursor as int) == replace_all(s@, p@, r@),
        ensures
            out@ == replace_all(s@, p@, r@),
        decreases s@.len() - cursor,
    {
        match find_from(s, p, cursor) {
            None => {
                push_range(&mut out, s, cursor, s.len());
                break ;
            },
            Some(i) => {
                proof {
                    lemma_first_occurrence(s@, p@, cursor as int);
                    assert(occurs_at(s@, p@, i as int));
                }
                let n = s.len();
                assert(i + p@.len() <= n);
                let ghost before = out@;
                push_range(&mut out, s, cursor, i);
                push_all(&mut out, r);
                proof {
                    assert(before + replaced_from(s@, p@, r@, cursor as int) =~= out@
                        + replaced_from(s@, p@, r@, i + p@.len()));
                }
                cursor = i + p.len();
            },
        }
    }
    out
}

/// The index of the first white space at or after `i`, or the length.
fn value_end(s: &Vec<char>, i: usize) -> (e: usize)
    requires
        i <= s@.len(),
    ensures
        e as int == word_end(s@, i as int),
        i <= e <= s@.len(),
{
    let mut e = i;
    while e < s.len() && !char_is_space(s[e])
        invariant
            i <= e <= s@.len(),
            word_end(s@, i as int) == word_end(s@, e as int),
        decreases s.len() - e,
    {
        e = e + 1;
    }
    e
}

/// One masking pass: the value after each occurrence of `marker` becomes `[REDACTED]`.
pub fn mask_chars(s: &Vec<char>, marker: &Vec<char>) -> (out: Vec<char>)
    requires
        marker@.len() > 0,
    ensures
        out@ == mask_values(s@, marker@),
{
    let hidden = chars_of("[REDACTED]");
    proof {
        reveal_strlit("[REDACTED]");
        assert(hidden@ =~= redacted_text());
    }
    let mut out: Vec<char> = Vec::new();
    let mut cursor: usize = 0;
    loop
        invariant_except_break
            cursor <= s@.len(),
            marker@.len() > 0,
            hidden@ == redacted_text(),
            out@ + masked_from(s@, marker@, cursor as int) == mask_values(s@, marker@),
        ensures
            out@ == mask_values(s@, marker@),
        decreases s@.len() - cursor,
    {
        match find_from(s, marker, cursor) {
            None => {
                push_range(&mut out, s, cursor, s.len());
                break ;
            },
            Some(i) => {
                proof {
                    lemma_first_occurrence(s@, marker@, cursor as int);
                    assert(occurs_at(s@, marker@, i as int));
                }
                let n = s.len();
                assert(i + marker@.len() <= n);
                let value_start = i + marker.len();
                let e = value_end(s, value_start);
                let ghost before = out@;
                push_range(&mut out, s, cursor, value_start);
                push_all(&mut out, &hidden);
                proof {
                    assert(before + masked_from(s@, marker@, cursor as int) =~= out@ + masked_from(
                        s@,
                        marker@,
                        e as int,
                    ));
                }
                cursor = e;
            },
        }
    }
    out
}

/// The secret markers as character vectors.
pub(crate) fn marker_list() -> (r: Vec<Vec<char>>)
    ensures
        r@.len() == secret_markers().len(),
        forall|k: int| 0 <= k < r@.len() ==> (#[trigger] r@[k])@ == secret_markers()[k],
{
    let a = chars_of("token=");
    let b = chars_of("TOKEN=");
    let c = chars_of("password=");
    let d = chars_of("PASSWORD=");
    let e = chars_of("cookie=");
    let f = chars_of("COOKIE=");
    let g = chars_of("Bearer ");
    let h = chars_of("Basic ");
    proof {
        reveal_strlit("token=");
        reveal_strlit("TOKEN=");
        reveal_strlit("password=");
        reveal_strlit("PASSWORD=");
        reveal_strlit("cookie=");
        reveal_strlit("COOKIE=");
        reveal_strlit("Bearer ");
        reveal_strlit("Basic ");
        assert(a@ =~= secret_markers()[0]);
        assert(b@ =~= secret_markers()[1]);
        assert(c@ =~= secret_markers()[2]);
        assert(d@ =~= secret_markers()[3]);
        assert(e@ =~= secret_markers()[4]);
        assert(f@ =~= secret_markers()[5]);
        assert(g@ =~= secret_markers()[6]);
        assert(h@ =~= secret_markers()[7]);
    }
    let r = vec![a, b, c, d, e, f, g, h];
    r
}

/// Every secret marker is ASCII text.
pub proof fn lemma_markers_ascii(k: int)
    requires
        0 <= k < secret_markers().len(),
    ensures
        forall|j: int|
            0 <= j < secret_markers()[k].len() ==> (#[trigger] secret_markers()[k][j] as u32)
                < 128,
{
}

/// Hides bearer and basic credentials and common secret assignments (`token=`, `password=`,
/// `cookie=`, in lower and upper case), and replaces the home directory by `~`.
pub fn redact(input: &str, home: Option<&str>) -> (r: String)
    ensures
        r@ == redacted(input@, opt_str_view(home)),
{
    let mut text = chars_of(input);
    match home {
        Some(h) => {
            let hc = chars_of(h);
            if hc.len() > 0 {
                let tilde = chars_of("~");
                proof {
                    reveal_strlit("~");
                    assert(tilde@ =~= seq!['~']);
                }
                text = replace_chars(&text, &hc, &tilde);
            }
        },
        None => {},
    }
    let ghost start = text@;
    assert(start == home_replaced(input@, opt_str_view(home)));
    let markers = marker_list();
    let mut k: usize = 0;
    while k < markers.len()
        invariant
            markers@.len() == secret_markers().len(),
            forall|j: int| 0 <= j < markers@.len() ==> (#[trigger] markers@[j])@
                == secret_markers()[j],
            k <= markers@.len(),
            text@ == masked_by_first(start, k as int),
        decreases markers.len() - k,
    {
        let m = &markers[k];
        assert(m@ == secret_markers()[k as int]);
        assert(m@.len() > 0) by {
            reveal_with_fuel(secret_markers, 1);
        }
        text = mask_chars(&text, m);
        k = k + 1;
    }
    string_from_chars(&text)
}

/// Whether no occurrence of `p` can reach into a `sep` placed between two texts: `p` holds
/// neither the first nor the last character of `sep`, and some character of `p` is not in `sep`.
pub open spec fn kept_apart(p: Seq<char>, sep: Seq<char>) -> bool {
    &&& sep.len() > 0
    &&& forall|k: int| 0 <= k < p.len() ==> p[k] != sep[0] && p[k] != sep.last()
    &&& exists|k: int| 0 <= k < p.len() && !sep.contains(p[k])
}

/// An occurrence of `p` in `a + sep + b` lies inside `a` or inside `b`.
proof fn lemma_occurrence_avoids(a: Seq<char>, sep: Seq<char>, b: Seq<char>, p: Seq<char>, i: int)
    requires
        kept_apart(p, sep),
        occurs_at(a + sep + b, p, i),
    ensures
        i + p.len() <= a.len() || i >= a.len() + sep.len(),
{
    let s = a + sep + b;
    assert forall|k: int| 0 <= k < p.len() implies p[k] == s[i + k] by {
        assert(s.subrange(i, i + p.len())[k] == s[i + k]);
    }
    if i < a.len() && i + p.len() > a.len() {
        assert(p[a.len() - i] == sep[0]);
    } else if a.len() <= i < a.len() + sep.len() && i + p.len() > a.len() + sep.len() {
        assert(p[a.len() + sep.len() - 1 - i] == sep.last());
    } else if a.len() <= i && i + p.len() <= a.len() + sep.len() {
        let k = choose|k: int| 0 <= k < p.len() && !sep.contains(p[k]);
        assert(sep[i - a.len() + k] == p[k]);
    }
}

/// An occurrence inside `a` or inside `b` of `a + sep + b`, seen in its part.
proof fn lemma_occurrence_in_part(a: Seq<char>, sep: Seq<char>, b: Seq<char>, p: Seq<char>, i: int)
    requires
        occurs_at(a + sep + b, p, i),
    ensures
        i + p.len() <= a.len() ==> occurs_at(a, p, i),
        i >= a.len() + sep.len() ==> occurs_at(b, p, i - a.len() - sep.len()),
{
    let s = a + sep + b;
    if i + p.len() <= a.len() {
        assert(s.subrange(i, i + p.len()) =~= a.subrange(i, i + p.len()));
    }
    if i >= a.len() + sep.len() {
        let d = a.len() + sep.len();
        assert(s.subrange(i, i + p.len()) =~= b.subrange(i - d, i - d + p.len()));
    }
}

/// An occurrence in a slice of `s` is an occurrence in `s`.
proof fn lemma_occurrence_in_slice(s: Seq<char>, x: int, y: int, p: Seq<char>, j: int)
    requires
        0 <= x <= y <= s.len(),
        occurs_at(s.subrange(x, y), p, j),
    ensures
        occurs_at(s, p, x + j),
{
    assert(s.subrange(x, y).subrange(j, j + p.len()) =~= s.subrange(x + j, x + j + p.len()));
}

/// Replacing `h` by `~` leaves no `h` behind.
proof fn lemma_replaced_free(s: Seq<char>, h: Seq<char>, from: int)
    requires
        h.len() > 0,
        kept_apart(h, seq!['~']),
        0 <= from <= s.len(),
    ensures
        !contains_seq(replaced_from(s, h, seq!['~'], from), h),
    decreases s.len() - from,
{
    let out = replaced_from(s, h, seq!['~'], from);
    lemma_first_occurrence(s, h, from);
    if contains_seq(out, h) {
        let j = choose|j: int| occurs_at(out, h, j);
        match first_occurrence(s, h, from) {
            None => {
                lemma_occurrence_in_slice(s, from, s.len() as int, h, j);
            },
            Some(i) => {
                let a = s.subrange(from, i);
                let b = replaced_from(s, h, seq!['~'], i + h.len());
                assert(out == a + seq!['~'] + b);
                lemma_replaced_free(s, h, i + h.len());
                lemma_occurrence_avoids(a, seq!['~'], b, h, j);
                lemma_occurrence_in_part(a, seq!['~'], b, h, j);
                if j + h.len() <= a.len() {
                    lemma_occurrence_in_slice(s, from, i, h, j);
                }
            },
        }
    }
}

/// A masking pass brings no `h` into text that has none, where `h` cannot reach into
/// `[REDACTED]`.
proof fn lemma_masked_free(s: Seq<char>, m: Seq<char>, h: Seq<char>, from: int)
    requires
        m.len() > 0,
        !contains_seq(s, h),
        kept_apart(h, redacted_text()),
        0 <= from <= s.len(),
    ensures
        !contains_seq(masked_from(s, m, from), h),
    decreases s.len() - from,
{
    let out = masked_from(s, m, from);
    lemma_first_occurrence(s, m, from);
    if contains_seq(out, h) {
        let j = choose|j: int| occurs_at(out, h, j);
        match first_occurrence(s, m, from) {
            None => {
                lemma_occurrence_in_slice(s, from, s.len() as int, h, j);
            },
            Some(i) => {
                let vs = i + m.len();
                lemma_word_end_bounds(s, vs);
                let we = word_end(s, vs);
                let a = s.subrange(from, vs);
                let b = masked_from(s, m, we);
                assert(out == a + redacted_text() + b);
                lemma_masked_free(s, m, h, we);
                lemma_occurrence_avoids(a, redacted_text(), b, h, j);
                lemma_occurrence_in_part(a, redacted_text(), b, h, j);
                if j + h.len() <= a.len() {
                    lemma_occurrence_in_slice(s, from, vs, h, j);
                }
            },
        }
    }
}

/// The masking passes bring no `h` into text that has none.
proof fn lemma_passes_free(s: Seq<char>, h: Seq<char>, n: int)
    requires
        !contains_seq(s, h),
        kept_apart(h, redacted_text()),
        0 <= n <= secret_markers().len(),
    ensures
        !contains_seq(masked_by_first(s, n), h),
    decreases n,
{
    if n > 0 {
        lemma_passes_free(s, h, n - 1);
        let t = masked_by_first(s, n - 1);
        assert(secret_markers()[n - 1].len() > 0);
        lemma_masked_free(t, secret_markers()[n - 1], h, 0);
    }
}

/// The conditions on a home directory under which its redaction is complete: it is absolute
/// and holds none of `~`, `[`, `]`.
pub open spec fn plain_home(h: Seq<char>) -> bool {
    &&& h.len() > 0
    &&& h[0] == '/'
    &&& !h.contains('~')
    &&& !h.contains('[')
    &&& !h.contains(']')
}

proof fn lemma_plain_home_apart(h: Seq<char>)
    requires
        plain_home(h),
    ensures
        kept_apart(h, seq!['~']),
        kept_apart(h, redacted_text()),
{
    assert(!seq!['~'].contains(h[0]));
    assert(!redacted_text().contains(h[0]));
    assert(seq!['~'].last() == '~');
    assert(redacted_text().last() == ']');
    assert forall|k: int| 0 <= k < h.len() implies h[k] != '~' && h[k] != '[' && h[k] != ']' by {
        if h[k] == '~' || h[k] == '[' || h[k] == ']' {
            assert(h.contains(h[k]));
        }
    }
}

/// No occurrence of an absolute home directory survives redaction, where the directory holds
/// none of `~`, `[`, `]`: each is replaced by `~`, and no later step brings one back.
pub proof fn law_redact_hides_home(input: Seq<char>, h: Seq<char>)
    requires
        plain_home(h),
    ensures
        !contains_seq(redacted(input, Some(h)), h),
{
    lemma_plain_home_apart(h);
    lemma_replaced_free(input, h, 0);
    lemma_passes_free(home_replaced(input, Some(h)), h, secret_markers().len() as int);
}

/// Whether `[REDACTED]` stands at index `j` of `s`, followed by white space or the end.
pub open spec fn redaction_at(s: Seq<char>, j: int) -> bool {
    &&& occurs_at(s, redacted_text(), j)
    &&& (j + redacted_text().len() == s.len() || is_space(s[j + redacted_text().len()]))
}

/// Whether every occurrence of `m` in `s` is followed by a redaction.
pub open spec fn marker_masked(s: Seq<char>, m: Seq<char>) -> bool {
    forall|i: int| occurs_at(s, m, i) ==> #[trigger] redaction_at(s, i + m.len())
}

/// Whether `t` is empty or begins with white space.
pub open spec fn starts_clear(t: Seq<char>) -> bool {
    t.len() == 0 || is_space(t[0])
}

/// What the masking laws need of a marker: it is not empty, it begins with a character that
/// is not white space, its last character is not in `[REDACTED]`, and it cannot reach into one.
pub open spec fn marker_shape(m: Seq<char>) -> bool {
    &&& m.len() > 0
    &&& !is_space(m[0])
    &&& !redacted_text().contains(m.last())
    &&& kept_apart(m, redacted_text())
}

proof fn lemma_markers_shape(k: int)
    requires
        0 <= k < secret_markers().len(),
    ensures
        marker_shape(secret_markers()[k]),
{
    let m = secret_markers()[k];
    let r = redacted_text();
    assert(r.last() == ']');
    assert(!r.contains(m.last()));
    assert(m[0] as u32 >= 0x42);
    assert forall|j: int| 0 <= j < m.len() implies m[j] != r[0] && m[j] != r.last() by {}
}

/// No character of `[REDACTED]` is white space.
proof fn lemma_redacted_not_space()
    ensures
        forall|k: int| 0 <= k < redacted_text().len() ==> !is_space(#[trigger] redacted_text()[k]),
{
}

/// The word after a value start ends at white space or at the end.
proof fn lemma_word_end_clear(s: Seq<char>, i: int)
    requires
        0 <= i <= s.len(),
    ensures
        word_end(s, i) == s.len() || is_space(s[word_end(s, i)]),
    decreases s.len() - i,
{
    if i < s.len() && !is_space(s[i]) {
        lemma_word_end_clear(s, i + 1);
    }
}

/// A masking pass from a word end begins with white space or is empty.
proof fn lemma_masked_starts_clear(s: Seq<char>, m: Seq<char>, we: int)
    requires
        marker_shape(m),
        0 <= we <= s.len(),
        we == s.len() || is_space(s[we]),
    ensures
        starts_clear(masked_from(s, m, we)),
{
    lemma_first_occurrence(s, m, we);
    let out = masked_from(s, m, we);
    if we < s.len() {
        match first_occurrence(s, m, we) {
            None => {
                assert(out[0] == s[we]);
            },
            Some(i) => {
                if i == we {
                    assert(s.subrange(i, i + m.len())[0] == s[i]);
                }
                lemma_word_end_bounds(s, i + m.len());
                let a = s.subrange(we, i + m.len());
                assert(out == a + redacted_text() + masked_from(s, m, word_end(s, i + m.len())));
                assert(out[0] == a[0]);
            },
        }
    }
}

/// A redaction seen in a part of a text is one in the whole.
proof fn lemma_redaction_shift(pre: Seq<char>, t: Seq<char>, j: int)
    requires
        redaction_at(t, j),
    ensures
        redaction_at(pre + t, pre.len() + j),
{
    let w = pre + t;
    let n = redacted_text().len();
    assert(w.subrange(pre.len() + j, pre.len() + j + n) =~= t.subrange(j, j + n));
}

/// A redaction placed between `a` and a text that begins clear.
proof fn lemma_redaction_between(a: Seq<char>, b: Seq<char>)
    requires
        starts_clear(b),
    ensures
        redaction_at(a + redacted_text() + b, a.len() as int),
{
    let w = a + redacted_text() + b;
    let n = redacted_text().len();
    assert(w.subrange(a.len() as int, a.len() + n as int) =~= redacted_text());
}

/// After the pass for `m`, every occurrence of `m` is followed by a redaction.
proof fn lemma_own_pass(s: Seq<char>, m: Seq<char>, from: int)
    requires
        marker_shape(m),
        0 <= from <= s.len(),
    ensures
        marker_masked(masked_from(s, m, from), m),
    decreases s.len() - from,
{
    let out = masked_from(s, m, from);
    lemma_first_occurrence(s, m, from);
    assert forall|j: int| occurs_at(out, m, j) implies #[trigger] redaction_at(out, j + m.len()) by {
        match first_occurrence(s, m, from) {
            None => {
                lemma_occurrence_in_slice(s, from, s.len() as int, m, j);
            },
            Some(i) => {
                let vs = i + m.len();
                lemma_word_end_bounds(s, vs);
                let we = word_end(s, vs);
                let a = s.subrange(from, vs);
                let b = masked_from(s, m, we);
                assert(out == a + redacted_text() + b);
                lemma_occurrence_avoids(a, redacted_text(), b, m, j);
                lemma_occurrence_in_part(a, redacted_text(), b, m, j);
                if j + m.len() <= a.len() {
                    lemma_occurrence_in_slice(s, from, vs, m, j);
                    assert(from + j == i);
                    lemma_word_end_clear(s, vs);
                    lemma_masked_starts_clear(s, m, we);
                    lemma_redaction_between(a, b);
                } else {
                    lemma_own_pass(s, m, we);
                    let d = a.len() + redacted_text().len();
                    assert(redaction_at(b, j - d + m.len()));
                    lemma_redaction_shift(a + redacted_text(), b, j - d + m.len());
                }
            },
        }
    }
}

/// A pass for another marker keeps every occurrence of `mk` followed by a redaction.
proof fn lemma_other_pass(s: Seq<char>, m: Seq<char>, mk: Seq<char>, from: int)
    requires
        marker_shape(m),
        marker_shape(mk),
        marker_masked(s, mk),
        0 <= from <= s.len(),
    ensures
        marker_masked(masked_from(s, m, from), mk),
    decreases s.len() - from,
{
    let out = masked_from(s, m, from);
    let n = redacted_text().len();
    lemma_first_occurrence(s, m, from);
    assert forall|j: int| occurs_at(out, mk, j) implies #[trigger] redaction_at(out, j + mk.len()) by {
        match first_occurrence(s, m, from) {
            None => {
                lemma_occurrence_in_slice(s, from, s.len() as int, mk, j);
                let q = from + j + mk.len();
                assert(redaction_at(s, q));
                assert(out =~= s.subrange(from, s.len() as int));
                assert(out.subrange(j + mk.len(), j + mk.len() + n) =~= s.subrange(q, q + n));
            },
            Some(i) => {
                let vs = i + m.len();
                lemma_word_end_bounds(s, vs);
                let we = word_end(s, vs);
                let a = s.subrange(from, vs);
                let b = masked_from(s, m, we);
                assert(out == a + redacted_text() + b);
                lemma_occurrence_avoids(a, redacted_text(), b, mk, j);
                lemma_occurrence_in_part(a, redacted_text(), b, mk, j);
                if j + mk.len() <= a.len() {
                    lemma_occurrence_in_slice(s, from, vs, mk, j);
                    let q = from + j + mk.len();
                    assert(redaction_at(s, q));
                    if q == vs {
                        lemma_word_end_clear(s, vs);
                        lemma_masked_starts_clear(s, m, we);
                        lemma_redaction_between(a, b);
                    } else {
                        if q + n >= vs {
                            assert(s.subrange(i, vs)[m.len() - 1] == s[vs - 1]);
                            assert(s.subrange(q, q + n)[vs - 1 - q] == s[vs - 1]);
                            assert(redacted_text().contains(m.last()));
                        }
                        assert(out.subrange(j + mk.len(), j + mk.len() + n) =~= s.subrange(q, q + n));
                        assert(out[j + mk.len() + n] == s[q + n]);
                    }
                } else {
                    lemma_other_pass(s, m, mk, we);
                    let d = a.len() + n;
                    assert(redaction_at(b, j - d + mk.len()));
                    lemma_redaction_shift(a + redacted_text(), b, j - d + mk.len());
                }
            },
        }
    }
}

/// After the first `n` passes, every occurrence of each of the first `n` markers is followed
/// by a redaction.
proof fn lemma_passes_mask(s: Seq<char>, n: int)
    requires
        0 <= n <= secret_markers().len(),
    ensures
        forall|k: int| 0 <= k < n ==> marker_masked(masked_by_first(s, n), #[trigger] secret_markers()[k]),
    decreases n,
{
    if n > 0 {
        lemma_passes_mask(s, n - 1);
        let t = masked_by_first(s, n - 1);
        let m = secret_markers()[n - 1];
        lemma_markers_shape(n - 1);
        lemma_own_pass(t, m, 0);
        assert forall|k: int| 0 <= k < n implies marker_masked(masked_by_first(s, n), #[trigger] secret_markers()[k]) by {
            if k < n - 1 {
                lemma_markers_shape(k);
                lemma_other_pass(t, m, secret_markers()[k], 0);
            }
        }
    }
}

/// After redaction, every occurrence of a secret marker is followed by `[REDACTED]` and then
/// by white space or the end of the text: no credential value survives after a marker.
pub proof fn law_redact_masks_every_secret(input: Seq<char>, home: Option<Seq<char>>)
    ensures
        forall|k: int, i: int|
            0 <= k < secret_markers().len() && occurs_at(redacted(input, home), secret_markers()[k], i)
                ==> #[trigger] redaction_at(redacted(input, home), i + secret_markers()[k].len()),
{
    let n = secret_markers().len() as int;
    lemma_passes_mask(home_replaced(input, home), n);
    assert forall|k: int, i: int|
        0 <= k < secret_markers().len() && occurs_at(redacted(input, home), secret_markers()[k], i)
        implies #[trigger] redaction_at(redacted(input, home), i + secret_markers()[k].len()) by {
        assert(marker_masked(redacted(input, home), secret_markers()[k]));
    }
}

/// A pass over text whose every occurrence of `m` is already followed by a redaction changes
/// nothing.
proof fn lemma_pass_fixed(s: Seq<char>, m: Seq<char>, from: int)
    requires
        marker_shape(m),
        marker_masked(s, m),
        0 <= from <= s.len(),
    ensures
        masked_from(s, m, from) == s.subrange(from, s.len() as int),
    decreases s.len() - from,
{
    lemma_first_occurrence(s, m, from);
    match first_occurrence(s, m, from) {
        None => {},
        Some(i) => {
            let vs = i + m.len();
            let n = redacted_text().len();
            assert(redaction_at(s, vs));
            lemma_redacted_not_space();
            assert forall|k: int| vs <= k < vs + n implies !is_space(s[k]) by {
                assert(s.subrange(vs, vs + n)[k - vs] == s[k]);
            }
            lemma_word_end_skips(s, vs, vs + n);
            lemma_pass_fixed(s, m, vs + n);
            assert(s.subrange(vs, vs + n) == redacted_text());
            assert(s.subrange(from, vs) + redacted_text() + s.subrange(vs + n, s.len() as int)
                =~= s.subrange(from, s.len() as int));
        },
    }
}

/// The word from `i` runs past a stretch of characters that are not white space.
proof fn lemma_word_end_skips(s: Seq<char>, i: int, e: int)
    requires
        0 <= i <= e <= s.len(),
        forall|k: int| i <= k < e ==> !is_space(s[k]),
        e == s.len() || is_space(s[e]),
    ensures
        word_end(s, i) == e,
    decreases e - i,
{
    if i < e {
        lemma_word_end_skips(s, i + 1, e);
    }
}

/// Passes over text in which every secret marker is already followed by a redaction change
/// nothing.
proof fn lemma_passes_fixed(s: Seq<char>, n: int)
    requires
        0 <= n <= secret_markers().len(),
        forall|k: int| 0 <= k < secret_markers().len() ==> marker_masked(s, #[trigger] secret_markers()[k]),
    ensures
        masked_by_first(s, n) == s,
    decreases n,
{
    if n > 0 {
        lemma_passes_fixed(s, n - 1);
        lemma_markers_shape(n - 1);
        lemma_pass_fixed(s, secret_markers()[n - 1], 0);
        assert(s.subrange(0, s.len() as int) =~= s);
    }
}

/// Replacing a pattern that does not occur changes nothing.
proof fn lemma_replace_absent(s: Seq<char>, p: Seq<char>, r: Seq<char>)
    requires
        p.len() > 0,
        !contains_seq(s, p),
    ensures
        replace_all(s, p, r) == s,
{
    lemma_first_occurrence(s, p, 0);
    if first_occurrence(s, p, 0) is Some {
        assert(occurs_at(s, p, first_occurrence(s, p, 0)->0));
    }
    assert(s.subrange(0, s.len() as int) =~= s);
}

/// Redacting twice gives what redacting once gives, with no home directory or with an absolute
/// one that holds none of `~`, `[`, `]`.
pub proof fn law_redact_idempotent(input: Seq<char>, home: Option<Seq<char>>)
    requires
        home matches Some(h) ==> plain_home(h),
    ensures
        redacted(redacted(input, home), home) == redacted(input, home),
{
    let y = redacted(input, home);
    let n = secret_markers().len() as int;
    lemma_passes_mask(home_replaced(input, home), n);
    match home {
        Some(h) => {
            law_redact_hides_home(input, h);
            lemma_replace_absent(y, h, seq!['~']);
        },
        None => {},
    }
    assert(home_replaced(y, home) == y);
    lemma_passes_fixed(y, n);
}

/// Text in which no secret marker occurs, with no home directory to replace, comes back
/// unchanged.
pub proof fn law_redact_leaves_clean_text(input: Seq<char>)
    requires
        forall|k: int| 0 <= k < secret_markers().len() ==> !contains_seq_any(input, k),
    ensures
        redacted(input, None) == input,
{
    assert forall|n: int| 0 <= n <= secret_markers().len() implies #[trigger] masked_by_first(
        input,
        n,
    ) == input by {
        lemma_clean_passes(input, n);
    }
}

/// Whether the `k`-th secret marker occurs in `s`.
pub open spec fn contains_seq_any(s: Seq<char>, k: int) -> bool {
    exists|i: int| occurs_at(s, secret_markers()[k], i)
}

proof fn lemma_clean_passes(input: Seq<char>, n: int)
    requires
        0 <= n <= secret_markers().len(),
        forall|k: int| 0 <= k < secret_markers().len() ==> !contains_seq_any(input, k),
    ensures
        masked_by_first(input, n) == input,
    decreases n,
{
    if n > 0 {
        lemma_clean_passes(input, n - 1);
        let m = secret_markers()[n - 1];
        assert(!contains_seq_any(input, n - 1));
        lemma_first_occurrence(input, m, 0);
        if first_occurrence(input, m, 0) is Some {
            assert(occurs_at(input, m, first_occurrence(input, m, 0)->0));
            assert(false);
        }
        assert(m.len() > 0);
        assert(input.subrange(0, input.len() as int) =~= input);
    }
}

} // verus!
