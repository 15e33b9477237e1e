//! What Beacon makes of a finished child process, and the redactor that filters verbose child
//! output while it streams.
use crate::command::{shown_command, views, CommandSpec};
use crate::redact::{opt_str_view, redact, redacted, redacted_text, secret_markers};
use crate::text::{
    char_is_space, chars_of, contains_seq, first_occurrence, is_space, lemma_first_occurrence, occurs_at,
    push_all, string_from_chars,
};
use vstd::prelude::*;
use vstd::string::StringSliceAdditionalSpecFns;

verus! {

// ---------------------------------------------------------------------------------------------
// Finished commands
// ---------------------------------------------------------------------------------------------
/// The trimmed output of a command that Beacon accepted.
pub struct CommandOutput {
    pub stdout: String,
    pub stderr: String,
}

/// What `String::from_utf8_lossy` makes of a byte sequence.
pub uninterp spec fn utf8_lossy(bytes: Seq<u8>) -> Seq<char>;

/// Decodes bytes as UTF-8, with U+FFFD in place of each invalid sequence
/// (`String::from_utf8_lossy`). The contract only names the result.
#[verifier::external_body]
fn decode_lossy(bytes: &Vec<u8>) -> (r: String)
    ensures
        r@ == utf8_lossy(bytes@),
{
    String::from_utf8_lossy(bytes.as_slice()).into_owned()
}

/// The first index at or after `i` that holds no white space, or the length.
pub open spec fn trim_start_at(s: Seq<char>, i: int) -> int
    decreases s.len() - i,
{
    if i < 0 || i >= s.len() {
        if i < 0 { 0 } else { s.len() as int }
    } else if is_space(s[i]) {
        trim_start_at(s, i + 1)
    } else {
        i
    }
}

/// One past the last index before `j` that holds no white space, or 0.
pub open spec fn trim_end_at(s: Seq<char>, j: int) -> int
    decreases j,
{
    if j <= 0 || j > s.len() {
        0
    } else if is_space(s[j - 1]) {
        trim_end_at(s, j - 1)
    } else {
        j
    }
}

/// `s` without white space at either end (`str::trim`).
pub open spec fn trimmed(s: Seq<char>) -> Seq<char> {
    let a = trim_start_at(s, 0);
    if a >= s.len() {
        Seq::empty()
    } else {
        s.subrange(a, trim_end_at(s, s.len() as int))
    }
}

/// `s` without white space at either end.
pub fn trim_chars(s: &Vec<char>) -> (r: Vec<char>)
    ensures
        r@ == trimmed(s@),
{
    let mut a: usize = 0;
    while a < s.len() && char_is_space(s[a])
        invariant
            a <= s@.len(),
            trim_start_at(s@, 0) == trim_start_at(s@, a as int),
        decreases s.len() - a,
    {
        a = a + 1;
    }
    if a == s.len() {
        return Vec::new();
    }
    let mut b: usize = s.len();
    while b > a && char_is_space(s[b - 1])
        invariant
            a < s@.len(),
            !is_space(s@[a as int]),
            a < b <= s@.len(),
            trim_end_at(s@, s@.len() as int) == trim_end_at(s@, b as int),
        decreases b,
    {
        b = b - 1;
    }
    let mut out: Vec<char> = Vec::new();
    let mut k = a;
    while k < b
        invariant
            a <= k <= b,
            b <= s@.len(),
            out@ == s@.subrange(a as int, k as int),
        decreases b - k,
    {
        out.push(s[k]);
        k = k + 1;
    }
    out
}

/// Whether Beacon accepts a finished process: it succeeded, or it exited with a code that the
/// command lists as accepted.
pub open spec fn exit_accepted(success: bool, code: Option<i32>, accepted: Seq<i32>) -> bool {
    success || (code matches Some(c) && accepted.contains(c))
}

/// The error message for a refused process, before redaction.
pub open spec fn failure_message(
    shown: Seq<char>,
    status_text: Seq<char>,
    stderr: Seq<char>,
) -> Seq<char> {
    shown + seq![' ', 'f', 'a', 'i', 'l', 'e', 'd', ' ', '('] + status_text + seq![')', ':', ' ']
        + stderr
}

fn code_listed(accepted: &Vec<i32>, code: i32) -> (r: bool)
    ensures
        r == accepted@.contains(code),
{
    let mut i: usize = 0;
    while i < accepted.len()
        invariant
            i <= accepted@.len(),
            forall|k: int| 0 <= k < i ==> accepted@[k] != code,
        decreases accepted.len() - i,
    {
        if accepted[i] == code {
            assert(accepted@[i as int] == code);
            return true;
        }
        i = i + 1;
    }
    false
}

/// What Beacon makes of a finished process: the trimmed, lossily decoded output where the exit
/// is accepted, else the redacted failure message `<command> failed (<status>): <stderr>`.
/// `status_text` is how the exit status displays itself.
pub fn command_output(
    spec: &CommandSpec,
    success: bool,
    code: Option<i32>,
    status_text: &str,
    stdout: &Vec<u8>,
    stderr: &Vec<u8>,
    home: Option<&str>,
) -> (r: Result<CommandOutput, String>)
    ensures
        r is Ok <==> exit_accepted(success, code, spec.accepted_exit_codes@),
        r matches Ok(o) ==> o.stdout@ == trimmed(utf8_lossy(stdout@)) && o.stderr@ == trimmed(
            utf8_lossy(stderr@),
        ),
        r matches Err(m) ==> m@ == redacted(
            failure_message(
                shown_command(spec.program@, views(spec.args@)),
                status_text@,
                trimmed(utf8_lossy(stderr@)),
            ),
            opt_str_view(home),
        ),
{
    let out_text = decode_lossy(stdout);
    let err_text = decode_lossy(stderr);
    let out_chars = trim_chars(&chars_of(out_text.as_str()));
    let err_chars = trim_chars(&chars_of(err_text.as_str()));
    let accepted = success || match code {
        Some(c) => code_listed(&spec.accepted_exit_codes, c),
        None => false,
    };
    if accepted {
        return Ok(
            CommandOutput { stdout: string_from_chars(&out_chars), stderr: string_from_chars(&err_chars) },
        );
    }
    let shown = spec.display();
    let mut message = chars_of(shown.as_str());
    let middle = chars_of(" failed (");
    let status = chars_of(status_text);
    let tail = chars_of("): ");
    proof {
        reveal_strlit(" failed (");
        reveal_strlit("): ");
        assert(middle@ =~= seq![' ', 'f', 'a', 'i', 'l', 'e', 'd', ' ', '(']);
        assert(tail@ =~= seq![')', ':', ' ']);
    }
    push_all(&mut message, &middle);
    push_all(&mut message, &status);
    push_all(&mut message, &tail);
    push_all(&mut message, &err_chars);
    let text = string_from_chars(&message);
    Err(redact(text.as_str(), home))
}

/// A line of verbose child output as Beacon shows it: redacted like every log line.
pub fn sanitize_verbose_line(line: &str, home: Option<&str>) -> (r: String)
    ensures
        r@ == redacted(line@, opt_str_view(home)),
{
    redact(line, home)
}

// ---------------------------------------------------------------------------------------------
// Streaming redaction
// ---------------------------------------------------------------------------------------------
/// An ASCII white-space byte (`u8::is_ascii_whitespace`).
pub open spec fn is_ascii_space(b: u8) -> bool {
    b == 0x20u8 || b == 0x09u8 || b == 0x0au8 || b == 0x0cu8 || b == 0x0du8
}

/// The bytes of ASCII text.
pub open spec fn ascii_bytes(s: Seq<char>) -> Seq<u8> {
    s.map_values(|c: char| c as u8)
}

/// The patterns that the streaming redactor looks for: each secret marker (whose value is
/// hidden) and, where it is not empty, the home directory (replaced by `~`).
pub open spec fn stream_patterns(home: Option<Seq<u8>>) -> Seq<(Seq<u8>, bool)> {
    let secrets = Seq::new(
        secret_markers().len(),
        |k: int| (ascii_bytes(secret_markers()[k]), true),
    );
    match home {
        Some(h) => if h.len() > 0 {
            secrets.push((h, false))
        } else {
            secrets
        },
        None => secrets,
    }
}

/// The longest pattern length less one, over the first `n` patterns (0 for none).
pub open spec fn keep_of(pats: Seq<(Seq<u8>, bool)>, n: int) -> int
    decreases n,
{
    if n <= 0 {
        0
    } else {
        let prev = keep_of(pats, n - 1);
        let here = if pats[n - 1].0.len() > 0 {
            pats[n - 1].0.len() - 1
        } else {
            0
        };
        if here > prev {
            here
        } else {
            prev
        }
    }
}

/// How many bytes the redactor holds back when no pattern is complete: one less than the
/// longest pattern, so that a pattern split across chunks is still seen whole.
pub open spec fn keep_len(pats: Seq<(Seq<u8>, bool)>) -> int {
    keep_of(pats, pats.len() as int)
}

/// Among the first `n` patterns, the earliest complete occurrence in `p` as (index, pattern),
/// the earlier pattern winning a tie.
pub open spec fn earliest_of(p: Seq<u8>, pats: Seq<(Seq<u8>, bool)>, n: int) -> Option<
    (int, int),
>
    decreases n,
{
    if n <= 0 {
        None
    } else {
        let prev = earliest_of(p, pats, n - 1);
        match first_occurrence(p, pats[n - 1].0, 0) {
            None => prev,
            Some(i) => match prev {
                None => Some((i, n - 1)),
                Some(best) => if i < best.0 {
                    Some((i, n - 1))
                } else {
                    prev
                },
            },
        }
    }
}

/// The first index at or after `i` that holds an ASCII white-space byte.
pub open spec fn first_space_from(p: Seq<u8>, i: int) -> Option<int>
    decreases p.len() - i,
{
    if i < 0 || i >= p.len() {
        None
    } else if is_ascii_space(p[i]) {
        Some(i)
    } else {
        first_space_from(p, i + 1)
    }
}

/// `first_space_from` finds the first white space and only white space.
pub proof fn lemma_first_space(p: Seq<u8>, i: int)
    requires
        0 <= i,
    ensures
        first_space_from(p, i) matches Some(e) ==> i <= e < p.len() && is_ascii_space(p[e]) && (
        forall|j: int| i <= j < e ==> !is_ascii_space(p[j])),
        first_space_from(p, i) is None ==> forall|j: int| i <= j < p.len() ==> !is_ascii_space(
            p[j],
        ),
    decreases p.len() - i,
{
    if i < p.len() && !is_ascii_space(p[i]) {
        lemma_first_space(p, i + 1);
    }
}

/// `earliest_of` finds a complete occurrence, the earliest one.
pub proof fn lemma_earliest(p: Seq<u8>, pats: Seq<(Seq<u8>, bool)>, n: int)
    requires
        0 <= n <= pats.len(),
    ensures
        earliest_of(p, pats, n) matches Some(found) ==> 0 <= found.1 < n && 0 <= found.0
            && occurs_at(p, pats[found.1].0, found.0),
        earliest_of(p, pats, n) is None ==> forall|k: int|
            0 <= k < n ==> (#[trigger] first_occurrence(p, pats[k].0, 0)) is None,
    decreases n,
{
    if n > 0 {
        lemma_earliest(p, pats, n - 1);
        lemma_first_occurrence(p, pats[n - 1].0, 0);
    }
}

/// What the redactor does with its buffer `p`, as (bytes it emits, bytes it keeps, whether it
/// is inside a secret value afterwards). Inside a secret, bytes up to the next white space are
/// dropped and the white space is emitted; outside, the earliest pattern is handled (a secret
/// marker is emitted with `[REDACTED]` after it, the home directory becomes `~`); where no
/// pattern is complete, all but the last `keep_len` bytes are emitted.
pub open spec fn drained(p: Seq<u8>, hiding: bool, pats: Seq<(Seq<u8>, bool)>) -> (
    Seq<u8>,
    Seq<u8>,
    bool,
)
    decreases p.len(),
{
    if hiding {
        match first_space_from(p, 0) {
            Some(e) => {
                proof {
                    lemma_first_space(p, 0);
                }
                let rest = drained(p.subrange(e + 1, p.len() as int), false, pats);
                (seq![p[e]] + rest.0, rest.1, rest.2)
            },
            None => (Seq::empty(), Seq::empty(), true),
        }
    } else {
        match earliest_of(p, pats, pats.len() as int) {
            Some(found) => {
                proof {
                    lemma_earliest(p, pats, pats.len() as int);
                }
                let pat = pats[found.1].0;
                if pat.len() == 0 {
                    (Seq::empty(), p, false)
                } else {
                    let rest = drained(
                        p.subrange(found.0 + pat.len(), p.len() as int),
                        pats[found.1].1,
                        pats,
                    );
                    let shown = if pats[found.1].1 {
                        pat + ascii_bytes(redacted_text())
                    } else {
                        seq![126u8]
                    };
                    (p.subrange(0, found.0) + shown + rest.0, rest.1, rest.2)
                }
            },
            None => {
                let keep = keep_len(pats);
                if p.len() > keep {
                    (
                        p.subrange(0, p.len() - keep),
                        p.subrange(p.len() - keep, p.len() as int),
                        false,
                    )
                } else {
                    (Seq::empty(), p, false)
                }
            },
        }
    }
}

/// Filters a child's output chunk by chunk: hides secret values and the home directory even
/// where they are split across chunks, and holds back only what a split pattern needs.
pub struct StreamingRedactor {
    pending: Vec<u8>,
    home: Option<Vec<u8>>,
    in_secret: bool,
}

/// The bytes of ASCII text, as a vector.
fn ascii_vec(s: &Vec<char>) -> (r: Vec<u8>)
    requires
        forall|k: int| 0 <= k < s@.len() ==> (s@[k] as u32) < 128,
    ensures
        r@ == ascii_bytes(s@),
{
    let mut out: Vec<u8> = Vec::new();
    let mut k: usize = 0;
    while k < s.len()
        invariant
            k <= s@.len(),
            forall|j: int| 0 <= j < s@.len() ==> (s@[j] as u32) < 128,
            out@ == ascii_bytes(s@.subrange(0, k as int)),
        decreases s.len() - k,
    {
        let c = s[k];
        let b = c as u8;
        out.push(b);
        proof {
            assert(ascii_bytes(s@.subrange(0, k + 1)) =~= ascii_bytes(s@.subrange(0, k as int)).push(
                b,
            ));
        }
        k = k + 1;
    }
    proof {
        assert(s@.subrange(0, s@.len() as int) =~= s@);
    }
    out
}

fn copy_bytes(s: &Vec<u8>) -> (r: Vec<u8>)
    ensures
        r@ == s@,
{
    let mut out: Vec<u8> = Vec::new();
    let mut k: usize = 0;
    while k < s.len()
        invariant
            k <= s@.len(),
            out@ == s@.subrange(0, k as int),
        decreases s.len() - k,
    {
        out.push(s[k]);
        k = k + 1;
    }
    assert(out@ =~= s@);
    out
}

/// Appends `s[from..to]` to `out`.
fn extend_range(out: &mut Vec<u8>, s: &Vec<u8>, from: usize, to: usize)
    requires
        from <= to <= s@.len(),
    ensures
        final(out)@ == old(out)@ + s@.subrange(from as int, to as int),
{
    let ghost start = out@;
    let mut k = from;
    while k < to
        invariant
            from <= k <= to,
            to <= s@.len(),
            out@ == start + s@.subrange(from as int, k as int),
        decreases to - k,
    {
        out.push(s[k]);
        proof {
            assert(s@.subrange(from as int, k + 1) =~= s@.subrange(from as int, k as int).push(
                s@[k as int],
            ));
        }
        k = k + 1;
    }
}

/// `s[from..]` as a new vector.
fn suffix(s: &Vec<u8>, from: usize) -> (r: Vec<u8>)
    requires
        from <= s@.len(),
    ensures
        r@ == s@.subrange(from as int, s@.len() as int),
{
    let mut out: Vec<u8> = Vec::new();
    extend_range(&mut out, s, from, s.len());
    assert(out@ =~= s@.subrange(from as int, s@.len() as int));
    out
}

/// Whether `p` occurs in `s` at index `i`.
fn bytes_match_at(s: &Vec<u8>, p: &Vec<u8>, i: usize) -> (r: bool)
    ensures
        r == occurs_at(s@, p@, i as int),
{
    if i > s.len() || p.len() > s.len() - i {
        return false;
    }
    let mut k: usize = 0;
    while k < p.len()
        invariant
            i + p@.len() <= s@.len(),
            k <= p@.len(),
            forall|m: int| 0 <= m < k ==> s@[i + m] == p@[m],
        decreases p.len() - k,
    {
        assert(i + k < s.len());
        if s[i + k] != p[k] {
            assert(s@.subrange(i as int, i + p@.len())[k as int] != p@[k as int]);
            return false;
        }
        k = k + 1;
    }
    assert(s@.subrange(i as int, i + p@.len()) =~= p@);
    true
}

/// The first index where `p` occurs in `s`.
fn find_bytes(s: &Vec<u8>, p: &Vec<u8>) -> (r: Option<usize>)
    ensures
        r matches Some(i) ==> first_occurrence(s@, p@, 0) == Some(i as int),
        r is None ==> first_occurrence(s@, p@, 0) is None,
{
    let mut i: usize = 0;
    while i <= s.len() && p.len() <= s.len() - i
        invariant
            first_occurrence(s@, p@, 0) == first_occurrence(s@, p@, i as int),
        decreases s.len() + 1 - i,
    {
        if bytes_match_at(s, p, i) {
            return Some(i);
        }
        proof {
            if p@.len() == 0 {
                assert(s@.subrange(i as int, i as int) =~= p@);
            }
        }
        i = i + 1;
    }
    None
}

/// The first ASCII white-space byte in `p`.
fn find_space(p: &Vec<u8>) -> (r: Option<usize>)
    ensures
        r matches Some(e) ==> first_space_from(p@, 0) == Some(e as int),
        r is None ==> first_space_from(p@, 0) is None,
{
    let mut i: usize = 0;
    while i < p.len()
        invariant
            i <= p@.len(),
            first_space_from(p@, 0) == first_space_from(p@, i as int),
        decreases p.len() - i,
    {
        let b = p[i];
        if b == 0x20u8 || b == 0x09u8 || b == 0x0au8 || b == 0x0cu8 || b == 0x0du8 {
            return Some(i);
        }
        i = i + 1;
    }
    None
}

/// Every pattern of the redactor is non-empty.
pub proof fn lemma_patterns_non_empty(home: Option<Seq<u8>>)
    ensures
        forall|k: int|
            0 <= k < stream_patterns(home).len() ==> (#[trigger] stream_patterns(home)[k]).0.len()
                > 0,
{
    assert forall|k: int| 0 <= k < stream_patterns(home).len() implies (#[trigger] stream_patterns(
        home,
    )[k]).0.len() > 0 by {
        if k < secret_markers().len() {
            assert(secret_markers()[k].len() > 0);
        }
    }
}

/// The bytes the redactor may hold back never exceed `keep_len`.
pub proof fn law_redactor_buffer_is_bounded(
    p: Seq<u8>,
    hiding: bool,
    pats: Seq<(Seq<u8>, bool)>,
)
    requires
        forall|k: int| 0 <= k < pats.len() ==> (#[trigger] pats[k]).0.len() > 0,
    ensures
        drained(p, hiding, pats).1.len() <= keep_len(pats),
    decreases p.len(),
{
    lemma_keep_non_negative(pats, pats.len() as int);
    if hiding {
        lemma_first_space(p, 0);
        match first_space_from(p, 0) {
            Some(e) => {
                law_redactor_buffer_is_bounded(p.subrange(e + 1, p.len() as int), false, pats);
            },
            None => {},
        }
    } else {
        lemma_earliest(p, pats, pats.len() as int);
        match earliest_of(p, pats, pats.len() as int) {
            Some(found) => {
                let pat = pats[found.1].0;
                assert(pat.len() > 0);
                {
                    law_redactor_buffer_is_bounded(
                        p.subrange(found.0 + pat.len(), p.len() as int),
                        pats[found.1].1,
                        pats,
                    );
                }
            },
            None => {},
        }
    }
}


/// The redactor holds back at most eight bytes (one less than the longest secret marker,
/// `password=`), or one less than the home directory's length where that is longer.
pub proof fn law_redactor_keep_length(home: Option<Seq<u8>>)
    ensures
        keep_len(stream_patterns(home)) == (match home {
            Some(h) => if h.len() > 9 {
                h.len() - 1
            } else {
                8
            },
            None => 8,
        }),
{
    let secrets = Seq::new(
        secret_markers().len(),
        |k: int| (ascii_bytes(secret_markers()[k]), true),
    );
    assert(keep_of(secrets, 8) == 8) by {
        reveal_with_fuel(keep_of, 9);
    }
    match home {
        Some(h) => {
            if h.len() > 0 {
                let pats = secrets.push((h, false));
                assert(keep_of(pats, 8) == keep_of(secrets, 8)) by {
                    lemma_keep_prefix(secrets, pats, 8);
                }
            }
        },
        None => {},
    }
}

proof fn lemma_keep_prefix(a: Seq<(Seq<u8>, bool)>, b: Seq<(Seq<u8>, bool)>, n: int)
    requires
        0 <= n <= a.len(),
        n <= b.len(),
        forall|k: int| 0 <= k < n ==> a[k] == b[k],
    ensures
        keep_of(a, n) == keep_of(b, n),
    decreases n,
{
    if n > 0 {
        lemma_keep_prefix(a, b, n - 1);
    }
}

proof fn lemma_keep_non_negative(pats: Seq<(Seq<u8>, bool)>, n: int)
    ensures
        keep_of(pats, n) >= 0,
    decreases n,
{
    if n > 0 {
        lemma_keep_non_negative(pats, n - 1);
    }
}


/// The keep length of a list of patterns.
fn keep_length(pats: &Vec<(Vec<u8>, bool)>) -> (r: usize)
    ensures
        r as int == keep_len(pattern_views(pats@)),
{
    let ghost views = pattern_views(pats@);
    let mut keep: usize = 0;
    let mut k: usize = 0;
    while k < pats.len()
        invariant
            views == pattern_views(pats@),
            k <= pats@.len(),
            keep as int == keep_of(views, k as int),
        decreases pats.len() - k,
    {
        let n = pats[k].0.len();
        let here = if n > 0 {
            n - 1
        } else {
            0
        };
        if here > keep {
            keep = here;
        }
        k = k + 1;
    }
    keep
}

/// The views of a list of (pattern, secret) pairs.
pub open spec fn pattern_views(pats: Seq<(Vec<u8>, bool)>) -> Seq<(Seq<u8>, bool)> {
    pats.map_values(|x: (Vec<u8>, bool)| (x.0@, x.1))
}

/// The earliest complete pattern occurrence in `p`, as (index, pattern).
fn earliest(p: &Vec<u8>, pats: &Vec<(Vec<u8>, bool)>) -> (r: Option<(usize, usize)>)
    ensures
        r matches Some(found) ==> earliest_of(
            p@,
            pattern_views(pats@),
            pats@.len() as int,
        ) == Some((found.0 as int, found.1 as int)),
        r is None ==> earliest_of(p@, pattern_views(pats@), pats@.len() as int) is None,
{
    let ghost views = pattern_views(pats@);
    let mut best: Option<(usize, usize)> = None;
    let mut k: usize = 0;
    while k < pats.len()
        invariant
            views == pattern_views(pats@),
            k <= pats@.len(),
            best matches Some(b) ==> earliest_of(p@, views, k as int) == Some(
                (b.0 as int, b.1 as int),
            ),
            best is None ==> earliest_of(p@, views, k as int) is None,
        decreases pats.len() - k,
    {
        assert(views[k as int].0 == pats@[k as int].0@);
        match find_bytes(p, &pats[k].0) {
            Some(i) => {
                match best {
                    None => {
                        best = Some((i, k));
                    },
                    Some(b) => {
                        if i < b.0 {
                            best = Some((i, k));
                        }
                    },
                }
            },
            None => {},
        }
        k = k + 1;
    }
    best
}

impl StreamingRedactor {
    /// The bytes held back so far.
    pub closed spec fn buffered(&self) -> Seq<u8> {
        self.pending@
    }

    /// Whether the redactor is inside a secret value.
    pub closed spec fn hiding(&self) -> bool {
        self.in_secret
    }

    /// The home directory's bytes, where one was given and is not empty.
    pub closed spec fn home_pattern(&self) -> Option<Seq<u8>> {
        match self.home {
            Some(h) => Some(h@),
            None => None,
        }
    }

    /// The patterns this redactor looks for.
    pub open spec fn pattern_list(&self) -> Seq<(Seq<u8>, bool)> {
        stream_patterns(self.home_pattern())
    }

    /// A redactor with nothing held back, outside any secret.
    pub fn new(home: Option<&str>) -> (r: Self)
        ensures
            r.buffered() == Seq::<u8>::empty(),
            !r.hiding(),
            r.home_pattern() == (match home {
                Some(h) => if h@.len() > 0 {
                    Some(h.spec_bytes())
                } else {
                    None
                },
                None => None,
            }),
    {
        let bytes = match home {
            Some(h) => if h.is_empty() {
                None
            } else {
                Some(h.as_bytes_vec())
            },
            None => None,
        };
        StreamingRedactor { pending: Vec::new(), home: bytes, in_secret: false }
    }

    /// The patterns in the order in which they are tried: the secret markers, then the home
    /// directory.
    pub fn patterns(&self) -> (r: Vec<(Vec<u8>, bool)>)
        ensures
            pattern_views(r@) == self.pattern_list(),
    {
        let markers = crate::redact::marker_list();
        let mut out: Vec<(Vec<u8>, bool)> = Vec::new();
        let mut k: usize = 0;
        while k < markers.len()
            invariant
                markers@.len() == secret_markers().len(),
                forall|j: int| 0 <= j < markers@.len() ==> (#[trigger] markers@[j])@
                    == secret_markers()[j],
                k <= markers@.len(),
                out@.len() == k,
                forall|j: int|
                    0 <= j < k ==> (#[trigger] out@[j]).0@ == ascii_bytes(secret_markers()[j])
                        && out@[j].1,
            decreases markers.len() - k,
        {
            proof {
                crate::redact::lemma_markers_ascii(k as int);
            }
            let bytes = ascii_vec(&markers[k]);
            out.push((bytes, true));
            k = k + 1;
        }
        match &self.home {
            Some(h) => {
                if h.len() > 0 {
                    out.push((copy_bytes(h), false));
                }
            },
            None => {},
        }
        proof {
            assert(pattern_views(out@) =~= self.pattern_list());
        }
        out
    }

    /// Takes the next chunk and returns what may be shown of the output so far.
    pub fn push(&mut self, chunk: &[u8]) -> (out: Vec<u8>)
        ensures
            (out@, final(self).buffered(), final(self).hiding()) == drained(
                old(self).buffered() + chunk@,
                old(self).hiding(),
                old(self).pattern_list(),
            ),
            final(self).home_pattern() == old(self).home_pattern(),
    {
        let pats = self.patterns();
        let ghost views = pattern_views(pats@);
        proof {
            lemma_patterns_non_empty(self.home_pattern());
        }
        let keep = keep_length(&pats);
        let mut pending = copy_bytes(&self.pending);
        let mut c: usize = 0;
        while c < chunk.len()
            invariant
                c <= chunk@.len(),
                pending@ == self.pending@ + chunk@.subrange(0, c as int),
            decreases chunk.len() - c,
        {
            pending.push(chunk[c]);
            c = c + 1;
        }
        assert(chunk@.subrange(0, chunk@.len() as int) =~= chunk@);
        let ghost whole = drained(pending@, self.in_secret, views);
        let mut hiding = self.in_secret;
        let mut out: Vec<u8> = Vec::new();
        let hidden = chars_of("[REDACTED]");
        proof {
            reveal_strlit("[REDACTED]");
            assert(hidden@ =~= redacted_text());
        }
        let hidden_bytes = ascii_vec(&hidden);
        loop
            invariant_except_break
                views == pattern_views(pats@),
                forall|k: int| 0 <= k < views.len() ==> (#[trigger] views[k]).0.len() > 0,
                keep as int == keep_len(views),
                hidden_bytes@ == ascii_bytes(redacted_text()),
                out@ + drained(pending@, hiding, views).0 == whole.0,
                drained(pending@, hiding, views).1 == whole.1,
                drained(pending@, hiding, views).2 == whole.2,
            ensures
                out@ == whole.0,
                pending@ == whole.1,
                hiding == whole.2,
            decreases pending@.len(),
        {
            if hiding {
                match find_space(&pending) {
                    Some(e) => {
                        proof {
                            lemma_first_space(pending@, 0);
                        }
                        let n = pending.len();
                        assert(e < n);
                        let delimiter = pending[e];
                        let ghost before = out@;
                        out.push(delimiter);
                        pending = suffix(&pending, e + 1);
                        hiding = false;
                        proof {
                            assert(before + seq![delimiter] + drained(pending@, hiding, views).0
                                =~= out@ + drained(pending@, hiding, views).0);
                        }
                    },
                    None => {
                        pending = Vec::new();
                        break ;
                    },
                }
            } else {
                match earliest(&pending, &pats) {
                    Some(found) => {
                        proof {
                            lemma_earliest(pending@, views, views.len() as int);
                        }
                        let index = found.0;
                        let which = found.1;
                        let pattern = &pats[which].0;
                        assert(pattern@ == views[which as int].0);
                        let secret = pats[which].1;
                        let n = pending.len();
                        assert(index + pattern@.len() <= n);
                        let ghost before = out@;
                        let ghost old_pending = pending@;
                        extend_range(&mut out, &pending, 0, index);
                        if secret {
                            push_bytes(&mut out, pattern);
                            push_bytes(&mut out, &hidden_bytes);
                        } else {
                            out.push(126u8);
                        }
                        pending = suffix(&pending, index + pattern.len());
                        hiding = secret;
                        proof {
                            let shown = if secret {
                                pattern@ + ascii_bytes(redacted_text())
                            } else {
                                seq![126u8]
                            };
                            assert(out@ =~= before + old_pending.subrange(0, index as int) + shown);
                        }
                    },
                    None => {
                        if pending.len() > keep {
                            let emit = pending.len() - keep;
                            extend_range(&mut out, &pending, 0, emit);
                            pending = suffix(&pending, emit);
                        }
                        break ;
                    },
                }
            }
        }
        self.pending = pending;
        self.in_secret = hiding;
        out
    }

    /// Ends the stream: what was held back, unless it is part of a secret value.
    pub fn finish(self) -> (r: Vec<u8>)
        ensures
            r@ == (if self.hiding() {
                Seq::<u8>::empty()
            } else {
                self.buffered()
            }),
    {
        if self.in_secret {
            Vec::new()
        } else {
            self.pending
        }
    }

    /// How many bytes are held back.
    pub fn buffered_len(&self) -> (r: usize)
        ensures
            r as int == self.buffered().len(),
    {
        self.pending.len()
    }
}

/// Appends all of `tail` to `out`.
fn push_bytes(out: &mut Vec<u8>, tail: &Vec<u8>)
    ensures
        final(out)@ == old(out)@ + tail@,
{
    extend_range(out, tail, 0, tail.len());
    assert(tail@.subrange(0, tail@.len() as int) =~= tail@);
}


/// Whether no pattern of the list occurs inside another one, at any offset: then at most one
/// pattern starts at any index, and a pattern that starts before another one ends before it.
pub open spec fn separated(pats: Seq<(Seq<u8>, bool)>) -> bool {
    &&& forall|k: int| 0 <= k < pats.len() ==> (#[trigger] pats[k]).0.len() > 0
    &&& forall|a: int, b: int, d: int|
        0 <= a < pats.len() && 0 <= b < pats.len() && a != b ==> !(#[trigger] occurs_at(
            pats[a].0,
            pats[b].0,
            d,
        ))
}

/// The last two bytes of the `k`-th secret marker, as one number; they tell the markers apart.
spec fn marker_tag(k: int) -> nat {
    if k == 0 {
        0x3d6e
    } else if k == 1 {
        0x3d4e
    } else if k == 2 {
        0x3d64
    } else if k == 3 {
        0x3d44
    } else if k == 4 {
        0x3d65
    } else if k == 5 {
        0x3d45
    } else if k == 6 {
        0x2072
    } else {
        0x2063
    }
}

/// Each secret marker, in bytes, holds `=` or a space only as its last byte, holds no `/`, and
/// ends in the two bytes of its tag.
proof fn lemma_marker_bytes(k: int)
    requires
        0 <= k < secret_markers().len(),
    ensures
        ({
            let b = ascii_bytes(secret_markers()[k]);
            &&& b.len() >= 2
            &&& forall|j: int| 0 <= j < b.len() - 1 ==> b[j] != 0x3d && b[j] != 0x20
            &&& b[b.len() - 1] == 0x3d || b[b.len() - 1] == 0x20
            &&& forall|j: int| 0 <= j < b.len() ==> b[j] != 0x2f
            &&& marker_tag(k) == b[b.len() - 1] as int * 256 + b[b.len() - 2] as int
        }),
{
    let m = secret_markers()[k];
    let b = ascii_bytes(m);
    assert forall|j: int| 0 <= j < b.len() implies b[j] == m[j] as u8 by {}
}

/// The redactor's patterns are separated where the home directory is absolute and no secret
/// marker occurs in it.
pub proof fn lemma_stream_separated(home: Option<Seq<u8>>)
    requires
        home matches Some(h) ==> stream_home_ok(h),
    ensures
        separated(stream_patterns(home)),
{
    let pats = stream_patterns(home);
    let n = secret_markers().len() as int;
    lemma_patterns_non_empty(home);
    assert forall|a: int, b: int, d: int|
        0 <= a < pats.len() && 0 <= b < pats.len() && a != b implies !(#[trigger] occurs_at(
            pats[a].0,
            pats[b].0,
            d,
        )) by {
        if occurs_at(pats[a].0, pats[b].0, d) {
            let x = pats[a].0;
            let y = pats[b].0;
            assert forall|j: int| 0 <= j < y.len() implies y[j] == x[d + j] by {
                assert(x.subrange(d, d + y.len())[j] == x[d + j]);
            }
            if a < n && b < n {
                lemma_marker_bytes(a);
                lemma_marker_bytes(b);
                assert(d + y.len() - 1 == x.len() - 1);
                assert(marker_tag(a) == marker_tag(b));
            } else if a < n {
                lemma_marker_bytes(a);
                assert(y[0] == 0x2f);
            } else {
                assert(contains_seq(x, y));
            }
        }
    }
}

/// What the streaming laws ask of a home directory: it is absolute and no secret marker
/// occurs in it.
pub open spec fn stream_home_ok(h: Seq<u8>) -> bool {
    &&& h.len() > 0
    &&& h[0] == 0x2f
    &&& forall|k: int| 0 <= k < secret_markers().len() ==> !contains_seq(h, #[trigger] ascii_bytes(secret_markers()[k]))
}


/// What the redactor shows of `p` when the stream ends right after it.
pub open spec fn redactor_total(p: Seq<u8>, hiding: bool, pats: Seq<(Seq<u8>, bool)>) -> Seq<u8> {
    let d = drained(p, hiding, pats);
    d.0 + if d.2 {
        Seq::<u8>::empty()
    } else {
        d.1
    }
}

/// `earliest_of` finds no occurrence before the one it reports, and no earlier pattern at it;
/// where it finds none, no pattern occurs.
proof fn lemma_earliest_min(p: Seq<u8>, pats: Seq<(Seq<u8>, bool)>, n: int)
    requires
        0 <= n <= pats.len(),
    ensures
        earliest_of(p, pats, n) matches Some(fk) ==> (forall|j: int, i: int|
            0 <= j < n && i < fk.0 ==> !(#[trigger] occurs_at(p, pats[j].0, i))) && (forall|j: int|
            0 <= j < fk.1 ==> !(#[trigger] occurs_at(p, pats[j].0, fk.0))),
        earliest_of(p, pats, n) is None ==> forall|j: int, i: int|
            0 <= j < n ==> !(#[trigger] occurs_at(p, pats[j].0, i)),
    decreases n,
{
    if n > 0 {
        lemma_earliest_min(p, pats, n - 1);
        lemma_first_occurrence(p, pats[n - 1].0, 0);
    }
}

/// The earliest occurrence is the one at `f` of pattern `k` where nothing occurs before `f`
/// and no earlier pattern occurs at `f`.
proof fn lemma_earliest_is(q: Seq<u8>, pats: Seq<(Seq<u8>, bool)>, n: int, f: int, k: int)
    requires
        0 <= n <= pats.len(),
        0 <= k < pats.len(),
        occurs_at(q, pats[k].0, f),
        forall|j: int, i: int| 0 <= j < n && i < f ==> !(#[trigger] occurs_at(q, pats[j].0, i)),
        forall|j: int| 0 <= j < n && j < k ==> !(#[trigger] occurs_at(q, pats[j].0, f)),
    ensures
        k < n ==> earliest_of(q, pats, n) == Some((f, k)),
        k >= n ==> (earliest_of(q, pats, n) matches Some(g) ==> g.0 > f),
    decreases n,
{
    if n > 0 {
        lemma_earliest_is(q, pats, n - 1, f, k);
        lemma_first_occurrence(q, pats[n - 1].0, 0);
        lemma_earliest(q, pats, n - 1);
        if n - 1 == k {
            assert(first_occurrence(q, pats[k].0, 0) == Some(f));
        }
    }
}

/// Every pattern is at most one byte longer than the keep length, which is not negative.
proof fn lemma_keep_bounds(pats: Seq<(Seq<u8>, bool)>, n: int)
    requires
        0 <= n <= pats.len(),
    ensures
        keep_of(pats, n) >= 0,
        forall|k: int| 0 <= k < n ==> keep_of(pats, n) >= (#[trigger] pats[k]).0.len() - 1,
    decreases n,
{
    if n > 0 {
        lemma_keep_bounds(pats, n - 1);
    }
}

/// An occurrence in `p + c` that ends within `p` is one in `p`, and one in `p` is one in `p + c`.
proof fn lemma_occurs_prefix(p: Seq<u8>, c: Seq<u8>, b: Seq<u8>, i: int)
    ensures
        occurs_at(p, b, i) ==> occurs_at(p + c, b, i),
        occurs_at(p + c, b, i) && i + b.len() <= p.len() ==> occurs_at(p, b, i),
{
    if 0 <= i && i + b.len() <= p.len() {
        assert((p + c).subrange(i, i + b.len()) =~= p.subrange(i, i + b.len()));
    }
}

/// An occurrence of `b` that lies within an occurrence of `a` is an occurrence in `a`.
proof fn lemma_occurs_inside(q: Seq<u8>, a: Seq<u8>, b: Seq<u8>, i: int, f: int)
    requires
        occurs_at(q, a, i),
        occurs_at(q, b, f),
        i <= f,
        f + b.len() <= i + a.len(),
    ensures
        occurs_at(a, b, f - i),
{
    assert(q.subrange(i, i + a.len()).subrange(f - i, f - i + b.len()) =~= q.subrange(f, f + b.len()));
}

/// Where no pattern starts before `x` and at least the keep length follows it, the redactor
/// shows `q[..x]` as it is and then what it shows of the rest.
proof fn lemma_strip(q: Seq<u8>, x: int, pats: Seq<(Seq<u8>, bool)>)
    requires
        separated(pats),
        0 <= x,
        x + keep_len(pats) <= q.len(),
        forall|j: int, i: int| 0 <= j < pats.len() && i < x ==> !(#[trigger] occurs_at(q, pats[j].0, i)),
    ensures
        redactor_total(q, false, pats) == q.subrange(0, x) + redactor_total(
            q.subrange(x, q.len() as int),
            false,
            pats,
        ),
{
    let n = pats.len() as int;
    let r = q.subrange(x, q.len() as int);
    lemma_keep_bounds(pats, n);
    assert forall|b: Seq<u8>, i: int| 0 <= i implies (occurs_at(r, b, i) <==> #[trigger] occurs_at(q, b, i + x)) by {
        if i + b.len() <= r.len() {
            assert(r.subrange(i, i + b.len()) =~= q.subrange(i + x, i + x + b.len()));
        }
    }
    lemma_earliest(q, pats, n);
    lemma_earliest_min(q, pats, n);
    lemma_earliest(r, pats, n);
    match earliest_of(q, pats, n) {
        Some(fk) => {
            let g = fk.0;
            let k = fk.1;
            assert(g >= x);
            assert(occurs_at(q, pats[k].0, (g - x) + x));
            assert(occurs_at(r, pats[k].0, g - x));
            assert forall|j: int, i: int| 0 <= j < n && i < g - x implies !(#[trigger] occurs_at(r, pats[j].0, i)) by {
                if i >= 0 && occurs_at(r, pats[j].0, i) {
                    assert(occurs_at(q, pats[j].0, i + x));
                }
            }
            assert forall|j: int| 0 <= j < n && j < k implies !(#[trigger] occurs_at(r, pats[j].0, g - x)) by {
                if occurs_at(r, pats[j].0, g - x) {
                    assert(occurs_at(q, pats[j].0, g - x + x));
                }
            }
            lemma_earliest_is(r, pats, n, g - x, k);
            let len = pats[k].0.len();
            assert(r.subrange(g - x + len, r.len() as int) =~= q.subrange(g + len, q.len() as int));
            assert(q.subrange(0, g) =~= q.subrange(0, x) + r.subrange(0, g - x));
        },
        None => {
            if earliest_of(r, pats, n) is Some {
                let fk = earliest_of(r, pats, n)->0;
                assert(occurs_at(q, pats[fk.1].0, fk.0 + x));
            }
            let keep = keep_len(pats);
            assert(q.subrange(0, q.len() - keep) =~= q.subrange(0, x) + r.subrange(0, r.len() - keep));
            assert(q.subrange(q.len() - keep, q.len() as int) =~= r.subrange(r.len() - keep, r.len() as int));
        },
    }
}


/// The first white space of `p + c` from inside `c`.
proof fn lemma_space_shift(p: Seq<u8>, c: Seq<u8>, j: int)
    requires
        0 <= j,
    ensures
        first_space_from(p + c, p.len() + j) == (match first_space_from(c, j) {
            Some(e) => Some(p.len() + e),
            None => None,
        }),
    decreases c.len() - j,
{
    if j < c.len() {
        assert((p + c)[p.len() + j] == c[j]);
        lemma_space_shift(p, c, j + 1);
    }
}

/// The first white space of `p + c`: that of `p` where it has one, else that of `c`.
proof fn lemma_space_prefix(p: Seq<u8>, c: Seq<u8>, i: int)
    requires
        0 <= i <= p.len(),
    ensures
        first_space_from(p, i) matches Some(e) ==> first_space_from(p + c, i) == Some(e),
        first_space_from(p, i) is None ==> first_space_from(p + c, i) == (match first_space_from(
            c,
            0,
        ) {
            Some(e) => Some(p.len() + e),
            None => None,
        }),
    decreases p.len() - i,
{
    if i < p.len() {
        assert((p + c)[i] == p[i]);
        lemma_space_prefix(p, c, i + 1);
    } else {
        lemma_space_shift(p, c, 0);
    }
}

/// Feeding `p` and then `c` shows what feeding `p + c` at once shows: the redactor's output
/// does not depend on where the stream is cut.
proof fn lemma_drain_split(p: Seq<u8>, c: Seq<u8>, hiding: bool, pats: Seq<(Seq<u8>, bool)>)
    requires
        separated(pats),
    ensures
        redactor_total(p + c, hiding, pats) == drained(p, hiding, pats).0 + redactor_total(
            drained(p, hiding, pats).1 + c,
            drained(p, hiding, pats).2,
            pats,
        ),
    decreases p.len(),
{
    let n = pats.len() as int;
    let q = p + c;
    if hiding {
        lemma_first_space(p, 0);
        lemma_space_prefix(p, c, 0);
        lemma_first_space(c, 0);
        match first_space_from(p, 0) {
            Some(e) => {
                let p2 = p.subrange(e + 1, p.len() as int);
                lemma_drain_split(p2, c, false, pats);
                assert(q.subrange(e + 1, q.len() as int) =~= p2 + c);
                assert(q[e] == p[e]);
                let dq = drained(p2 + c, false, pats);
                let dp = drained(p2, false, pats);
                let tail = if dq.2 {
                    Seq::<u8>::empty()
                } else {
                    dq.1
                };
                assert(redactor_total(q, true, pats) =~= seq![p[e]] + dq.0 + tail);
                assert(seq![p[e]] + dq.0 + tail =~= seq![p[e]] + (dq.0 + tail));
                assert(seq![p[e]] + (dp.0 + redactor_total(dp.1 + c, dp.2, pats)) =~= (seq![p[e]]
                    + dp.0) + redactor_total(dp.1 + c, dp.2, pats));
            },
            None => {
                assert(Seq::<u8>::empty() + c =~= c);
                match first_space_from(c, 0) {
                    Some(e) => {
                        assert(q.subrange(p.len() + e + 1, q.len() as int) =~= c.subrange(
                            e + 1,
                            c.len() as int,
                        ));
                        assert(q[p.len() + e] == c[e]);
                    },
                    None => {},
                }
            },
        }
    } else {
        lemma_earliest(p, pats, n);
        lemma_earliest_min(p, pats, n);
        match earliest_of(p, pats, n) {
            Some(fk) => {
                let f = fk.0;
                let k = fk.1;
                let b = pats[k].0;
                lemma_occurs_prefix(p, c, b, f);
                assert forall|j: int, i: int| 0 <= j < n && i < f implies !(#[trigger] occurs_at(q, pats[j].0, i)) by {
                    if occurs_at(q, pats[j].0, i) {
                        lemma_occurs_prefix(p, c, pats[j].0, i);
                        if i + pats[j].0.len() > p.len() {
                            lemma_occurs_inside(q, pats[j].0, b, i, f);
                            assert(occurs_at(pats[j].0, pats[k].0, f - i));
                        }
                    }
                }
                assert forall|j: int| 0 <= j < n && j < k implies !(#[trigger] occurs_at(q, pats[j].0, f)) by {
                    if occurs_at(q, pats[j].0, f) {
                        lemma_occurs_prefix(p, c, pats[j].0, f);
                        if f + pats[j].0.len() > p.len() {
                            lemma_occurs_inside(q, pats[j].0, b, f, f);
                            assert(occurs_at(pats[j].0, pats[k].0, f - f));
                        }
                    }
                }
                lemma_earliest_is(q, pats, n, f, k);
                let p2 = p.subrange(f + b.len(), p.len() as int);
                lemma_drain_split(p2, c, pats[k].1, pats);
                assert(q.subrange(f + b.len(), q.len() as int) =~= p2 + c);
                assert(q.subrange(0, f) =~= p.subrange(0, f));
                let shown = if pats[k].1 {
                    b + ascii_bytes(redacted_text())
                } else {
                    seq![126u8]
                };
                let dq = drained(p2 + c, pats[k].1, pats);
                let dp = drained(p2, pats[k].1, pats);
                let tail = if dq.2 {
                    Seq::<u8>::empty()
                } else {
                    dq.1
                };
                let pre = p.subrange(0, f) + shown;
                assert(redactor_total(q, false, pats) =~= pre + dq.0 + tail);
                assert(pre + dq.0 + tail =~= pre + (dq.0 + tail));
                assert(pre + (dp.0 + redactor_total(dp.1 + c, dp.2, pats)) =~= (pre + dp.0)
                    + redactor_total(dp.1 + c, dp.2, pats));
            },
            None => {
                let keep = keep_len(pats);
                lemma_keep_bounds(pats, n);
                if p.len() > keep {
                    let x = p.len() - keep;
                    assert forall|j: int, i: int| 0 <= j < n && i < x implies !(#[trigger] occurs_at(q, pats[j].0, i)) by {
                        lemma_occurs_prefix(p, c, pats[j].0, i);
                    }
                    lemma_strip(q, x, pats);
                    assert(q.subrange(0, x) =~= p.subrange(0, x));
                    assert(q.subrange(x, q.len() as int) =~= p.subrange(x, p.len() as int) + c);
                    assert(p.subrange(0, p.len() - keep) =~= p.subrange(0, x));
                } else {
                    assert(Seq::<u8>::empty() + redactor_total(q, false, pats) =~= redactor_total(q, false, pats));
                }
            },
        }
    }
}


/// The chunks of a stream, one after another.
pub open spec fn joined(chunks: Seq<Seq<u8>>) -> Seq<u8>
    decreases chunks.len(),
{
    if chunks.len() == 0 {
        Seq::empty()
    } else {
        chunks[0] + joined(chunks.drop_first())
    }
}

/// What a redactor holding `buffer`, inside a secret value or not, shows when it is pushed
/// the given chunks in turn and then finished: what each `push` returns, then what `finish`
/// returns.
pub open spec fn streamed(
    chunks: Seq<Seq<u8>>,
    buffer: Seq<u8>,
    hiding: bool,
    pats: Seq<(Seq<u8>, bool)>,
) -> Seq<u8>
    decreases chunks.len(),
{
    if chunks.len() == 0 {
        if hiding {
            Seq::empty()
        } else {
            buffer
        }
    } else {
        let d = drained(buffer + chunks[0], hiding, pats);
        d.0 + streamed(chunks.drop_first(), d.1, d.2, pats)
    }
}

/// Whether a redactor state has nothing left to decide: draining its buffer shows nothing and
/// changes nothing.
pub open spec fn settled(buffer: Seq<u8>, hiding: bool, pats: Seq<(Seq<u8>, bool)>) -> bool {
    drained(buffer, hiding, pats) == (Seq::<u8>::empty(), buffer, hiding)
}

/// Draining leaves a settled state.
proof fn lemma_drained_settles(x: Seq<u8>, hiding: bool, pats: Seq<(Seq<u8>, bool)>)
    requires
        separated(pats),
    ensures
        settled(drained(x, hiding, pats).1, drained(x, hiding, pats).2, pats),
    decreases x.len(),
{
    let n = pats.len() as int;
    if hiding {
        lemma_first_space(x, 0);
        match first_space_from(x, 0) {
            Some(e) => {
                lemma_drained_settles(x.subrange(e + 1, x.len() as int), false, pats);
            },
            None => {},
        }
    } else {
        lemma_earliest(x, pats, n);
        lemma_earliest_min(x, pats, n);
        match earliest_of(x, pats, n) {
            Some(fk) => {
                let b = pats[fk.1].0;
                lemma_drained_settles(x.subrange(fk.0 + b.len(), x.len() as int), pats[fk.1].1, pats);
            },
            None => {
                let keep = keep_len(pats);
                let start = if x.len() > keep {
                    x.len() - keep
                } else {
                    0
                };
                let t = x.subrange(start, x.len() as int);
                lemma_earliest(t, pats, n);
                if earliest_of(t, pats, n) is Some {
                    let fk = earliest_of(t, pats, n)->0;
                    let b = pats[fk.1].0;
                    assert(t.subrange(fk.0, fk.0 + b.len()) =~= x.subrange(start + fk.0, start + fk.0 + b.len()));
                    assert(occurs_at(x, b, start + fk.0));
                }
                if x.len() <= keep {
                    assert(t =~= x);
                }
            },
        }
    }
}

/// Feeding chunks to a settled redactor shows what feeding their concatenation at once shows.
proof fn lemma_streamed_total(
    chunks: Seq<Seq<u8>>,
    buffer: Seq<u8>,
    hiding: bool,
    pats: Seq<(Seq<u8>, bool)>,
)
    requires
        separated(pats),
        settled(buffer, hiding, pats),
    ensures
        streamed(chunks, buffer, hiding, pats) == redactor_total(buffer + joined(chunks), hiding, pats),
    decreases chunks.len(),
{
    if chunks.len() == 0 {
        assert(buffer + joined(chunks) =~= buffer);
        assert(Seq::<u8>::empty() + streamed(chunks, buffer, hiding, pats) =~= streamed(chunks, buffer, hiding, pats));
    } else {
        let c0 = chunks[0];
        let rest = chunks.drop_first();
        let d = drained(buffer + c0, hiding, pats);
        lemma_drained_settles(buffer + c0, hiding, pats);
        lemma_streamed_total(rest, d.1, d.2, pats);
        lemma_drain_split(buffer + c0, joined(rest), hiding, pats);
        assert(buffer + joined(chunks) =~= (buffer + c0) + joined(rest));
    }
}

/// The output of the streaming redactor does not depend on how the stream is cut into chunks:
/// pushing the chunks one by one and then finishing shows what pushing their concatenation as
/// one chunk and finishing shows. This holds without a home directory, and with an absolute
/// one in which no secret marker occurs.
pub proof fn law_redactor_ignores_chunking(chunks: Seq<Seq<u8>>, home: Option<Seq<u8>>)
    requires
        home matches Some(h) ==> stream_home_ok(h),
    ensures
        streamed(chunks, Seq::empty(), false, stream_patterns(home)) == streamed(
            seq![joined(chunks)],
            Seq::empty(),
            false,
            stream_patterns(home),
        ),
{
    let pats = stream_patterns(home);
    lemma_stream_separated(home);
    lemma_drained_settles(Seq::empty(), true, pats);
    assert(settled(Seq::<u8>::empty(), false, pats)) by {
        let n = pats.len() as int;
        lemma_earliest(Seq::<u8>::empty(), pats, n);
        lemma_keep_bounds(pats, n);
    }
    lemma_streamed_total(chunks, Seq::empty(), false, pats);
    lemma_streamed_total(seq![joined(chunks)], Seq::empty(), false, pats);
    let one = seq![joined(chunks)];
    assert(one.drop_first() =~= Seq::<Seq<u8>>::empty());
    assert(joined(one.drop_first()) == Seq::<u8>::empty());
    assert(joined(one) == one[0] + joined(one.drop_first()));
    assert(joined(one) =~= joined(chunks));
}

} // verus!
