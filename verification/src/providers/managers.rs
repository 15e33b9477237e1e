//! The built-in install managers: what each one claims about an installation, and how it
//! updates one.
use super::claims::{ClaimConfidence, ManagerClaims, SourceClaim, UpdaterClaim};
use super::{DetectedTool, ManagerId, ProviderError, SourceId, TargetMode, ToolVersion, UpgradeAction, valid_id};
use crate::command::{plain_command, views, CommandError, CommandSpec, is_brew_kind};
use crate::text::all_space;
use crate::copy::Duplicate;
use crate::command::owned;
use crate::redact::{opt_str_view, redact, redacted};
use crate::text::{
    char_rows, chars_eq, chars_of, concat_chars, contains_chars, contains_seq, copy_chars,
    occurs_at, push_all, split_words, starts_with_chars, string_from_chars, to_lowercase,
    unicode_lowercase, words,
};
use vstd::prelude::*;

verus! {

/// The kinds of built-in install manager.
#[derive(Debug, Clone, Copy, PartialEq, Eq, Structural)]
pub enum ManagerKind {
    Homebrew,
    Mise,
    Rustup,
    Npm,
    Corepack,
    BunOfficial,
    DenoOfficial,
    UvStandalone,
}

/// The identifier of each kind of manager.
pub open spec fn kind_name(kind: ManagerKind) -> Seq<char> {
    match kind {
        ManagerKind::Homebrew => "homebrew"@,
        ManagerKind::Mise => "mise"@,
        ManagerKind::Rustup => "rustup"@,
        ManagerKind::Npm => "npm"@,
        ManagerKind::Corepack => "corepack"@,
        ManagerKind::BunOfficial => "bun-official"@,
        ManagerKind::DenoOfficial => "deno-official"@,
        ManagerKind::UvStandalone => "uv-standalone"@,
    }
}

/// The identifier text of a kind of manager.
pub fn kind_id(kind: ManagerKind) -> (r: &'static str)
    ensures
        r@ == kind_name(kind),
        valid_id(r@),
{
    proof {
        reveal_strlit("homebrew");
        reveal_strlit("mise");
        reveal_strlit("rustup");
        reveal_strlit("npm");
        reveal_strlit("corepack");
        reveal_strlit("bun-official");
        reveal_strlit("deno-official");
        reveal_strlit("uv-standalone");
    }
    match kind {
        ManagerKind::Homebrew => "homebrew",
        ManagerKind::Mise => "mise",
        ManagerKind::Rustup => "rustup",
        ManagerKind::Npm => "npm",
        ManagerKind::Corepack => "corepack",
        ManagerKind::BunOfficial => "bun-official",
        ManagerKind::DenoOfficial => "deno-official",
        ManagerKind::UvStandalone => "uv-standalone",
    }
}

/// One observation a manager made about its installations: a kind (`receipt`,
/// `receipt:formula`, `selector:<tool>`, `project-policy:<tool>`, ...) and a value.
#[derive(Debug, Clone, PartialEq, Eq)]
pub struct ManagerEvidence {
    pub kind: String,
    pub value: String,
}

/// What a manager observed, once per operation.
#[derive(Debug, Clone, PartialEq, Eq)]
pub struct ManagerSnapshot {
    pub manager: ManagerId,
    pub evidence: Vec<ManagerEvidence>,
}

/// Evidence as plain values.
pub open spec fn evidence_pairs(ev: Seq<ManagerEvidence>) -> Seq<(Seq<char>, Seq<char>)> {
    ev.map_values(|e: ManagerEvidence| (e.kind@, e.value@))
}

/// What the file system says about paths: the home directory, and the canonical form of each
/// path that canonicalized. A path without an entry did not canonicalize.
#[derive(Debug)]
pub struct HostFacts {
    pub home: Option<String>,
    pub canonical: Vec<(String, String)>,
}

impl HostFacts {
    /// No home directory and no canonical paths.
    pub fn none() -> (r: HostFacts)
        ensures
            r.home is None,
            r.canonical@.len() == 0,
    {
        HostFacts { home: None, canonical: Vec::new() }
    }

    /// The canonical entries as plain values.
    pub open spec fn entries(&self) -> Seq<(Seq<char>, Seq<char>)> {
        self.canonical@.map_values(|e: (String, String)| (e.0@, e.1@))
    }

    /// The home directory as plain values.
    pub open spec fn home_view(&self) -> Option<Seq<char>> {
        match self.home {
            Some(h) => Some(h@),
            None => None,
        }
    }
}

/// The canonical form of `p` among the first `n` entries: the first entry for `p`.
pub open spec fn canonical_in(entries: Seq<(Seq<char>, Seq<char>)>, p: Seq<char>, n: int) -> Option<
    Seq<char>,
>
    decreases n,
{
    if n <= 0 {
        None
    } else {
        match canonical_in(entries, p, n - 1) {
            Some(c) => Some(c),
            None => if entries[n - 1].0 == p {
                Some(entries[n - 1].1)
            } else {
                None
            },
        }
    }
}

/// The canonical form of `p`, where it canonicalized.
pub open spec fn canonical_of(entries: Seq<(Seq<char>, Seq<char>)>, p: Seq<char>) -> Option<
    Seq<char>,
> {
    canonical_in(entries, p, entries.len() as int)
}

/// The path as resolved: its canonical form, or the path itself where it did not canonicalize.
pub open spec fn resolved(entries: Seq<(Seq<char>, Seq<char>)>, p: Seq<char>) -> Seq<char> {
    match canonical_of(entries, p) {
        Some(c) => c,
        None => p,
    }
}

impl HostFacts {
    /// The canonical form of `p`, where it canonicalized.
    pub fn canonical(&self, p: &Vec<char>) -> (r: Option<Vec<char>>)
        ensures
            match (r, canonical_of(self.entries(), p@)) {
                (Some(x), Some(y)) => x@ == y,
                (None, None) => true,
                _ => false,
            },
    {
        let ghost es = self.entries();
        let mut k: usize = 0;
        while k < self.canonical.len()
            invariant
                es == self.entries(),
                k <= self.canonical@.len(),
                canonical_in(es, p@, k as int) is None,
            decreases self.canonical.len() - k,
        {
            let key = chars_of(self.canonical[k].0.as_str());
            if chars_eq(&key, p) {
                let value = chars_of(self.canonical[k].1.as_str());
                proof {
                    assert(es[k as int] == (self.canonical@[k as int].0@, self.canonical@[k as int].1@));
                    assert(canonical_in(es, p@, k + 1) == Some(value@));
                    lemma_canonical_stays(es, p@, k + 1, es.len() as int);
                }
                return Some(value);
            }
            proof {
                assert(es[k as int] == (self.canonical@[k as int].0@, self.canonical@[k as int].1@));
            }
            k = k + 1;
        }
        None
    }

    /// The path as resolved.
    pub fn resolve(&self, p: &Vec<char>) -> (r: Vec<char>)
        ensures
            r@ == resolved(self.entries(), p@),
    {
        match self.canonical(p) {
            Some(c) => c,
            None => copy_chars(p),
        }
    }
}

proof fn lemma_canonical_stays(es: Seq<(Seq<char>, Seq<char>)>, p: Seq<char>, n: int, m: int)
    requires
        1 <= n <= m,
        canonical_in(es, p, n) is Some,
    ensures
        canonical_in(es, p, m) == canonical_in(es, p, n),
    decreases m - n,
{
    if m > n {
        lemma_canonical_stays(es, p, n, m - 1);
    }
}

/// The index of the first `/` at or after `i`, or the length.
pub open spec fn slash_at_or_after(s: Seq<char>, i: int) -> int
    decreases s.len() - i,
{
    if i < 0 || i >= s.len() {
        if i < 0 { 0 } else { s.len() as int }
    } else if s[i] == '/' {
        i
    } else {
        slash_at_or_after(s, i + 1)
    }
}

/// The next slash lies between `i` and the end.
pub proof fn lemma_slash_bounds(s: Seq<char>, i: int)
    requires
        0 <= i <= s.len(),
    ensures
        i <= slash_at_or_after(s, i) <= s.len(),
    decreases s.len() - i,
{
    if i < s.len() && s[i] != '/' {
        lemma_slash_bounds(s, i + 1);
    }
}

/// The normal components of `s` from index `i` on: the `/`-separated segments, without the
/// empty ones and without `.`.
pub open spec fn components_from(s: Seq<char>, i: int) -> Seq<Seq<char>>
    decreases s.len() - i,
{
    if i < 0 || i > s.len() {
        Seq::empty()
    } else {
        let j = slash_at_or_after(s, i);
        proof {
            lemma_slash_bounds(s, i);
        }
        let seg = s.subrange(i, j);
        let rest = if j < s.len() {
            components_from(s, j + 1)
        } else {
            Seq::empty()
        };
        if seg.len() == 0 || seg == seq!['.'] {
            rest
        } else {
            seq![seg] + rest
        }
    }
}

/// The components of a Unix path (`Path::components`): the root as `/`, a leading `.` of a
/// relative path as `.`, then the normal components.
pub open spec fn components(p: Seq<char>) -> Seq<Seq<char>> {
    if p.len() > 0 && p[0] == '/' {
        seq![seq!['/']] + components_from(p, 1)
    } else if p.len() > 0 && p[0] == '.' && (p.len() == 1 || p[1] == '/') {
        seq![seq!['.']] + components_from(p, 1)
    } else {
        components_from(p, 0)
    }
}

/// Whether path `active` is `base` or lies under it (`Path::starts_with`).
pub open spec fn path_under(active: Seq<char>, base: Seq<char>) -> bool {
    components(base).len() <= components(active).len() && components(active).subrange(
        0,
        components(base).len() as int,
    ) == components(base)
}

fn components_from_exec(s: &Vec<char>, start: usize) -> (r: Vec<Vec<char>>)
    requires
        start <= s@.len(),
    ensures
        char_rows(r@) == components_from(s@, start as int),
{
    let mut out: Vec<Vec<char>> = Vec::new();
    let mut i = start;
    let mut done = false;
    while !done
        invariant
            start <= i <= s@.len(),
            !done ==> char_rows(out@) + components_from(s@, i as int) == components_from(
                s@,
                start as int,
            ),
            done ==> char_rows(out@) == components_from(s@, start as int),
        decreases s@.len() - i + (if done {
            0int
        } else {
            1int
        }),
    {
        let mut j = i;
        while j < s.len() && s[j] != '/'
            invariant
                i <= j <= s@.len(),
                slash_at_or_after(s@, i as int) == slash_at_or_after(s@, j as int),
            decreases s.len() - j,
        {
            j = j + 1;
        }
        let mut seg: Vec<char> = Vec::new();
        let mut k = i;
        while k < j
            invariant
                i <= k <= j,
                j <= s@.len(),
                seg@ == s@.subrange(i as int, k as int),
            decreases j - k,
        {
            seg.push(s[k]);
            k = k + 1;
        }
        let keep = !(seg.len() == 0 || (seg.len() == 1 && seg[0] == '.'));
        proof {
            if seg@.len() == 1 && seg@[0] == '.' {
                assert(seg@ =~= seq!['.']);
            }
        }
        let ghost before = out@;
        let ghost sv = seg@;
        if keep {
            out.push(seg);
            proof {
                assert(char_rows(out@) =~= char_rows(before) + seq![sv]);
            }
        }
        if j < s.len() {
            proof {
                if keep {
                    assert(char_rows(out@) + components_from(s@, j + 1) =~= char_rows(before) + (
                    seq![sv] + components_from(s@, j + 1)));
                }
            }
            i = j + 1;
        } else {
            proof {
                if keep {
                    assert(char_rows(before) + (seq![sv] + Seq::<Seq<char>>::empty()) =~= char_rows(
                        out@,
                    ));
                } else {
                    assert(char_rows(before) + Seq::<Seq<char>>::empty() =~= char_rows(out@));
                }
            }
            i = j;
            done = true;
        }
    }
    out
}

/// The components of a Unix path.
pub fn path_components(p: &Vec<char>) -> (r: Vec<Vec<char>>)
    ensures
        char_rows(r@) == components(p@),
{
    if p.len() > 0 && p[0] == '/' {
        let mut out: Vec<Vec<char>> = Vec::new();
        let mut first: Vec<char> = Vec::new();
        first.push('/');
        assert(first@ =~= seq!['/']);
        out.push(first);
        let rest = components_from_exec(p, 1);
        assert(char_rows(out@) =~= seq![seq!['/']] + char_rows(rest@).subrange(0, 0));
        let mut k: usize = 0;
        while k < rest.len()
            invariant
                k <= rest@.len(),
                char_rows(out@) == seq![seq!['/']] + char_rows(rest@).subrange(0, k as int),
            decreases rest.len() - k,
        {
            let piece = copy_chars(&rest[k]);
            let ghost before = out@;
            let ghost pv = piece@;
            out.push(piece);
            proof {
                assert(char_rows(out@) =~= char_rows(before).push(pv));
                assert(char_rows(rest@).subrange(0, k + 1) =~= char_rows(rest@).subrange(
                    0,
                    k as int,
                ).push(rest@[k as int]@));
            }
            k = k + 1;
            proof {
                assert(char_rows(out@) =~= seq![seq!['/']] + char_rows(rest@).subrange(
                    0,
                    k as int,
                ));
            }
        }
        assert(char_rows(rest@).subrange(0, rest@.len() as int) =~= char_rows(rest@));
        out
    } else if p.len() > 0 && p[0] == '.' && (p.len() == 1 || p[1] == '/') {
        let mut out: Vec<Vec<char>> = Vec::new();
        let mut first: Vec<char> = Vec::new();
        first.push('.');
        assert(first@ =~= seq!['.']);
        out.push(first);
        let rest = components_from_exec(p, 1);
        assert(char_rows(out@) =~= seq![seq!['.']] + char_rows(rest@).subrange(0, 0));
        let mut k: usize = 0;
        while k < rest.len()
            invariant
                k <= rest@.len(),
                char_rows(out@) == seq![seq!['.']] + char_rows(rest@).subrange(0, k as int),
            decreases rest.len() - k,
        {
            let piece = copy_chars(&rest[k]);
            let ghost before = out@;
            let ghost pv = piece@;
            out.push(piece);
            proof {
                assert(char_rows(out@) =~= char_rows(before).push(pv));
                assert(char_rows(rest@).subrange(0, k + 1) =~= char_rows(rest@).subrange(
                    0,
                    k as int,
                ).push(rest@[k as int]@));
            }
            k = k + 1;
            proof {
                assert(char_rows(out@) =~= seq![seq!['.']] + char_rows(rest@).subrange(
                    0,
                    k as int,
                ));
            }
        }
        assert(char_rows(rest@).subrange(0, rest@.len() as int) =~= char_rows(rest@));
        out
    } else {
        components_from_exec(p, 0)
    }
}

/// Whether path `active` is `base` or lies under it.
pub fn is_path_under(active: &Vec<char>, base: &Vec<char>) -> (r: bool)
    ensures
        r == path_under(active@, base@),
{
    let a = path_components(active);
    let b = path_components(base);
    if b.len() > a.len() {
        return false;
    }
    let mut k: usize = 0;
    while k < b.len()
        invariant
            b@.len() <= a@.len(),
            k <= b@.len(),
            char_rows(a@) == components(active@),
            char_rows(b@) == components(base@),
            forall|m: int| 0 <= m < k ==> a@[m]@ == b@[m]@,
        decreases b.len() - k,
    {
        if !chars_eq(&a[k], &b[k]) {
            proof {
                assert(char_rows(a@)[k as int] == a@[k as int]@);
                assert(char_rows(b@)[k as int] == b@[k as int]@);
                assert(char_rows(a@).subrange(0, b@.len() as int)[k as int] != char_rows(b@)[k as int]);
            }
            return false;
        }
        k = k + 1;
    }
    assert forall|m: int| 0 <= m < b@.len() implies char_rows(a@).subrange(0, b@.len() as int)[m]
        == char_rows(b@)[m] by {
        assert(char_rows(a@)[m] == a@[m]@);
        assert(char_rows(b@)[m] == b@[m]@);
    }
    assert(char_rows(a@).subrange(0, b@.len() as int) =~= char_rows(b@));
    true
}

/// Whether a lower-cased path names a location this kind of manager installs to, for `tool`.
pub open spec fn path_claimed(kind: ManagerKind, tool: Seq<char>, path: Seq<char>) -> bool {
    match kind {
        ManagerKind::Homebrew => contains_seq(path, "/homebrew/"@),
        ManagerKind::Mise => contains_seq(path, "/mise/"@) && contains_seq(path, "/installs/"@),
        ManagerKind::Rustup => tool == "rust"@ && (contains_seq(path, "/.cargo/"@) || contains_seq(
            path,
            "/rustup/"@,
        )),
        ManagerKind::Npm => tool == "npm"@ || (tool == "pnpm"@ && contains_seq(
            path,
            "node_modules"@,
        ) && !contains_seq(path, "node_modules/corepack"@)),
        ManagerKind::Corepack => tool == "pnpm"@ && (contains_seq(path, "corepack"@)
            || contains_seq(path, "/shims/"@)),
        ManagerKind::BunOfficial => tool == "bun"@ && contains_seq(path, "/.bun/"@),
        ManagerKind::DenoOfficial => tool == "deno"@ && contains_seq(path, "/.deno/"@),
        ManagerKind::UvStandalone => tool == "uv"@ && contains_seq(path, "/.local/bin/uv"@),
    }
}

/// Whether a lower-cased canonical path lies where this kind of manager installs.
pub open spec fn canonical_claimed(kind: ManagerKind, tool: Seq<char>, path: Seq<char>) -> bool {
    match kind {
        ManagerKind::Homebrew => contains_seq(path, "/homebrew/"@),
        ManagerKind::Mise => contains_seq(path, "/mise/"@) && contains_seq(path, "/installs/"@),
        ManagerKind::Rustup => contains_seq(path, "/.cargo/"@) || contains_seq(path, "/rustup/"@),
        ManagerKind::Npm => tool == "pnpm"@ && contains_seq(path, "node_modules"@) && !contains_seq(
            path,
            "node_modules/corepack"@,
        ),
        ManagerKind::Corepack => contains_seq(path, "corepack"@) || contains_seq(path, "/shims/"@),
        ManagerKind::BunOfficial => contains_seq(path, "/.bun/"@),
        ManagerKind::DenoOfficial => contains_seq(path, "/.deno/"@),
        ManagerKind::UvStandalone => contains_seq(path, "/.local/bin/uv"@),
    }
}

/// Whether this kind of manager updates `tool` at all.
pub open spec fn updates_tool(kind: ManagerKind, tool: Seq<char>) -> bool {
    match kind {
        ManagerKind::Homebrew | ManagerKind::Mise => tool != "npm"@,
        ManagerKind::Rustup => tool == "rust"@,
        ManagerKind::Npm => tool == "npm"@ || tool == "pnpm"@,
        ManagerKind::Corepack => tool == "pnpm"@,
        ManagerKind::BunOfficial => tool == "bun"@,
        ManagerKind::DenoOfficial => tool == "deno"@,
        ManagerKind::UvStandalone => tool == "uv"@,
    }
}

/// Whether a receipt token names a path (it starts with `/` or `~`).
pub open spec fn path_token(t: Seq<char>) -> bool {
    t.len() > 0 && (t[0] == '/' || t[0] == '~')
}

/// Whether evidence is a receipt for `tool` whose listed paths include the active executable,
/// or a receipt for `tool` from a manager whose install location holds the executable.
pub open spec fn receipt_for(
    kind: ManagerKind,
    tool: Seq<char>,
    exe: Seq<char>,
    ev: (Seq<char>, Seq<char>),
    facts: Seq<(Seq<char>, Seq<char>)>,
) -> bool {
    let ws = words(ev.1);
    &&& occurs_at(ev.0, "receipt"@, 0)
    &&& ws.len() > 0 && ws[0] == tool
    &&& (exists|k: int|
        1 <= k < ws.len() && path_token(ws[k]) && path_under(
            resolved(facts, exe),
            resolved(facts, ws[k]),
        )) || path_claimed(kind, tool, unicode_lowercase(resolved(facts, exe)))
}

/// Whether any evidence is a receipt for the tool.
pub open spec fn has_receipt(
    kind: ManagerKind,
    tool: Seq<char>,
    exe: Seq<char>,
    ev: Seq<(Seq<char>, Seq<char>)>,
    facts: Seq<(Seq<char>, Seq<char>)>,
) -> bool {
    exists|k: int| 0 <= k < ev.len() && receipt_for(kind, tool, exe, ev[k], facts)
}

/// The first receipt for the tool among the evidence.
pub open spec fn first_receipt(
    kind: ManagerKind,
    tool: Seq<char>,
    exe: Seq<char>,
    ev: Seq<(Seq<char>, Seq<char>)>,
    facts: Seq<(Seq<char>, Seq<char>)>,
    n: int,
) -> Option<int>
    decreases n,
{
    if n <= 0 {
        None
    } else {
        match first_receipt(kind, tool, exe, ev, facts, n - 1) {
            Some(k) => Some(k),
            None => if receipt_for(kind, tool, exe, ev[n - 1], facts) {
                Some(n - 1)
            } else {
                None
            },
        }
    }
}

/// How strong a manager's claim on the tool is: a receipt, else a canonical path where this
/// manager installs, else a path heuristic.
pub open spec fn claim_confidence(
    kind: ManagerKind,
    tool: Seq<char>,
    exe: Seq<char>,
    ev: Seq<(Seq<char>, Seq<char>)>,
    facts: Seq<(Seq<char>, Seq<char>)>,
) -> ClaimConfidence {
    if has_receipt(kind, tool, exe, ev, facts) {
        ClaimConfidence::Receipt
    } else if canonical_of(facts, exe) matches Some(c) && canonical_claimed(
        kind,
        tool,
        unicode_lowercase(c),
    ) {
        ClaimConfidence::CanonicalPath
    } else {
        ClaimConfidence::PathHeuristic
    }
}

/// The text of a claim's evidence: `<manager> <role> evidence: ` and, redacted, the first
/// matching receipt (`<kind>: <value>`) where `receipt` holds, else the active executable.
pub open spec fn claim_evidence_text(
    kind: ManagerKind,
    tool: Seq<char>,
    exe: Seq<char>,
    ev: Seq<(Seq<char>, Seq<char>)>,
    facts: Seq<(Seq<char>, Seq<char>)>,
    home: Option<Seq<char>>,
    receipt: bool,
    role: Seq<char>,
) -> Seq<char> {
    let basis = if receipt && first_receipt(kind, tool, exe, ev, facts, ev.len() as int) is Some {
        let k = first_receipt(kind, tool, exe, ev, facts, ev.len() as int)->0;
        ev[k].0 + ": "@ + ev[k].1
    } else {
        "active executable: "@ + exe
    };
    kind_name(kind) + " "@ + role + " evidence: "@ + redacted(basis, home)
}

/// The source a manager claims: `npm-global` for npm, else the manager's own identifier.
pub open spec fn source_name(kind: ManagerKind) -> Seq<char> {
    if kind == ManagerKind::Npm {
        "npm-global"@
    } else {
        kind_name(kind)
    }
}

/// Whether the evidence marks the tool as selected by project policy
/// (`project-policy:<tool>`).
pub open spec fn project_managed(tool: Seq<char>, ev: Seq<(Seq<char>, Seq<char>)>) -> bool {
    exists|k: int| 0 <= k < ev.len() && ev[k].0 == "project-policy:"@ + tool
}

/// Whether a manager makes any claim on the tool: a receipt, or (except mise for pnpm) its
/// install location.
pub open spec fn claims_anything(
    kind: ManagerKind,
    tool: Seq<char>,
    exe: Seq<char>,
    ev: Seq<(Seq<char>, Seq<char>)>,
    facts: Seq<(Seq<char>, Seq<char>)>,
) -> bool {
    let receipt = has_receipt(kind, tool, exe, ev, facts);
    !(kind == ManagerKind::Mise && tool == "pnpm"@ && !receipt) && (path_claimed(
        kind,
        tool,
        unicode_lowercase(resolved(facts, exe)),
    ) || receipt)
}

/// Whether a manager claims to be the tool's source: it claims anything, and it is not npm
/// speaking of npm itself.
pub open spec fn claims_source(
    kind: ManagerKind,
    tool: Seq<char>,
    exe: Seq<char>,
    ev: Seq<(Seq<char>, Seq<char>)>,
    facts: Seq<(Seq<char>, Seq<char>)>,
) -> bool {
    claims_anything(kind, tool, exe, ev, facts) && !(kind == ManagerKind::Npm && tool == "npm"@)
}

/// Whether a manager claims to update the tool: it claims anything, it updates such tools, and
/// no project policy selects the tool.
pub open spec fn claims_updater(
    kind: ManagerKind,
    tool: Seq<char>,
    exe: Seq<char>,
    ev: Seq<(Seq<char>, Seq<char>)>,
    facts: Seq<(Seq<char>, Seq<char>)>,
) -> bool {
    claims_anything(kind, tool, exe, ev, facts) && updates_tool(kind, tool) && !project_managed(
        tool,
        ev,
    )
}

/// What a manager claims about a tool: a source claim exactly where `claims_source` holds and
/// an updater claim exactly where `claims_updater` holds, each with the manager's confidence
/// and its evidence text.
pub open spec fn claim_result(
    kind: ManagerKind,
    tool: Seq<char>,
    exe: Seq<char>,
    ev: Seq<(Seq<char>, Seq<char>)>,
    facts: Seq<(Seq<char>, Seq<char>)>,
    home: Option<Seq<char>>,
    c: ManagerClaims,
) -> bool {
    let conf = claim_confidence(kind, tool, exe, ev, facts);
    let receipt = has_receipt(kind, tool, exe, ev, facts);
    &&& c.source is Some <==> claims_source(kind, tool, exe, ev, facts)
    &&& c.updater is Some <==> claims_updater(kind, tool, exe, ev, facts)
    &&& c.source matches Some(s) ==> s.source@ == source_name(kind) && s.confidence == conf
        && s.evidence@ == claim_evidence_text(kind, tool, exe, ev, facts, home, receipt, "source"@)
    &&& c.updater matches Some(u) ==> u.manager@ == kind_name(kind) && u.confidence == conf
        && u.evidence@ == claim_evidence_text(kind, tool, exe, ev, facts, home, receipt, "updater"@)
}

/// A built-in install manager.
#[derive(Debug, Clone, Copy, PartialEq, Eq, Structural)]
pub struct BuiltinInstallManager {
    pub kind: ManagerKind,
}

/// The built-in managers, in the order in which they are consulted.
pub open spec fn manager_order() -> Seq<ManagerKind> {
    seq![
        ManagerKind::Homebrew,
        ManagerKind::Mise,
        ManagerKind::Rustup,
        ManagerKind::Npm,
        ManagerKind::Corepack,
        ManagerKind::BunOfficial,
        ManagerKind::DenoOfficial,
        ManagerKind::UvStandalone,
    ]
}

/// The built-in install managers, in a fixed order.
pub fn install_manager_registry() -> (r: Vec<BuiltinInstallManager>)
    ensures
        r@.len() == manager_order().len(),
        forall|k: int| 0 <= k < r@.len() ==> (#[trigger] r@[k]).kind == manager_order()[k],
{
    let r = vec![
        BuiltinInstallManager { kind: ManagerKind::Homebrew },
        BuiltinInstallManager { kind: ManagerKind::Mise },
        BuiltinInstallManager { kind: ManagerKind::Rustup },
        BuiltinInstallManager { kind: ManagerKind::Npm },
        BuiltinInstallManager { kind: ManagerKind::Corepack },
        BuiltinInstallManager { kind: ManagerKind::BunOfficial },
        BuiltinInstallManager { kind: ManagerKind::DenoOfficial },
        BuiltinInstallManager { kind: ManagerKind::UvStandalone },
    ];
    r
}

fn text_has(text: &Vec<char>, pattern: &str) -> (r: bool)
    ensures
        r == contains_seq(text@, pattern@),
{
    contains_chars(text, &chars_of(pattern))
}

fn is_tool(tool: &DetectedTool, name: &str) -> (r: bool)
    ensures
        r == (tool.id@ == name@),
{
    crate::text::str_eq(tool.id.as_str(), name)
}

impl BuiltinInstallManager {
    /// The manager's identifier.
    pub fn id(&self) -> (r: ManagerId)
        ensures
            r@ == kind_name(self.kind),
    {
        match ManagerId::new(kind_id(self.kind)) {
            Ok(id) => id,
            Err(_) => {
                proof {
                    assert(false);
                }
                ManagerId::new("homebrew").unwrap()
            },
        }
    }

    /// Whether the lower-cased path lies where this manager installs `tool`.
    fn claims_path(&self, tool: &DetectedTool, path: &Vec<char>) -> (r: bool)
        ensures
            r == path_claimed(self.kind, tool.id@, path@),
    {
        match self.kind {
            ManagerKind::Homebrew => text_has(path, "/homebrew/"),
            ManagerKind::Mise => text_has(path, "/mise/") && text_has(path, "/installs/"),
            ManagerKind::Rustup => is_tool(tool, "rust") && (text_has(path, "/.cargo/") || text_has(
                path,
                "/rustup/",
            )),
            ManagerKind::Npm => is_tool(tool, "npm") || (is_tool(tool, "pnpm") && text_has(
                path,
                "node_modules",
            ) && !text_has(path, "node_modules/corepack")),
            ManagerKind::Corepack => is_tool(tool, "pnpm") && (text_has(path, "corepack")
                || text_has(path, "/shims/")),
            ManagerKind::BunOfficial => is_tool(tool, "bun") && text_has(path, "/.bun/"),
            ManagerKind::DenoOfficial => is_tool(tool, "deno") && text_has(path, "/.deno/"),
            ManagerKind::UvStandalone => is_tool(tool, "uv") && text_has(path, "/.local/bin/uv"),
        }
    }

    /// Whether the lower-cased canonical path lies where this manager installs.
    fn claims_canonical(&self, tool: &DetectedTool, path: &Vec<char>) -> (r: bool)
        ensures
            r == canonical_claimed(self.kind, tool.id@, path@),
    {
        match self.kind {
            ManagerKind::Homebrew => text_has(path, "/homebrew/"),
            ManagerKind::Mise => text_has(path, "/mise/") && text_has(path, "/installs/"),
            ManagerKind::Rustup => text_has(path, "/.cargo/") || text_has(path, "/rustup/"),
            ManagerKind::Npm => is_tool(tool, "pnpm") && text_has(path, "node_modules") && !text_has(
                path,
                "node_modules/corepack",
            ),
            ManagerKind::Corepack => text_has(path, "corepack") || text_has(path, "/shims/"),
            ManagerKind::BunOfficial => text_has(path, "/.bun/"),
            ManagerKind::DenoOfficial => text_has(path, "/.deno/"),
            ManagerKind::UvStandalone => text_has(path, "/.local/bin/uv"),
        }
    }

    /// The lower-cased resolved path of the tool's executable.
    fn lowered_path(tool: &DetectedTool, facts: &HostFacts) -> (r: Vec<char>)
        ensures
            r@ == unicode_lowercase(resolved(facts.entries(), tool.executable@)),
    {
        let exe = chars_of(tool.executable.as_str());
        let active = facts.resolve(&exe);
        let text = string_from_chars(&active);
        let lower = to_lowercase(text.as_str());
        chars_of(lower.as_str())
    }

    /// Whether the tool's resolved executable lies where this manager installs it.
    pub fn path_matches(&self, tool: &DetectedTool, facts: &HostFacts) -> (r: bool)
        ensures
            r == path_claimed(
                self.kind,
                tool.id@,
                unicode_lowercase(resolved(facts.entries(), tool.executable@)),
            ),
    {
        let lower = Self::lowered_path(tool, facts);
        self.claims_path(tool, &lower)
    }

    /// Whether the evidence is a receipt for the tool that this manager can stand behind.
    pub fn receipt_matches(
        &self,
        tool: &DetectedTool,
        evidence: &ManagerEvidence,
        facts: &HostFacts,
    ) -> (r: bool)
        ensures
            r == receipt_for(
                self.kind,
                tool.id@,
                tool.executable@,
                (evidence.kind@, evidence.value@),
                facts.entries(),
            ),
    {
        let kind = chars_of(evidence.kind.as_str());
        if !starts_with_chars(&kind, &chars_of("receipt")) {
            return false;
        }
        let value = chars_of(evidence.value.as_str());
        let ws = split_words(&value);
        let id = chars_of(tool.id.as_str());
        if ws.len() == 0 {
            return false;
        }
        assert(char_rows(ws@)[0] == ws@[0]@);
        if !chars_eq(&ws[0], &id) {
            return false;
        }
        let exe = chars_of(tool.executable.as_str());
        let active = facts.resolve(&exe);
        let ghost ts = words(evidence.value@);
        assert(ts.len() > 0 && ts[0] == tool.id@);
        let mut k: usize = 1;
        while k < ws.len()
            invariant
                char_rows(ws@) == ts,
                ts == words(evidence.value@),
                ts.len() > 0 && ts[0] == tool.id@,
                occurs_at(evidence.kind@, "receipt"@, 0),
                1 <= k <= ws@.len(),
                active@ == resolved(facts.entries(), tool.executable@),
                forall|m: int|
                    1 <= m < k ==> !(path_token(ts[m]) && path_under(
                        active@,
                        resolved(facts.entries(), ts[m]),
                    )),
            decreases ws.len() - k,
        {
            assert(char_rows(ws@)[k as int] == ws@[k as int]@);
            let token = &ws[k];
            if token.len() > 0 && (token[0] == '/' || token[0] == '~') {
                let target = facts.resolve(token);
                if is_path_under(&active, &target) {
                    proof {
                        assert(ts[k as int] == token@);
                        assert(path_token(ts[k as int]));
                        assert(path_under(resolved(facts.entries(), tool.executable@), resolved(facts.entries(), ts[k as int])));
                        assert(exists|j: int|
                            1 <= j < ts.len() && path_token(ts[j]) && path_under(
                                resolved(facts.entries(), tool.executable@),
                                resolved(facts.entries(), ts[j]),
                            ));
                    }
                    return true;
                }
            }
            k = k + 1;
        }
        self.path_matches(tool, facts)
    }

    /// The first receipt for the tool among the snapshot's evidence.
    fn find_receipt(&self, tool: &DetectedTool, snapshot: &ManagerSnapshot, facts: &HostFacts) -> (r:
        Option<usize>)
        ensures
            match (r, first_receipt(
                self.kind,
                tool.id@,
                tool.executable@,
                evidence_pairs(snapshot.evidence@),
                facts.entries(),
                snapshot.evidence@.len() as int,
            )) {
                (Some(x), Some(y)) => x as int == y,
                (None, None) => true,
                _ => false,
            },
            r is Some <==> has_receipt(
                self.kind,
                tool.id@,
                tool.executable@,
                evidence_pairs(snapshot.evidence@),
                facts.entries(),
            ),
            r matches Some(k) ==> k < snapshot.evidence@.len(),
    {
        let ghost ev = evidence_pairs(snapshot.evidence@);
        let mut k: usize = 0;
        while k < snapshot.evidence.len()
            invariant
                ev == evidence_pairs(snapshot.evidence@),
                k <= snapshot.evidence@.len(),
                first_receipt(self.kind, tool.id@, tool.executable@, ev, facts.entries(), k as int)
                    is None,
                forall|m: int|
                    0 <= m < k ==> !receipt_for(
                        self.kind,
                        tool.id@,
                        tool.executable@,
                        #[trigger] ev[m],
                        facts.entries(),
                    ),
            decreases snapshot.evidence.len() - k,
        {
            if self.receipt_matches(tool, &snapshot.evidence[k], facts) {
                proof {
                    assert(ev[k as int] == (snapshot.evidence@[k as int].kind@, snapshot.evidence@[
                        k as int].value@));
                    assert(first_receipt(
                        self.kind,
                        tool.id@,
                        tool.executable@,
                        ev,
                        facts.entries(),
                        k as int + 1,
                    ) == Some(k as int));
                    lemma_first_receipt_stays(
                        self.kind,
                        tool.id@,
                        tool.executable@,
                        ev,
                        facts.entries(),
                        k as int + 1,
                        ev.len() as int,
                    );
                }
                return Some(k);
            }
            k = k + 1;
        }
        None
    }

    /// How strong this manager's claim on the tool is.
    pub fn confidence(&self, tool: &DetectedTool, snapshot: &ManagerSnapshot, facts: &HostFacts) -> (r:
        ClaimConfidence)
        ensures
            r == claim_confidence(
                self.kind,
                tool.id@,
                tool.executable@,
                evidence_pairs(snapshot.evidence@),
                facts.entries(),
            ),
    {
        if self.find_receipt(tool, snapshot, facts).is_some() {
            return ClaimConfidence::Receipt;
        }
        let exe = chars_of(tool.executable.as_str());
        match facts.canonical(&exe) {
            Some(c) => {
                let text = string_from_chars(&c);
                let lower = to_lowercase(text.as_str());
                let lowered = chars_of(lower.as_str());
                if self.claims_canonical(tool, &lowered) {
                    ClaimConfidence::CanonicalPath
                } else {
                    ClaimConfidence::PathHeuristic
                }
            },
            None => ClaimConfidence::PathHeuristic,
        }
    }

    /// Whether this manager updates such a tool at all.
    pub fn supports_update(&self, tool: &DetectedTool) -> (r: bool)
        ensures
            r == updates_tool(self.kind, tool.id@),
    {
        match self.kind {
            ManagerKind::Homebrew | ManagerKind::Mise => !is_tool(tool, "npm"),
            ManagerKind::Rustup => is_tool(tool, "rust"),
            ManagerKind::Npm => is_tool(tool, "npm") || is_tool(tool, "pnpm"),
            ManagerKind::Corepack => is_tool(tool, "pnpm"),
            ManagerKind::BunOfficial => is_tool(tool, "bun"),
            ManagerKind::DenoOfficial => is_tool(tool, "deno"),
            ManagerKind::UvStandalone => is_tool(tool, "uv"),
        }
    }

    /// The evidence text of a claim in the given role.
    pub fn claim_evidence(
        &self,
        tool: &DetectedTool,
        snapshot: &ManagerSnapshot,
        receipt: bool,
        role: &str,
        facts: &HostFacts,
    ) -> (r: String)
        ensures
            r@ == claim_evidence_text(
                self.kind,
                tool.id@,
                tool.executable@,
                evidence_pairs(snapshot.evidence@),
                facts.entries(),
                facts.home_view(),
                receipt,
                role@,
            ),
    {
        let found = if receipt {
            self.find_receipt(tool, snapshot, facts)
        } else {
            None
        };
        let mut basis: Vec<char> = Vec::new();
        match found {
            Some(k) => {
                let e = &snapshot.evidence[k];
                push_all(&mut basis, &chars_of(e.kind.as_str()));
                push_all(&mut basis, &chars_of(": "));
                push_all(&mut basis, &chars_of(e.value.as_str()));
                proof {
                    assert(evidence_pairs(snapshot.evidence@)[k as int] == (e.kind@, e.value@));
                    assert(basis@ =~= e.kind@ + ": "@ + e.value@);
                }
            },
            None => {
                push_all(&mut basis, &chars_of("active executable: "));
                push_all(&mut basis, &chars_of(tool.executable.as_str()));
                proof {
                    assert(basis@ =~= "active executable: "@ + tool.executable@);
                }
            },
        }
        let basis_text = string_from_chars(&basis);
        let hidden = redact(basis_text.as_str(), facts_home(facts));
        let mut out: Vec<char> = Vec::new();
        push_all(&mut out, &chars_of(kind_id(self.kind)));
        push_all(&mut out, &chars_of(" "));
        push_all(&mut out, &chars_of(role));
        push_all(&mut out, &chars_of(" evidence: "));
        push_all(&mut out, &chars_of(hidden.as_str()));
        proof {
            assert(out@ =~= kind_name(self.kind) + " "@ + role@ + " evidence: "@ + hidden@);
        }
        string_from_chars(&out)
    }

    /// What this manager claims about the tool, given what the file system says about paths.
    pub fn claim_in(&self, tool: &DetectedTool, snapshot: &ManagerSnapshot, facts: &HostFacts) -> (r:
        ManagerClaims)
        ensures
            claim_result(
                self.kind,
                tool.id@,
                tool.executable@,
                evidence_pairs(snapshot.evidence@),
                facts.entries(),
                facts.home_view(),
                r,
            ),
    {
        let ghost ev = evidence_pairs(snapshot.evidence@);
        let receipt = self.find_receipt(tool, snapshot, facts).is_some();
        if self.kind == ManagerKind::Mise && is_tool(tool, "pnpm") && !receipt {
            return ManagerClaims { source: None, updater: None };
        }
        if !self.path_matches(tool, facts) && !receipt {
            return ManagerClaims { source: None, updater: None };
        }
        let confidence = self.confidence(tool, snapshot, facts);
        let source = if !(self.kind == ManagerKind::Npm && is_tool(tool, "npm")) {
            let name = if self.kind == ManagerKind::Npm {
                "npm-global"
            } else {
                kind_id(self.kind)
            };
            proof {
                reveal_strlit("npm-global");
            }
            let id = match SourceId::new(name) {
                Ok(id) => id,
                Err(_) => {
                    proof {
                        assert(false);
                    }
                    return ManagerClaims { source: None, updater: None };
                },
            };
            Some(
                SourceClaim {
                    source: id,
                    confidence,
                    evidence: self.claim_evidence(tool, snapshot, receipt, "source", facts),
                },
            )
        } else {
            None
        };
        let marker = chars_of("project-policy:");
        let policy = concat_chars(&marker, &chars_of(tool.id.as_str()));
        let mut managed = false;
        let mut k: usize = 0;
        while k < snapshot.evidence.len()
            invariant
                ev == evidence_pairs(snapshot.evidence@),
                k <= snapshot.evidence@.len(),
                policy@ == "project-policy:"@ + tool.id@,
                managed == (exists|m: int| 0 <= m < k && ev[m].0 == policy@),
            decreases snapshot.evidence.len() - k,
        {
            let kind = chars_of(snapshot.evidence[k].kind.as_str());
            if chars_eq(&kind, &policy) {
                managed = true;
                assert(ev[k as int].0 == policy@);
            }
            k = k + 1;
        }
        let updater = if self.supports_update(tool) && !managed {
            Some(
                UpdaterClaim {
                    manager: self.id(),
                    confidence,
                    evidence: self.claim_evidence(tool, snapshot, receipt, "updater", facts),
                },
            )
        } else {
            None
        };
        ManagerClaims { source, updater }
    }

    /// What this manager claims about the tool where no path canonicalizes and no home
    /// directory is known: `claim_in` with empty host facts.
    pub fn claim(&self, tool: &DetectedTool, snapshot: &ManagerSnapshot) -> (r: ManagerClaims)
        ensures
            claim_result(
                self.kind,
                tool.id@,
                tool.executable@,
                evidence_pairs(snapshot.evidence@),
                Seq::empty(),
                None,
                r,
            ),
    {
        let facts = HostFacts::none();
        assert(facts.entries() =~= Seq::<(Seq<char>, Seq<char>)>::empty());
        self.claim_in(tool, snapshot, &facts)
    }
}


/// Why a manager could not build an update or read a latest version.
#[derive(Debug, PartialEq, Eq)]
pub enum ManagerError {
    /// Homebrew receipts and paths do not tell a formula from a cask.
    AmbiguousBrewKind,
    /// The rustup snapshot names no active channel.
    NoActiveChannel,
    /// `rustup check` printed no version for the active channel.
    NoRustupVersion,
    /// The Homebrew response could not be read; the parser's message.
    BrewInvalid(String),
    /// The Homebrew response holds no version.
    BrewNoVersion,
    /// The Bun release response could not be read.
    BunInvalid,
    /// The Bun release response holds no version.
    BunNoVersion,
    /// The latest-version output holds no version.
    NoVersion,
    /// The version text was refused.
    Version(ProviderError),
    /// Only Homebrew formulae and casks can be updated as inventory items.
    UnsupportedInventory,
    /// The update command was refused.
    Command(CommandError),
    /// Homebrew printed an empty prefix.
    EmptyPrefix,
}

impl ManagerError {
    /// The message shown for this error.
    pub fn message(&self) -> (r: String)
        ensures
            r@ == manager_error_text(*self),
    {
        match self {
            ManagerError::AmbiguousBrewKind => owned("Homebrew formula/cask ownership is ambiguous"),
            ManagerError::NoActiveChannel => owned("rustup snapshot had no active channel"),
            ManagerError::NoRustupVersion => owned("rustup check had no active-channel version"),
            ManagerError::BrewInvalid(m) => owned(m.as_str()),
            ManagerError::BrewNoVersion => owned("Homebrew response had no version"),
            ManagerError::BunInvalid => owned("invalid Bun release response"),
            ManagerError::BunNoVersion => owned("Bun release response had no version"),
            ManagerError::NoVersion => owned("latest output had no version"),
            ManagerError::Version(e) => e.message(),
            ManagerError::UnsupportedInventory => owned("unsupported inventory update target"),
            ManagerError::Command(e) => owned(e.message()),
            ManagerError::EmptyPrefix => owned("Homebrew prefix is empty"),
        }
    }
}

/// The message of a manager error.
pub open spec fn manager_error_text(e: ManagerError) -> Seq<char> {
    match e {
        ManagerError::AmbiguousBrewKind => "Homebrew formula/cask ownership is ambiguous"@,
        ManagerError::NoActiveChannel => "rustup snapshot had no active channel"@,
        ManagerError::NoRustupVersion => "rustup check had no active-channel version"@,
        ManagerError::BrewInvalid(m) => m@,
        ManagerError::BrewNoVersion => "Homebrew response had no version"@,
        ManagerError::BunInvalid => "invalid Bun release response"@,
        ManagerError::BunNoVersion => "Bun release response had no version"@,
        ManagerError::NoVersion => "latest output had no version"@,
        ManagerError::Version(p) => match p {
            ProviderError::InvalidId(v) => "invalid provider id `"@ + v@ + "`"@,
            ProviderError::EmptyVersion => "tool version cannot be empty"@,
            ProviderError::EmptyNormalizedVersion => "normalized tool version cannot be empty"@,
        },
        ManagerError::UnsupportedInventory => "unsupported inventory update target"@,
        ManagerError::Command(c) => match c {
            CommandError::MissingTarget => "Homebrew upgrade requires an explicit target"@,
            CommandError::InvalidKind => "Homebrew upgrade requires a formula or cask target kind"@,
        },
        ManagerError::EmptyPrefix => "Homebrew prefix is empty"@,
    }
}

/// The first index below `n` whose evidence has kind `k`.
pub open spec fn first_of_kind(ev: Seq<(Seq<char>, Seq<char>)>, k: Seq<char>, n: int) -> Option<
    int,
>
    decreases n,
{
    if n <= 0 {
        None
    } else {
        match first_of_kind(ev, k, n - 1) {
            Some(i) => Some(i),
            None => if ev[n - 1].0 == k {
                Some(n - 1)
            } else {
                None
            },
        }
    }
}

/// The value of the first evidence of kind `k`.
pub open spec fn value_of_kind(ev: Seq<(Seq<char>, Seq<char>)>, k: Seq<char>) -> Option<Seq<char>> {
    match first_of_kind(ev, k, ev.len() as int) {
        Some(i) => Some(ev[i].1),
        None => None,
    }
}

/// The version selector recorded for the tool (`selector:<tool>`), else `latest`.
pub open spec fn selector_for(tool: Seq<char>, ev: Seq<(Seq<char>, Seq<char>)>) -> Seq<char> {
    match value_of_kind(ev, "selector:"@ + tool) {
        Some(v) => v,
        None => "latest"@,
    }
}

/// The active rustup channel: the first word of the first `active-toolchain` evidence.
pub open spec fn active_channel(ev: Seq<(Seq<char>, Seq<char>)>) -> Option<Seq<char>> {
    match value_of_kind(ev, "active-toolchain"@) {
        Some(v) => if words(v).len() > 0 {
            Some(words(v)[0])
        } else {
            None
        },
        None => None,
    }
}

/// Whether some evidence of kind `k` is a receipt whose first word is the tool.
pub open spec fn names_tool(ev: Seq<(Seq<char>, Seq<char>)>, k: Seq<char>, tool: Seq<char>) -> bool {
    exists|i: int|
        0 <= i < ev.len() && ev[i].0 == k && words(ev[i].1).len() > 0 && words(ev[i].1)[0] == tool
}

/// Whether some evidence of kind `k` is a receipt that Homebrew stands behind for the tool.
pub open spec fn exact_receipt(
    ev: Seq<(Seq<char>, Seq<char>)>,
    k: Seq<char>,
    tool: Seq<char>,
    exe: Seq<char>,
    facts: Seq<(Seq<char>, Seq<char>)>,
) -> bool {
    exists|i: int|
        0 <= i < ev.len() && ev[i].0 == k && receipt_for(
            ManagerKind::Homebrew,
            tool,
            exe,
            ev[i],
            facts,
        )
}

/// The Homebrew item kind flag for the tool: `--cask` where a cask receipt matches exactly,
/// the executable lies in the Caskroom or only a cask is listed; else `--formula` where a
/// formula receipt matches exactly, the executable lies in the Cellar or under `opt`, or only
/// a formula is listed; else none.
pub open spec fn brew_flag(
    tool: Seq<char>,
    exe: Seq<char>,
    ev: Seq<(Seq<char>, Seq<char>)>,
    facts: Seq<(Seq<char>, Seq<char>)>,
) -> Option<Seq<char>> {
    let canonical = unicode_lowercase(resolved(facts, exe));
    let formula = names_tool(ev, "receipt:formula"@, tool);
    let cask = names_tool(ev, "receipt:cask"@, tool);
    if exact_receipt(ev, "receipt:cask"@, tool, exe, facts) || contains_seq(canonical, "/caskroom/"@)
        || (cask && !formula) {
        Some("--cask"@)
    } else if exact_receipt(ev, "receipt:formula"@, tool, exe, facts) || contains_seq(
        canonical,
        "/cellar/"@,
    ) || contains_seq(canonical, "/opt/"@) || (formula && !cask) {
        Some("--formula"@)
    } else {
        None
    }
}

/// The update a manager proposes, as (program, arguments, target mode).
pub open spec fn upgrade_plan(
    kind: ManagerKind,
    tool: Seq<char>,
    exe: Seq<char>,
    latest: Seq<char>,
    ev: Seq<(Seq<char>, Seq<char>)>,
    facts: Seq<(Seq<char>, Seq<char>)>,
) -> Result<(Seq<char>, Seq<Seq<char>>, TargetMode), ManagerError> {
    match kind {
        ManagerKind::Homebrew => match brew_flag(tool, exe, ev, facts) {
            Some(flag) => Ok(("brew"@, seq!["upgrade"@, flag, tool], TargetMode::Floating)),
            None => Err(ManagerError::AmbiguousBrewKind),
        },
        ManagerKind::Mise => Ok(
            ("mise"@, seq!["use"@, "-g"@, tool + "@"@ + selector_for(tool, ev)], TargetMode::Floating),
        ),
        ManagerKind::Rustup => match active_channel(ev) {
            Some(channel) => Ok(("rustup"@, seq!["update"@, channel], TargetMode::Floating)),
            None => Err(ManagerError::NoActiveChannel),
        },
        ManagerKind::Npm => Ok(
            ("npm"@, seq!["install"@, "--global"@, tool + "@"@ + latest], TargetMode::Exact),
        ),
        ManagerKind::Corepack => Ok(
            ("corepack"@, seq!["prepare"@, "pnpm@"@ + latest, "--activate"@], TargetMode::Exact),
        ),
        ManagerKind::BunOfficial => Ok(("bun"@, seq!["upgrade"@], TargetMode::Floating)),
        ManagerKind::DenoOfficial => Ok(
            ("deno"@, seq!["upgrade"@, "--version"@, latest], TargetMode::Exact),
        ),
        ManagerKind::UvStandalone => Ok(
            ("uv"@, seq!["self"@, "update"@, latest], TargetMode::Exact),
        ),
    }
}

/// The first evidence of kind `k`.
fn find_kind(ev: &Vec<ManagerEvidence>, k: &Vec<char>) -> (r: Option<usize>)
    ensures
        match (r, first_of_kind(evidence_pairs(ev@), k@, ev@.len() as int)) {
            (Some(x), Some(y)) => x as int == y,
            (None, None) => true,
            _ => false,
        },
        r matches Some(i) ==> i < ev@.len(),
{
    let ghost es = evidence_pairs(ev@);
    let mut i: usize = 0;
    while i < ev.len()
        invariant
            es == evidence_pairs(ev@),
            i <= ev@.len(),
            first_of_kind(es, k@, i as int) is None,
        decreases ev.len() - i,
    {
        let kind = chars_of(ev[i].kind.as_str());
        assert(es[i as int] == (ev@[i as int].kind@, ev@[i as int].value@));
        if chars_eq(&kind, k) {
            proof {
                lemma_first_of_kind_stays(es, k@, i + 1, es.len() as int);
            }
            return Some(i);
        }
        i = i + 1;
    }
    None
}

proof fn lemma_first_of_kind_stays(
    ev: Seq<(Seq<char>, Seq<char>)>,
    k: Seq<char>,
    n: int,
    m: int,
)
    requires
        1 <= n <= m,
        first_of_kind(ev, k, n) is Some,
    ensures
        first_of_kind(ev, k, m) == first_of_kind(ev, k, n),
    decreases m - n,
{
    if m > n {
        lemma_first_of_kind_stays(ev, k, n, m - 1);
    }
}

/// The value of the first evidence of kind `k`.
fn value_with_kind(ev: &Vec<ManagerEvidence>, k: &Vec<char>) -> (r: Option<Vec<char>>)
    ensures
        match (r, value_of_kind(evidence_pairs(ev@), k@)) {
            (Some(x), Some(y)) => x@ == y,
            (None, None) => true,
            _ => false,
        },
{
    match find_kind(ev, k) {
        Some(i) => {
            assert(evidence_pairs(ev@)[i as int] == (ev@[i as int].kind@, ev@[i as int].value@));
            Some(chars_of(ev[i].value.as_str()))
        },
        None => None,
    }
}

pub(crate) fn selector_of(tool: &DetectedTool, ev: &Vec<ManagerEvidence>) -> (r: Vec<char>)
    ensures
        r@ == selector_for(tool.id@, evidence_pairs(ev@)),
{
    let key = concat_chars(&chars_of("selector:"), &chars_of(tool.id.as_str()));
    match value_with_kind(ev, &key) {
        Some(v) => v,
        None => chars_of("latest"),
    }
}

pub(crate) fn channel_of(ev: &Vec<ManagerEvidence>) -> (r: Option<Vec<char>>)
    ensures
        match (r, active_channel(evidence_pairs(ev@))) {
            (Some(x), Some(y)) => x@ == y,
            (None, None) => true,
            _ => false,
        },
{
    match value_with_kind(ev, &chars_of("active-toolchain")) {
        Some(v) => {
            let ws = split_words(&v);
            if ws.len() > 0 {
                assert(char_rows(ws@)[0] == ws@[0]@);
                Some(copy_chars(&ws[0]))
            } else {
                None
            }
        },
        None => None,
    }
}

/// Whether the first word of `value` is `id`.
fn first_word_is(value: &String, id: &Vec<char>) -> (r: bool)
    ensures
        r == (words(value@).len() > 0 && words(value@)[0] == id@),
{
    let ws = split_words(&chars_of(value.as_str()));
    if ws.len() == 0 {
        return false;
    }
    assert(char_rows(ws@)[0] == ws@[0]@);
    chars_eq(&ws[0], id)
}

/// A string from characters, as an owned argument.
fn arg(chars: &Vec<char>) -> (r: String)
    ensures
        r@ == chars@,
{
    string_from_chars(chars)
}

impl BuiltinInstallManager {
    /// Whether some evidence of kind `k` names the tool, and whether some is an exact receipt.
    fn brew_receipts(
        &self,
        tool: &DetectedTool,
        snapshot: &ManagerSnapshot,
        facts: &HostFacts,
        k: &Vec<char>,
    ) -> (r: (bool, bool))
        requires
            self.kind == ManagerKind::Homebrew,
        ensures
            r.0 == names_tool(evidence_pairs(snapshot.evidence@), k@, tool.id@),
            r.1 == exact_receipt(
                evidence_pairs(snapshot.evidence@),
                k@,
                tool.id@,
                tool.executable@,
                facts.entries(),
            ),
    {
        let ghost ev = evidence_pairs(snapshot.evidence@);
        let id = chars_of(tool.id.as_str());
        let mut named = false;
        let mut exact = false;
        let mut i: usize = 0;
        while i < snapshot.evidence.len()
            invariant
                self.kind == ManagerKind::Homebrew,
                ev == evidence_pairs(snapshot.evidence@),
                id@ == tool.id@,
                i <= ev.len(),
                named == (exists|j: int|
                    0 <= j < i && ev[j].0 == k@ && words(ev[j].1).len() > 0 && words(ev[j].1)[0]
                        == tool.id@),
                exact == (exists|j: int|
                    0 <= j < i && ev[j].0 == k@ && receipt_for(
                        ManagerKind::Homebrew,
                        tool.id@,
                        tool.executable@,
                        ev[j],
                        facts.entries(),
                    )),
            decreases ev.len() - i,
        {
            let e = &snapshot.evidence[i];
            assert(ev[i as int] == (e.kind@, e.value@));
            let kind = chars_of(e.kind.as_str());
            if chars_eq(&kind, k) {
                if first_word_is(&e.value, &id) {
                    named = true;
                }
                if self.receipt_matches(tool, e, facts) {
                    exact = true;
                }
            }
            i = i + 1;
        }
        (named, exact)
    }

    /// The Homebrew item kind flag for the tool.
    fn brew_flag_for(&self, tool: &DetectedTool, snapshot: &ManagerSnapshot, facts: &HostFacts) -> (r:
        Option<&'static str>)
        requires
            self.kind == ManagerKind::Homebrew,
        ensures
            match (r, brew_flag(
                tool.id@,
                tool.executable@,
                evidence_pairs(snapshot.evidence@),
                facts.entries(),
            )) {
                (Some(x), Some(y)) => x@ == y,
                (None, None) => true,
                _ => false,
            },
    {
        let canonical = Self::lowered_path(tool, facts);
        let (formula, formula_exact) = self.brew_receipts(
            tool,
            snapshot,
            facts,
            &chars_of("receipt:formula"),
        );
        let (cask, cask_exact) = self.brew_receipts(tool, snapshot, facts, &chars_of("receipt:cask"));
        if cask_exact || text_has(&canonical, "/caskroom/") || (cask && !formula) {
            Some("--cask")
        } else if formula_exact || text_has(&canonical, "/cellar/") || text_has(&canonical, "/opt/")
            || (formula && !cask) {
            Some("--formula")
        } else {
            None
        }
    }

    /// The update this manager proposes for the tool, to reach `latest`.
    pub fn upgrade_in(
        &self,
        tool: &DetectedTool,
        latest: &ToolVersion,
        snapshot: &ManagerSnapshot,
        facts: &HostFacts,
    ) -> (r: Result<UpgradeAction, ManagerError>)
        ensures
            match (r, upgrade_plan(
                self.kind,
                tool.id@,
                tool.executable@,
                latest.display_view(),
                evidence_pairs(snapshot.evidence@),
                facts.entries(),
            )) {
                (Ok(a), Ok(plan)) => plain_command(a.command, plan.0, plan.1) && a.target_mode
                    == plan.2 && a.manager@ == kind_name(self.kind) && a.expected_version
                    == *latest,
                (Err(x), Err(y)) => x == y,
                _ => false,
            },
    {
        let id = chars_of(tool.id.as_str());
        let shown = chars_of(latest.display());
        let mut args: Vec<String> = Vec::new();
        let program: &str;
        let mode: TargetMode;
        match self.kind {
            ManagerKind::Homebrew => {
                let flag = match self.brew_flag_for(tool, snapshot, facts) {
                    Some(f) => f,
                    None => {
                        return Err(ManagerError::AmbiguousBrewKind);
                    },
                };
                program = "brew";
                args.push(owned("upgrade"));
                args.push(owned(flag));
                args.push(arg(&id));
                mode = TargetMode::Floating;
            },
            ManagerKind::Mise => {
                let selector = selector_of(tool, &snapshot.evidence);
                let target = concat_chars(&concat_chars(&id, &chars_of("@")), &selector);
                program = "mise";
                args.push(owned("use"));
                args.push(owned("-g"));
                args.push(arg(&target));
                mode = TargetMode::Floating;
            },
            ManagerKind::Rustup => {
                let channel = match channel_of(&snapshot.evidence) {
                    Some(c) => c,
                    None => {
                        return Err(ManagerError::NoActiveChannel);
                    },
                };
                program = "rustup";
                args.push(owned("update"));
                args.push(arg(&channel));
                mode = TargetMode::Floating;
            },
            ManagerKind::Npm => {
                let target = concat_chars(&concat_chars(&id, &chars_of("@")), &shown);
                program = "npm";
                args.push(owned("install"));
                args.push(owned("--global"));
                args.push(arg(&target));
                mode = TargetMode::Exact;
            },
            ManagerKind::Corepack => {
                let target = concat_chars(&chars_of("pnpm@"), &shown);
                program = "corepack";
                args.push(owned("prepare"));
                args.push(arg(&target));
                args.push(owned("--activate"));
                mode = TargetMode::Exact;
            },
            ManagerKind::BunOfficial => {
                program = "bun";
                args.push(owned("upgrade"));
                mode = TargetMode::Floating;
            },
            ManagerKind::DenoOfficial => {
                program = "deno";
                args.push(owned("upgrade"));
                args.push(owned("--version"));
                args.push(arg(&shown));
                mode = TargetMode::Exact;
            },
            ManagerKind::UvStandalone => {
                program = "uv";
                args.push(owned("self"));
                args.push(owned("update"));
                args.push(arg(&shown));
                mode = TargetMode::Exact;
            },
        }
        let ghost plan = upgrade_plan(
            self.kind,
            tool.id@,
            tool.executable@,
            latest.display_view(),
            evidence_pairs(snapshot.evidence@),
            facts.entries(),
        );
        proof {
            reveal_strlit("@");
            reveal_strlit("pnpm@");
            assert(plan is Ok);
            assert(views(args@) =~= plan->Ok_0.1);
        }
        let command = CommandSpec::from_parts(owned(program), args);
        Ok(
            UpgradeAction {
                manager: self.id(),
                command,
                expected_version: latest.duplicate(),
                target_mode: mode,
            },
        )
    }

    /// The update this manager proposes where no path canonicalizes: `upgrade_in` with empty
    /// host facts.
    pub fn upgrade(&self, tool: &DetectedTool, latest: &ToolVersion, snapshot: &ManagerSnapshot) -> (r:
        Result<UpgradeAction, ManagerError>)
        ensures
            match (r, upgrade_plan(
                self.kind,
                tool.id@,
                tool.executable@,
                latest.display_view(),
                evidence_pairs(snapshot.evidence@),
                Seq::empty(),
            )) {
                (Ok(a), Ok(plan)) => plain_command(a.command, plan.0, plan.1) && a.target_mode
                    == plan.2 && a.manager@ == kind_name(self.kind) && a.expected_version
                    == *latest,
                (Err(x), Err(y)) => x == y,
                _ => false,
            },
    {
        let facts = HostFacts::none();
        assert(facts.entries() =~= Seq::<(Seq<char>, Seq<char>)>::empty());
        self.upgrade_in(tool, latest, snapshot, &facts)
    }

    /// The update of a Homebrew inventory item (`kind` is `formula` or `cask`) to `latest`.
    pub fn inventory_upgrade(&self, kind: &str, name: &str, latest: &ToolVersion) -> (r: Result<
        UpgradeAction,
        ManagerError,
    >)
        ensures
            self.kind != ManagerKind::Homebrew || !is_brew_kind(kind@) ==> r == Err::<
                UpgradeAction,
                ManagerError,
            >(ManagerError::UnsupportedInventory),
            self.kind == ManagerKind::Homebrew && is_brew_kind(kind@) && all_space(name@) ==> r
                == Err::<UpgradeAction, ManagerError>(
                ManagerError::Command(CommandError::MissingTarget),
            ),
            self.kind == ManagerKind::Homebrew && is_brew_kind(kind@) && !all_space(name@) ==> (r matches Ok(
                a,
            ) && plain_command(a.command, "brew"@, seq!["upgrade"@, "--"@ + kind@, name@])
                && a.manager@ == "homebrew"@ && a.expected_version == *latest && a.target_mode
                == TargetMode::Floating),
    {
        if self.kind != ManagerKind::Homebrew || !(crate::text::str_eq(kind, "formula")
            || crate::text::str_eq(kind, "cask")) {
            return Err(ManagerError::UnsupportedInventory);
        }
        let command = match CommandSpec::brew_inventory_upgrade(kind, name) {
            Ok(c) => c,
            Err(e) => {
                return Err(ManagerError::Command(e));
            },
        };
        Ok(
            UpgradeAction {
                manager: self.id(),
                command,
                expected_version: latest.duplicate(),
                target_mode: TargetMode::Floating,
            },
        )
    }
}

fn facts_home(facts: &HostFacts) -> (r: Option<&str>)
    ensures
        opt_str_view(r) == facts.home_view(),
{
    match &facts.home {
        Some(h) => Some(h.as_str()),
        None => None,
    }
}

proof fn lemma_first_receipt_stays(
    kind: ManagerKind,
    tool: Seq<char>,
    exe: Seq<char>,
    ev: Seq<(Seq<char>, Seq<char>)>,
    facts: Seq<(Seq<char>, Seq<char>)>,
    n: int,
    m: int,
)
    requires
        1 <= n <= m,
        first_receipt(kind, tool, exe, ev, facts, n) == Some(n - 1),
    ensures
        first_receipt(kind, tool, exe, ev, facts, m) == Some(n - 1),
    decreases m - n,
{
    if m > n {
        lemma_first_receipt_stays(kind, tool, exe, ev, facts, n, m - 1);
    }
}


/// The first evidence of a kind is found where evidence of that kind stands and none stands
/// before it.
proof fn lemma_first_of_kind_at(ev: Seq<(Seq<char>, Seq<char>)>, k: Seq<char>, i: int, n: int)
    requires
        0 <= i < n <= ev.len(),
        ev[i].0 == k,
        forall|j: int| 0 <= j < i ==> ev[j].0 != k,
    ensures
        first_of_kind(ev, k, n) == Some(i),
    decreases n,
{
    if n - 1 > i {
        lemma_first_of_kind_at(ev, k, i, n - 1);
    } else {
        lemma_first_of_kind_none(ev, k, i);
    }
}

proof fn lemma_first_of_kind_none(ev: Seq<(Seq<char>, Seq<char>)>, k: Seq<char>, n: int)
    requires
        0 <= n <= ev.len(),
        forall|j: int| 0 <= j < n ==> ev[j].0 != k,
    ensures
        first_of_kind(ev, k, n) is None,
    decreases n,
{
    if n > 0 {
        lemma_first_of_kind_none(ev, k, n - 1);
    }
}

/// A rustup upgrade updates only the active channel: where the first `active-toolchain`
/// evidence begins with the word `c`, the upgrade runs `rustup update c`, a floating target,
/// whatever the tool, its path or the latest version.
pub proof fn law_rustup_updates_the_active_channel(
    tool: Seq<char>,
    exe: Seq<char>,
    latest: Seq<char>,
    ev: Seq<(Seq<char>, Seq<char>)>,
    facts: Seq<(Seq<char>, Seq<char>)>,
    k: int,
)
    requires
        0 <= k < ev.len(),
        ev[k].0 == "active-toolchain"@,
        forall|j: int| 0 <= j < k ==> ev[j].0 != "active-toolchain"@,
        words(ev[k].1).len() > 0,
    ensures
        upgrade_plan(ManagerKind::Rustup, tool, exe, latest, ev, facts) == Ok::<
            (Seq<char>, Seq<Seq<char>>, TargetMode),
            ManagerError,
        >(("rustup"@, seq!["update"@, words(ev[k].1)[0]], TargetMode::Floating)),
{
    lemma_first_of_kind_at(ev, "active-toolchain"@, k, ev.len() as int);
}

/// The official Bun installer's claim: the `bun-official` manager claims, as source and as
/// updater, a `bun` whose lower-cased resolved executable path contains `/.bun/` (the
/// installer's `~/.bun/bin`), unless project policy selects the tool.
pub proof fn law_bun_official_claims_its_install_path(
    exe: Seq<char>,
    ev: Seq<(Seq<char>, Seq<char>)>,
    facts: Seq<(Seq<char>, Seq<char>)>,
    home: Option<Seq<char>>,
    c: ManagerClaims,
)
    requires
        claim_result(ManagerKind::BunOfficial, "bun"@, exe, ev, facts, home, c),
        contains_seq(unicode_lowercase(resolved(facts, exe)), "/.bun/"@),
        forall|j: int| 0 <= j < ev.len() ==> ev[j].0 != "project-policy:"@ + "bun"@,
    ensures
        c.source matches Some(s) && s.source@ == "bun-official"@,
        c.updater matches Some(u) && u.manager@ == "bun-official"@,
{
}


/// The other self-managed installers claim their own install paths the same way, as source and
/// as updater, unless project policy selects the tool: `deno-official` a `deno` under `/.deno/`,
/// `uv-standalone` a `uv` at `/.local/bin/uv`, `rustup` a `rust` under `/.cargo/` or
/// `/rustup/`.
pub proof fn law_installers_claim_their_install_paths(
    kind: ManagerKind,
    tool: Seq<char>,
    exe: Seq<char>,
    ev: Seq<(Seq<char>, Seq<char>)>,
    facts: Seq<(Seq<char>, Seq<char>)>,
    home: Option<Seq<char>>,
    c: ManagerClaims,
)
    requires
        claim_result(kind, tool, exe, ev, facts, home, c),
        forall|j: int| 0 <= j < ev.len() ==> ev[j].0 != "project-policy:"@ + tool,
        ({
            let path = unicode_lowercase(resolved(facts, exe));
            ||| kind == ManagerKind::DenoOfficial && tool == "deno"@ && contains_seq(path, "/.deno/"@)
            ||| kind == ManagerKind::UvStandalone && tool == "uv"@ && contains_seq(
                path,
                "/.local/bin/uv"@,
            )
            ||| kind == ManagerKind::Rustup && tool == "rust"@ && (contains_seq(path, "/.cargo/"@)
                || contains_seq(path, "/rustup/"@))
        }),
    ensures
        c.source matches Some(s) && s.source@ == kind_name(kind),
        c.updater matches Some(u) && u.manager@ == kind_name(kind),
{
}

} // verus!
