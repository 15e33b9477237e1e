//! Other installations of a tool that Homebrew or mise know of, besides the active one.
use super::managers::{
    components, evidence_pairs, path_components, resolved, BuiltinInstallManager, HostFacts,
    ManagerKind, ManagerSnapshot,
};
use super::snapshot::{path_join, JsonField, MiseEntry, MiseTool};
use super::{DetectedTool, SourceId, ToolVersion};
use crate::command::{owned, plain_command, views, CommandSpec};
use crate::reports::AlternativeInstallation;
use crate::sorting::{lemma_concat_contains, lemma_push_contains, same_texts, sorted_distinct, strictly_sorted};
use crate::text::{
    all_space, char_rows, chars_eq, chars_of, concat_chars, copy_chars, lines, occurs_at,
    split_lines, split_words, starts_with_chars, str_all_space, string_from_chars, words,
};
use vstd::prelude::*;

verus! {

/// The last component of a path where it is a name (`Path::file_name`).
pub open spec fn file_name_of(p: Seq<char>) -> Option<Seq<char>> {
    let cs = components(p);
    if cs.len() > 0 && cs.last() != seq!['/'] && cs.last() != seq!['.'] && cs.last() != seq![
        '.',
        '.',
    ] {
        Some(cs.last())
    } else {
        None
    }
}

/// The name of the active executable: the file name of its resolved path, else the tool's
/// identifier.
pub open spec fn active_name(tool: Seq<char>, exe: Seq<char>, facts: Seq<(Seq<char>, Seq<char>)>) -> Seq<
    char,
> {
    match file_name_of(resolved(facts, exe)) {
        Some(n) => n,
        None => tool,
    }
}

/// Whether two paths name the same location component by component.
pub open spec fn same_path(a: Seq<char>, b: Seq<char>) -> bool {
    components(a) == components(b)
}

/// Whether evidence is a Homebrew receipt (`receipt:<kind>`) whose first word is the tool.
pub open spec fn brew_receipt(e: (Seq<char>, Seq<char>), tool: Seq<char>) -> bool {
    occurs_at(e.0, "receipt:"@, 0) && words(e.1).len() > 0 && words(e.1)[0] == tool
}

/// Whether a listed path is another installation of the executable: it has the executable's
/// name and does not resolve to the active executable.
pub open spec fn other_copy(
    p: Seq<char>,
    name: Seq<char>,
    active: Seq<char>,
    facts: Seq<(Seq<char>, Seq<char>)>,
) -> bool {
    file_name_of(p) == Some(name) && !same_path(resolved(facts, p), active)
}

/// Whether `p` is a line of a listing output that is another installation.
pub open spec fn kept_from(
    out: Seq<char>,
    p: Seq<char>,
    name: Seq<char>,
    active: Seq<char>,
    facts: Seq<(Seq<char>, Seq<char>)>,
) -> bool {
    lines(out).contains(p) && other_copy(p, name, active, facts)
}

/// Whether `v` is one of the versions a receipt lists: a word after the first, before the
/// first word that starts with `/`.
pub open spec fn receipt_version(value: Seq<char>, v: Seq<char>) -> bool {
    let ws = words(value);
    exists|k: int|
        1 <= k < ws.len() && ws[k] == v && forall|m: int|
            1 <= m <= k ==> !(ws[m].len() > 0 && ws[m][0] == '/')
}

/// A path of another installation that Homebrew's receipts among the first `n` lead to.
pub open spec fn brew_path(
    ev: Seq<(Seq<char>, Seq<char>)>,
    outs: Seq<Option<String>>,
    n: int,
    p: Seq<char>,
    tool: Seq<char>,
    name: Seq<char>,
    active: Seq<char>,
    facts: Seq<(Seq<char>, Seq<char>)>,
) -> bool {
    exists|i: int|
        0 <= i < n && brew_receipt(ev[i], tool) && outs[i] is Some && kept_from(
            outs[i]->0@,
            p,
            name,
            active,
            facts,
        )
}

/// A version of another installation that Homebrew's receipts among the first `n` list.
pub open spec fn brew_version(
    ev: Seq<(Seq<char>, Seq<char>)>,
    outs: Seq<Option<String>>,
    n: int,
    v: Seq<char>,
    tool: Seq<char>,
    name: Seq<char>,
    active: Seq<char>,
    facts: Seq<(Seq<char>, Seq<char>)>,
) -> bool {
    exists|i: int|
        0 <= i < n && brew_receipt(ev[i], tool) && outs[i] is Some && (exists|p: Seq<char>|
            kept_from(outs[i]->0@, p, name, active, facts)) && receipt_version(ev[i].1, v)
}

/// The entries mise lists for the tool.
pub open spec fn mise_entries(listing: Seq<MiseTool>, tool: Seq<char>, n: int) -> Seq<MiseEntry>
    decreases n,
{
    if n <= 0 {
        Seq::empty()
    } else if exists|i: int| 0 <= i < n - 1 && listing[i].name@ == tool {
        mise_entries(listing, tool, n - 1)
    } else if listing[n - 1].name@ == tool {
        match listing[n - 1].entries {
            Some(v) => v@,
            None => Seq::empty(),
        }
    } else {
        Seq::empty()
    }
}

/// The executable path of a mise entry: its install path's `bin/<name>`.
pub open spec fn entry_path(e: MiseEntry, name: Seq<char>) -> Option<Seq<char>> {
    match (e.install_path, e.version) {
        (JsonField::Text(p), JsonField::Text(_)) => Some(path_join(path_join(p@, "bin"@), name)),
        _ => None,
    }
}

/// Whether a mise entry is another installation.
pub open spec fn mise_other(
    e: MiseEntry,
    name: Seq<char>,
    active: Seq<char>,
    facts: Seq<(Seq<char>, Seq<char>)>,
) -> bool {
    entry_path(e, name) matches Some(p) && !same_path(resolved(facts, p), active)
}

/// The version a mise entry contributes: its text, where the entry is another installation
/// and the version is not blank.
pub open spec fn counted_version(
    e: MiseEntry,
    name: Seq<char>,
    active: Seq<char>,
    facts: Seq<(Seq<char>, Seq<char>)>,
) -> Option<Seq<char>> {
    match e.version {
        JsonField::Text(t) => if mise_other(e, name, active, facts) && !all_space(t@) {
            Some(t@)
        } else {
            None
        },
        _ => None,
    }
}

/// A path of another installation that mise lists.
pub open spec fn mise_path(
    entries: Seq<MiseEntry>,
    p: Seq<char>,
    name: Seq<char>,
    active: Seq<char>,
    facts: Seq<(Seq<char>, Seq<char>)>,
) -> bool {
    exists|k: int|
        0 <= k < entries.len() && mise_other(entries[k], name, active, facts) && entry_path(
            entries[k],
            name,
        ) == Some(p)
}

/// A version of another installation that mise lists; blank versions are left out.
pub open spec fn mise_version(
    entries: Seq<MiseEntry>,
    v: Seq<char>,
    name: Seq<char>,
    active: Seq<char>,
    facts: Seq<(Seq<char>, Seq<char>)>,
) -> bool {
    exists|k: int|
        0 <= k < entries.len() && mise_other(entries[k], name, active, facts)
            && (entries[k].version matches JsonField::Text(t) && t@ == v) && !all_space(v)
}

/// The version texts of an alternative.
pub open spec fn version_texts(a: AlternativeInstallation) -> Seq<Seq<char>> {
    a.versions@.map_values(|v: ToolVersion| v.display_view())
}

/// The path texts of an alternative.
pub open spec fn path_texts(a: AlternativeInstallation) -> Seq<Seq<char>> {
    a.paths@.map_values(|p: String| p@)
}

/// Whether each version of an alternative has its text as both raw and normalized form.
pub open spec fn plain_versions(a: AlternativeInstallation) -> bool {
    forall|i: int|
        0 <= i < a.versions@.len() ==> (#[trigger] a.versions@[i]).normalized_view() == Some(
            a.versions@[i].raw_view(),
        )
}

/// The name of the active executable.
pub fn executable_file_name(tool: &DetectedTool, facts: &HostFacts) -> (r: Vec<char>)
    ensures
        r@ == active_name(tool.id@, tool.executable@, facts.entries()),
{
    let active = facts.resolve(&chars_of(tool.executable.as_str()));
    match file_name(&active) {
        Some(n) => n,
        None => chars_of(tool.id.as_str()),
    }
}

fn file_name(p: &Vec<char>) -> (r: Option<Vec<char>>)
    ensures
        match (r, file_name_of(p@)) {
            (Some(x), Some(y)) => x@ == y,
            (None, None) => true,
            _ => false,
        },
{
    let cs = path_components(p);
    if cs.len() == 0 {
        return None;
    }
    let last = &cs[cs.len() - 1];
    assert(char_rows(cs@).last() == last@);
    let root = vec!['/'];
    let dot = vec!['.'];
    let dots = vec!['.', '.'];
    proof {
        assert(root@ =~= seq!['/']);
        assert(dot@ =~= seq!['.']);
        assert(dots@ =~= seq!['.', '.']);
    }
    if chars_eq(last, &root) || chars_eq(last, &dot) || chars_eq(last, &dots) {
        None
    } else {
        Some(copy_chars(last))
    }
}

fn same_location(a: &Vec<char>, b: &Vec<char>) -> (r: bool)
    ensures
        r == same_path(a@, b@),
{
    let x = path_components(a);
    let y = path_components(b);
    if x.len() != y.len() {
        proof {
            assert(char_rows(x@).len() == x@.len());
            assert(char_rows(y@).len() == y@.len());
            assert(components(a@).len() != components(b@).len());
        }
        return false;
    }
    let mut k: usize = 0;
    while k < x.len()
        invariant
            x@.len() == y@.len(),
            k <= x@.len(),
            char_rows(x@) == components(a@),
            char_rows(y@) == components(b@),
            forall|m: int| 0 <= m < k ==> x@[m]@ == y@[m]@,
        decreases x.len() - k,
    {
        if !chars_eq(&x[k], &y[k]) {
            proof {
                assert(char_rows(x@)[k as int] == x@[k as int]@);
                assert(char_rows(y@)[k as int] == y@[k as int]@);
            }
            return false;
        }
        k = k + 1;
    }
    assert(char_rows(x@) =~= char_rows(y@));
    true
}

/// The queries for other Homebrew installations: for each evidence that is a Homebrew receipt
/// for the tool, `brew list --<kind> <tool>`.
pub fn brew_list_queries(tool: &DetectedTool, snapshot: &ManagerSnapshot) -> (r: Vec<
    Option<CommandSpec>,
>)
    ensures
        r@.len() == snapshot.evidence@.len(),
        forall|i: int|
            0 <= i < r@.len() ==> ((#[trigger] r@[i]) is Some <==> brew_receipt(
                evidence_pairs(snapshot.evidence@)[i],
                tool.id@,
            )),
        forall|i: int|
            0 <= i < r@.len() && r@[i] is Some ==> plain_command(
                #[trigger] r@[i]->0,
                "brew"@,
                seq![
                    "list"@,
                    "--"@ + crate::providers::latest::without_prefixes(
                        snapshot.evidence@[i].kind@,
                        "receipt:"@,
                    ),
                    tool.id@,
                ],
            ),
{
    let ghost ev = evidence_pairs(snapshot.evidence@);
    let id = chars_of(tool.id.as_str());
    let prefix = chars_of("receipt:");
    let mut out: Vec<Option<CommandSpec>> = Vec::new();
    let mut i: usize = 0;
    while i < snapshot.evidence.len()
        invariant
            ev == evidence_pairs(snapshot.evidence@),
            id@ == tool.id@,
            prefix@ == "receipt:"@,
            i <= ev.len(),
            out@.len() == i,
            forall|k: int| 0 <= k < i ==> ((#[trigger] out@[k]) is Some <==> brew_receipt(ev[k], tool.id@)),
            forall|k: int|
                0 <= k < i && out@[k] is Some ==> plain_command(
                    #[trigger] out@[k]->0,
                    "brew"@,
                    seq![
                        "list"@,
                        "--"@ + crate::providers::latest::without_prefixes(
                            snapshot.evidence@[k].kind@,
                            "receipt:"@,
                        ),
                        tool.id@,
                    ],
                ),
        decreases ev.len() - i,
    {
        let e = &snapshot.evidence[i];
        assert(ev[i as int] == (e.kind@, e.value@));
        let kind = chars_of(e.kind.as_str());
        let ws = split_words(&chars_of(e.value.as_str()));
        let named = ws.len() > 0 && chars_eq(&ws[0], &id);
        proof {
            if ws@.len() > 0 {
                assert(char_rows(ws@)[0] == ws@[0]@);
            }
        }
        if starts_with_chars(&kind, &prefix) && named {
            let suffix = crate::providers::latest::strip_prefixes(&kind, &prefix);
            let flag = concat_chars(&chars_of("--"), &suffix);
            let mut args: Vec<String> = Vec::new();
            args.push(owned("list"));
            args.push(string_from_chars(&flag));
            args.push(owned(tool.id.as_str()));
            proof {
                assert(views(args@) =~= seq![
                    "list"@,
                    "--"@ + crate::providers::latest::without_prefixes(e.kind@, "receipt:"@),
                    tool.id@,
                ]);
            }
            out.push(Some(CommandSpec::from_parts(owned("brew"), args)));
        } else {
            out.push(None);
        }
        i = i + 1;
    }
    out
}

/// Appends `items` to `out`.
fn append_texts(out: &mut Vec<Vec<char>>, items: &Vec<Vec<char>>)
    ensures
        char_rows(final(out)@) == char_rows(old(out)@) + char_rows(items@),
{
    let ghost start = char_rows(out@);
    let mut k: usize = 0;
    while k < items.len()
        invariant
            k <= items@.len(),
            char_rows(out@) == start + char_rows(items@).subrange(0, k as int),
        decreases items.len() - k,
    {
        let ghost before = char_rows(out@);
        out.push(copy_chars(&items[k]));
        proof {
            assert(char_rows(out@) =~= before.push(items@[k as int]@));
            assert(char_rows(items@).subrange(0, k + 1) =~= char_rows(items@).subrange(0, k as int).push(
                items@[k as int]@,
            ));
        }
        k = k + 1;
    }
    assert(char_rows(items@).subrange(0, items@.len() as int) =~= char_rows(items@));
}

/// The lines of a listing output that are other installations of the executable.
fn kept_lines(out: &String, name: &Vec<char>, active: &Vec<char>, facts: &HostFacts) -> (r: Vec<
    Vec<char>,
>)
    ensures
        forall|p: Seq<char>|
            char_rows(r@).contains(p) <==> kept_from(out@, p, name@, active@, facts.entries()),
{
    let ls = split_lines(&chars_of(out.as_str()));
    let ghost lv = lines(out@);
    let mut kept: Vec<Vec<char>> = Vec::new();
    let mut j: usize = 0;
    while j < ls.len()
        invariant
            char_rows(ls@) == lv,
            lv == lines(out@),
            j <= ls@.len(),
            forall|p: Seq<char>|
                char_rows(kept@).contains(p) <==> (lv.subrange(0, j as int).contains(p) && other_copy(
                    p,
                    name@,
                    active@,
                    facts.entries(),
                )),
        decreases ls.len() - j,
    {
        assert(char_rows(ls@)[j as int] == ls@[j as int]@);
        let line = &ls[j];
        let keep = match file_name(line) {
            Some(n) => chars_eq(&n, name) && !same_location(&facts.resolve(line), active),
            None => false,
        };
        proof {
            match file_name_of(line@) {
                Some(n) => {},
                None => {},
            }
            assert(keep == other_copy(line@, name@, active@, facts.entries()));
        }
        let ghost before = char_rows(kept@);
        if keep {
            kept.push(copy_chars(line));
            proof {
                assert(char_rows(kept@) =~= before.push(line@));
            }
        }
        proof {
            let q = lv.subrange(0, j as int);
            let q2 = lv.subrange(0, j + 1);
            assert(q2 =~= q.push(line@));
            assert forall|p: Seq<char>| char_rows(kept@).contains(p) <==> (q2.contains(p) && other_copy(
                p,
                name@,
                active@,
                facts.entries(),
            )) by {
                lemma_push_contains(q, line@, p);
                if keep {
                    lemma_push_contains(before, line@, p);
                }
            }
        }
        j = j + 1;
    }
    proof {
        assert(lv.subrange(0, lv.len() as int) =~= lv);
    }
    kept
}

/// The versions a receipt lists.
fn receipt_versions(value: &String) -> (r: Vec<Vec<char>>)
    ensures
        forall|v: Seq<char>| char_rows(r@).contains(v) <==> receipt_version(value@, v),
        forall|i: int| 0 <= i < r@.len() ==> !all_space(#[trigger] r@[i]@),
{
    let ws = split_words(&chars_of(value.as_str()));
    let ghost wv = words(value@);
    let mut out: Vec<Vec<char>> = Vec::new();
    let mut k: usize = 1;
    while k < ws.len() && !(ws[k].len() > 0 && ws[k][0] == '/')
        invariant
            char_rows(ws@) == wv,
            wv == words(value@),
            1 <= k,
            k <= ws@.len() || ws@.len() == 0,
            forall|m: int| 1 <= m < k && m < wv.len() ==> !(wv[m].len() > 0 && wv[m][0] == '/'),
            forall|v: Seq<char>|
                char_rows(out@).contains(v) <==> (exists|m: int| 1 <= m < k && m < wv.len() && wv[m] == v),
            forall|i: int| 0 <= i < out@.len() ==> !all_space(#[trigger] out@[i]@),
        decreases ws.len() - k,
    {
        assert(char_rows(ws@)[k as int] == ws@[k as int]@);
        proof {
            crate::text::lemma_words_not_blank(value@, k as int);
        }
        let ghost before = char_rows(out@);
        out.push(copy_chars(&ws[k]));
        proof {
            assert(char_rows(out@) =~= before.push(wv[k as int]));
            assert forall|v: Seq<char>| char_rows(out@).contains(v) <==> (exists|m: int|
                1 <= m < k + 1 && m < wv.len() && wv[m] == v) by {
                if char_rows(out@).contains(v) {
                    let i = choose|i: int| 0 <= i < char_rows(out@).len() && char_rows(out@)[i] == v;
                    if i < before.len() {
                        assert(before.contains(v));
                    }
                }
                if exists|m: int| 1 <= m < k + 1 && m < wv.len() && wv[m] == v {
                    let m = choose|m: int| 1 <= m < k + 1 && m < wv.len() && wv[m] == v;
                    if m < k {
                        assert(before.contains(v));
                        let i = choose|i: int| 0 <= i < before.len() && before[i] == v;
                        assert(char_rows(out@)[i] == v);
                    } else {
                        assert(char_rows(out@)[before.len() as int] == v);
                    }
                }
            }
        }
        k = k + 1;
    }
    proof {
        assert forall|v: Seq<char>| char_rows(out@).contains(v) <==> receipt_version(value@, v) by {
            if receipt_version(value@, v) {
                let m = choose|m: int|
                    1 <= m < wv.len() && wv[m] == v && forall|j: int|
                        1 <= j <= m ==> !(wv[j].len() > 0 && wv[j][0] == '/');
                if m >= k {
                    assert(char_rows(ws@)[k as int] == ws@[k as int]@);
                }
            }
            if char_rows(out@).contains(v) {
                let m = choose|m: int| 1 <= m < k && m < wv.len() && wv[m] == v;
                assert(forall|j: int| 1 <= j <= m ==> !(wv[j].len() > 0 && wv[j][0] == '/'));
            }
        }
    }
    out
}

/// An alternative with the given source and the given versions and paths, each sorted and
/// listed once.
fn build_alternative(source: &str, versions: &Vec<Vec<char>>, paths: &Vec<Vec<char>>) -> (r:
    AlternativeInstallation)
    requires
        super::valid_id(source@),
        forall|i: int| 0 <= i < versions@.len() ==> !all_space(#[trigger] versions@[i]@),
    ensures
        r.source@ == source@,
        plain_versions(r),
        strictly_sorted(version_texts(r)),
        same_texts(version_texts(r), char_rows(versions@)),
        strictly_sorted(path_texts(r)),
        same_texts(path_texts(r), char_rows(paths@)),
{
    let vs = sorted_distinct(versions);
    let ps = sorted_distinct(paths);
    let mut out_versions: Vec<ToolVersion> = Vec::new();
    let mut i: usize = 0;
    while i < vs.len()
        invariant
            i <= vs@.len(),
            same_texts(char_rows(vs@), char_rows(versions@)),
            forall|k: int| 0 <= k < versions@.len() ==> !all_space(#[trigger] versions@[k]@),
            out_versions@.len() == i,
            forall|k: int|
                0 <= k < i ==> (#[trigger] out_versions@[k]).display_view() == vs@[k]@
                    && out_versions@[k].normalized_view() == Some(out_versions@[k].raw_view()),
        decreases vs.len() - i,
    {
        proof {
            assert(char_rows(vs@)[i as int] == vs@[i as int]@);
            assert(char_rows(vs@).contains(vs@[i as int]@));
            let k = choose|k: int| 0 <= k < char_rows(versions@).len() && char_rows(versions@)[k] == vs@[i as int]@;
            assert(versions@[k]@ == vs@[i as int]@);
        }
        let text = string_from_chars(&vs[i]);
        match ToolVersion::exact(text.as_str()) {
            Ok(v) => out_versions.push(v),
            Err(_) => {
                proof {
                    assert(false);
                }
            },
        }
        i = i + 1;
    }
    let mut out_paths: Vec<String> = Vec::new();
    let mut j: usize = 0;
    while j < ps.len()
        invariant
            j <= ps@.len(),
            out_paths@.len() == j,
            forall|k: int| 0 <= k < j ==> (#[trigger] out_paths@[k])@ == ps@[k]@,
        decreases ps.len() - j,
    {
        out_paths.push(string_from_chars(&ps[j]));
        j = j + 1;
    }
    let source_id = match SourceId::new(source) {
        Ok(id) => id,
        Err(_) => {
            proof {
                assert(false);
            }
            SourceId::new("homebrew").unwrap()
        },
    };
    let r = AlternativeInstallation { source: source_id, versions: out_versions, paths: out_paths };
    proof {
        assert(version_texts(r) =~= char_rows(vs@));
        assert(path_texts(r) =~= char_rows(ps@));
    }
    r
}

/// The entries mise lists for the tool: those of the first listed tool of that name.
fn entries_for<'a>(listing: &'a Vec<MiseTool>, tool: &DetectedTool) -> (r: Option<&'a Vec<MiseEntry>>)
    ensures
        (match r {
            Some(v) => v@,
            None => Seq::<MiseEntry>::empty(),
        }) == mise_entries(listing@, tool.id@, listing@.len() as int),
{
    let mut k: usize = 0;
    while k < listing.len()
        invariant
            k <= listing@.len(),
            forall|i: int| 0 <= i < k ==> listing@[i].name@ != tool.id@,
            forall|n: int| 0 <= n <= k ==> mise_entries(listing@, tool.id@, n) == Seq::<MiseEntry>::empty(),
        decreases listing.len() - k,
    {
        if crate::text::str_eq(listing[k].name.as_str(), tool.id.as_str()) {
            proof {
                assert(mise_entries(listing@, tool.id@, k + 1) == (match listing@[k as int].entries {
                    Some(v) => v@,
                    None => Seq::<MiseEntry>::empty(),
                }));
                lemma_mise_entries_stay(listing@, tool.id@, k as int, listing@.len() as int);
            }
            return match &listing[k].entries {
                Some(v) => Some(v),
                None => None,
            };
        }
        proof {
            assert(mise_entries(listing@, tool.id@, k + 1) == Seq::<MiseEntry>::empty());
        }
        k = k + 1;
    }
    None
}

proof fn lemma_mise_entries_stay(listing: Seq<MiseTool>, tool: Seq<char>, k: int, m: int)
    requires
        0 <= k < m <= listing.len(),
        listing[k].name@ == tool,
    ensures
        mise_entries(listing, tool, m) == mise_entries(listing, tool, k + 1),
    decreases m - k,
{
    if m > k + 1 {
        lemma_mise_entries_stay(listing, tool, k, m - 1);
        assert(exists|i: int| 0 <= i < m - 1 && listing[i].name@ == tool);
    }
}

/// The evidence of an optional Homebrew snapshot.
pub open spec fn brew_evidence_of(brew: Option<ManagerSnapshot>) -> Seq<(Seq<char>, Seq<char>)> {
    match brew {
        Some(s) => evidence_pairs(s.evidence@),
        None => Seq::empty(),
    }
}

/// The entries mise lists for the tool, where there is a listing.
pub open spec fn mise_entries_of(tool: &DetectedTool, mise: Option<Vec<MiseTool>>) -> Seq<MiseEntry> {
    match mise {
        Some(l) => mise_entries(l@, tool.id@, l@.len() as int),
        None => Seq::empty(),
    }
}

/// Whether Homebrew's receipts show both a path and a version of another installation.
pub open spec fn brew_found(
    tool: &DetectedTool,
    brew: Option<ManagerSnapshot>,
    outs: Seq<Option<String>>,
    facts: Seq<(Seq<char>, Seq<char>)>,
) -> bool {
    let name = active_name(tool.id@, tool.executable@, facts);
    let active = resolved(facts, tool.executable@);
    let ev = brew_evidence_of(brew);
    brew is Some && (exists|p: Seq<char>|
        brew_path(ev, outs, ev.len() as int, p, tool.id@, name, active, facts)) && (exists|v: Seq<char>|
        brew_version(ev, outs, ev.len() as int, v, tool.id@, name, active, facts))
}

/// Whether mise's listing shows both a path and a version of another installation.
pub open spec fn mise_found(
    tool: &DetectedTool,
    mise: Option<Vec<MiseTool>>,
    facts: Seq<(Seq<char>, Seq<char>)>,
) -> bool {
    let name = active_name(tool.id@, tool.executable@, facts);
    let active = resolved(facts, tool.executable@);
    let entries = mise_entries_of(tool, mise);
    (exists|p: Seq<char>| mise_path(entries, p, name, active, facts)) && (exists|v: Seq<char>|
        mise_version(entries, v, name, active, facts))
}

/// Whether `a` is the Homebrew alternative: exactly the versions and paths the receipts show,
/// sorted, each once.
pub open spec fn brew_alternative_holds(
    tool: &DetectedTool,
    brew: Option<ManagerSnapshot>,
    outs: Seq<Option<String>>,
    facts: Seq<(Seq<char>, Seq<char>)>,
    a: AlternativeInstallation,
) -> bool {
    let name = active_name(tool.id@, tool.executable@, facts);
    let active = resolved(facts, tool.executable@);
    let ev = brew_evidence_of(brew);
    &&& a.source@ == "homebrew"@
    &&& plain_versions(a)
    &&& strictly_sorted(version_texts(a))
    &&& strictly_sorted(path_texts(a))
    &&& forall|v: Seq<char>|
        #[trigger] version_texts(a).contains(v) <==> brew_version(
            ev,
            outs,
            ev.len() as int,
            v,
            tool.id@,
            name,
            active,
            facts,
        )
    &&& forall|p: Seq<char>|
        #[trigger] path_texts(a).contains(p) <==> brew_path(
            ev,
            outs,
            ev.len() as int,
            p,
            tool.id@,
            name,
            active,
            facts,
        )
}

/// Whether `a` is the mise alternative: exactly the versions and paths the listing shows,
/// sorted, each once.
pub open spec fn mise_alternative_holds(
    tool: &DetectedTool,
    mise: Option<Vec<MiseTool>>,
    facts: Seq<(Seq<char>, Seq<char>)>,
    a: AlternativeInstallation,
) -> bool {
    let name = active_name(tool.id@, tool.executable@, facts);
    let active = resolved(facts, tool.executable@);
    let entries = mise_entries_of(tool, mise);
    &&& a.source@ == "mise"@
    &&& plain_versions(a)
    &&& strictly_sorted(version_texts(a))
    &&& strictly_sorted(path_texts(a))
    &&& forall|v: Seq<char>|
        #[trigger] version_texts(a).contains(v) <==> mise_version(entries, v, name, active, facts)
    &&& forall|p: Seq<char>|
        #[trigger] path_texts(a).contains(p) <==> mise_path(entries, p, name, active, facts)
}

/// What `alternate_installations` returns: the Homebrew alternative first where Homebrew's
/// receipts show both paths and versions of other installations, then the mise one likewise.
pub open spec fn alternatives_found(
    tool: &DetectedTool,
    brew: Option<ManagerSnapshot>,
    outs: Seq<Option<String>>,
    mise: Option<Vec<MiseTool>>,
    facts: Seq<(Seq<char>, Seq<char>)>,
    r: Seq<AlternativeInstallation>,
) -> bool {
    let b = brew_found(tool, brew, outs, facts);
    let m = mise_found(tool, mise, facts);
    &&& r.len() == (if b {
        1int
    } else {
        0int
    }) + (if m {
        1int
    } else {
        0int
    })
    &&& b ==> brew_alternative_holds(tool, brew, outs, facts, r[0])
    &&& m ==> mise_alternative_holds(tool, mise, facts, r.last())
}

/// The other installations of the tool that Homebrew's receipts and mise's listing show, the
/// Homebrew one first: each with its versions and paths sorted and listed once, and only where
/// both are found. `brew_outputs[i]` is the output of the `i`-th query of `brew_list_queries`
/// (none where no query was made or it failed).
pub fn alternate_installations(
    tool: &DetectedTool,
    brew: &Option<ManagerSnapshot>,
    brew_outputs: &Vec<Option<String>>,
    mise: &Option<Vec<MiseTool>>,
    facts: &HostFacts,
) -> (r: Vec<AlternativeInstallation>)
    requires
        brew matches Some(s) ==> brew_outputs@.len() == s.evidence@.len(),
    ensures
        alternatives_found(tool, *brew, brew_outputs@, *mise, facts.entries(), r@),
{
    let name = executable_file_name(tool, facts);
    let active = facts.resolve(&chars_of(tool.executable.as_str()));
    let mut out: Vec<AlternativeInstallation> = Vec::new();
    let ghost name_v = name@;
    let ghost active_v = active@;
    let ghost es = facts.entries();
    match brew {
        Some(s) => {
            let ghost ev = evidence_pairs(s.evidence@);
            let ghost outs = brew_outputs@;
            let id = chars_of(tool.id.as_str());
            let prefix = chars_of("receipt:");
            let mut paths: Vec<Vec<char>> = Vec::new();
            let mut versions: Vec<Vec<char>> = Vec::new();
            let mut i: usize = 0;
            while i < s.evidence.len()
                invariant
                    ev == evidence_pairs(s.evidence@),
                    outs == brew_outputs@,
                    brew_outputs@.len() == s.evidence@.len(),
                    id@ == tool.id@,
                    prefix@ == "receipt:"@,
                    name@ == name_v,
                    active@ == active_v,
                    es == facts.entries(),
                    i <= ev.len(),
                    forall|p: Seq<char>|
                        char_rows(paths@).contains(p) <==> brew_path(ev, outs, i as int, p, tool.id@, name_v, active_v, es),
                    forall|v: Seq<char>|
                        char_rows(versions@).contains(v) <==> brew_version(ev, outs, i as int, v, tool.id@, name_v, active_v, es),
                    forall|k: int| 0 <= k < versions@.len() ==> !all_space(#[trigger] versions@[k]@),
                decreases ev.len() - i,
            {
                let e = &s.evidence[i];
                assert(ev[i as int] == (e.kind@, e.value@));
                let kind = chars_of(e.kind.as_str());
                let ws = split_words(&chars_of(e.value.as_str()));
                let named = ws.len() > 0 && chars_eq(&ws[0], &id);
                proof {
                    if ws@.len() > 0 {
                        assert(char_rows(ws@)[0] == ws@[0]@);
                    }
                }
                let ghost paths_before = char_rows(paths@);
                let ghost versions_before = char_rows(versions@);
                let is_receipt = starts_with_chars(&kind, &prefix) && named;
                proof {
                    assert(is_receipt == brew_receipt(ev[i as int], tool.id@));
                }
                if is_receipt {
                    match &brew_outputs[i] {
                        Some(o) => {
                            let kept = kept_lines(o, &name, &active, facts);
                            if kept.len() > 0 {
                                let listed = receipt_versions(&e.value);
                                append_texts(&mut paths, &kept);
                                let ghost vb = versions@;
                                append_texts(&mut versions, &listed);
                                proof {
                                    assert(char_rows(versions@).len() == versions@.len());
                                    assert(versions@.len() == vb.len() + listed@.len());
                                    assert forall|k: int| 0 <= k < versions@.len() implies !all_space(
                                        #[trigger] versions@[k]@,
                                    ) by {
                                        assert(char_rows(versions@)[k] == versions@[k]@);
                                        if k >= vb.len() {
                                            assert(char_rows(listed@)[k - vb.len()] == listed@[k - vb.len()]@);
                                        } else {
                                            assert(char_rows(vb)[k] == vb[k]@);
                                        }
                                    }
                                    assert(char_rows(kept@)[0] == kept@[0]@);
                                    assert(char_rows(kept@).contains(kept@[0]@));
                                    assert(kept_from(o@, kept@[0]@, name_v, active_v, es));
                                    assert forall|p: Seq<char>| char_rows(paths@).contains(p) <==> (paths_before.contains(p)
                                        || kept_from(o@, p, name_v, active_v, es)) by {
                                        lemma_concat_contains(paths_before, char_rows(kept@), p);
                                    }
                                    assert forall|v: Seq<char>| char_rows(versions@).contains(v) <==> (versions_before.contains(v)
                                        || receipt_version(e.value@, v)) by {
                                        lemma_concat_contains(versions_before, char_rows(listed@), v);
                                    }
                                }
                            } else {
                                proof {
                                    assert forall|p: Seq<char>| !kept_from(o@, p, name_v, active_v, es) by {
                                        if kept_from(o@, p, name_v, active_v, es) {
                                            assert(char_rows(kept@).contains(p));
                                        }
                                    }
                                }
                            }
                        },
                        None => {},
                    }
                }
                proof {
                    lemma_brew_step(ev, outs, i as int, tool.id@, name_v, active_v, es, paths_before, char_rows(paths@), versions_before, char_rows(versions@));
                }
                i = i + 1;
            }
            if paths.len() > 0 && versions.len() > 0 {
                proof {
                    reveal_strlit("homebrew");
                    assert(char_rows(paths@)[0] == paths@[0]@);
                    assert(char_rows(paths@).contains(paths@[0]@));
                    assert(char_rows(versions@)[0] == versions@[0]@);
                    assert(char_rows(versions@).contains(versions@[0]@));
                }
                let alt = build_alternative("homebrew", &versions, &paths);
                proof {
                    assert forall|v: Seq<char>| #[trigger] version_texts(alt).contains(v) <==> brew_version(
                        ev, outs, ev.len() as int, v, tool.id@, name_v, active_v, es) by {
                        assert(version_texts(alt).contains(v) <==> char_rows(versions@).contains(v));
                    }
                    assert forall|p: Seq<char>| #[trigger] path_texts(alt).contains(p) <==> brew_path(
                        ev, outs, ev.len() as int, p, tool.id@, name_v, active_v, es) by {
                        assert(path_texts(alt).contains(p) <==> char_rows(paths@).contains(p));
                    }
                    assert(brew_path(ev, outs, ev.len() as int, paths@[0]@, tool.id@, name_v, active_v, es));
                    assert(brew_version(ev, outs, ev.len() as int, versions@[0]@, tool.id@, name_v, active_v, es));
                    assert(brew_evidence_of(*brew) == ev);
                    assert(active_name(tool.id@, tool.executable@, facts.entries()) == name_v);
                    assert(resolved(facts.entries(), tool.executable@) == active_v);
                    assert(brew_found(tool, *brew, brew_outputs@, facts.entries()));
                    assert(brew_alternative_holds(tool, *brew, brew_outputs@, facts.entries(), alt));
                }
                out.push(alt);
                proof {
                    assert(out@[0] == alt);
                }
            } else {
                proof {
                    if paths@.len() == 0 {
                        assert forall|p: Seq<char>| !brew_path(ev, outs, ev.len() as int, p, tool.id@, name_v, active_v, es) by {
                            if brew_path(ev, outs, ev.len() as int, p, tool.id@, name_v, active_v, es) {
                                assert(char_rows(paths@).contains(p));
                            }
                        }
                    } else {
                        assert forall|v: Seq<char>| !brew_version(ev, outs, ev.len() as int, v, tool.id@, name_v, active_v, es) by {
                            if brew_version(ev, outs, ev.len() as int, v, tool.id@, name_v, active_v, es) {
                                assert(char_rows(versions@).contains(v));
                            }
                        }
                    }
                }
            }
        },
        None => {},
    }
    let ghost brew_count = out@.len();
    match mise {
        Some(listing) => {
            let empty: Vec<MiseEntry> = Vec::new();
            let entries: &Vec<MiseEntry> = match entries_for(listing, tool) {
                Some(v) => v,
                None => &empty,
            };
            let ghost ents = mise_entries(listing@, tool.id@, listing@.len() as int);
            assert(entries@ == ents);
            let mut paths: Vec<Vec<char>> = Vec::new();
            let mut versions: Vec<Vec<char>> = Vec::new();
            let mut k: usize = 0;
            while k < entries.len()
                invariant
                    entries@ == ents,
                    name@ == name_v,
                    active@ == active_v,
                    es == facts.entries(),
                    k <= entries@.len(),
                    forall|p: Seq<char>|
                        char_rows(paths@).contains(p) <==> mise_path(entries@.subrange(0, k as int), p, name_v, active_v, es),
                    forall|v: Seq<char>|
                        char_rows(versions@).contains(v) <==> mise_version(entries@.subrange(0, k as int), v, name_v, active_v, es),
                    forall|j: int| 0 <= j < versions@.len() ==> !all_space(#[trigger] versions@[j]@),
                decreases entries.len() - k,
            {
                let e = &entries[k];
                let ghost pb = char_rows(paths@);
                let ghost vb = char_rows(versions@);
                match (&e.install_path, &e.version) {
                    (JsonField::Text(p), JsonField::Text(v)) => {
                        let bin = join(&chars_of(p.as_str()), &chars_of("bin"));
                        let path = join(&bin, &name);
                        if !same_location(&facts.resolve(&path), &active) {
                            let ghost path_v = path@;
                            paths.push(path);
                            proof {
                                assert(char_rows(paths@) =~= pb.push(path_v));
                            }
                            if !str_all_space(v.as_str()) {
                                let vv = chars_of(v.as_str());
                                let ghost v_v = vv@;
                                versions.push(vv);
                                proof {
                                    assert(char_rows(versions@) =~= vb.push(v_v));
                                }
                            }
                        }
                    },
                    _ => {},
                }
                proof {
                    lemma_mise_step(entries@, k as int, name_v, active_v, es, pb, char_rows(paths@), vb, char_rows(versions@));
                }
                k = k + 1;
            }
            proof {
                assert(entries@.subrange(0, entries@.len() as int) =~= entries@);
            }
            if paths.len() > 0 && versions.len() > 0 {
                proof {
                    reveal_strlit("mise");
                    assert(char_rows(paths@)[0] == paths@[0]@);
                    assert(char_rows(paths@).contains(paths@[0]@));
                    assert(char_rows(versions@)[0] == versions@[0]@);
                    assert(char_rows(versions@).contains(versions@[0]@));
                }
                let alt = build_alternative("mise", &versions, &paths);
                proof {
                    assert forall|v: Seq<char>| #[trigger] version_texts(alt).contains(v) <==> mise_version(
                        ents, v, name_v, active_v, es) by {
                        assert(version_texts(alt).contains(v) <==> char_rows(versions@).contains(v));
                    }
                    assert forall|p: Seq<char>| #[trigger] path_texts(alt).contains(p) <==> mise_path(
                        ents, p, name_v, active_v, es) by {
                        assert(path_texts(alt).contains(p) <==> char_rows(paths@).contains(p));
                    }
                    assert(mise_path(ents, paths@[0]@, name_v, active_v, es));
                    assert(mise_version(ents, versions@[0]@, name_v, active_v, es));
                    assert(mise_entries_of(tool, *mise) == ents);
                    assert(active_name(tool.id@, tool.executable@, facts.entries()) == name_v);
                    assert(resolved(facts.entries(), tool.executable@) == active_v);
                    assert(mise_found(tool, *mise, facts.entries()));
                    assert(mise_alternative_holds(tool, *mise, facts.entries(), alt));
                }
                let ghost before_out = out@;
                out.push(alt);
                proof {
                    assert(out@.last() == alt);
                    assert(out@.len() == before_out.len() + 1);
                    if before_out.len() > 0 {
                        assert(out@[0] == before_out[0]);
                    }
                }
            } else {
                proof {
                    if paths@.len() == 0 {
                        assert forall|p: Seq<char>| !mise_path(ents, p, name_v, active_v, es) by {
                            if mise_path(ents, p, name_v, active_v, es) {
                                assert(char_rows(paths@).contains(p));
                            }
                        }
                    } else {
                        assert forall|v: Seq<char>| !mise_version(ents, v, name_v, active_v, es) by {
                            if mise_version(ents, v, name_v, active_v, es) {
                                assert(char_rows(versions@).contains(v));
                            }
                        }
                    }
                }
            }
        },
        None => {
            proof {
                assert forall|p: Seq<char>| !mise_path(Seq::<MiseEntry>::empty(), p, name_v, active_v, es) by {}
            }
        },
    }
    proof {
        assert(brew_count == (if brew_found(tool, *brew, brew_outputs@, facts.entries()) { 1int } else { 0int }));
    }
    out
}

fn join(path: &Vec<char>, part: &Vec<char>) -> (r: Vec<char>)
    ensures
        r@ == path_join(path@, part@),
{
    if part.len() > 0 && part[0] == '/' {
        copy_chars(part)
    } else if path.len() == 0 {
        copy_chars(part)
    } else if path[path.len() - 1] == '/' {
        concat_chars(path, part)
    } else {
        let mut out = copy_chars(path);
        out.push('/');
        crate::text::push_all(&mut out, part);
        proof {
            assert(out@ =~= path@ + seq!['/'] + part@);
        }
        out
    }
}

proof fn lemma_brew_step(
    ev: Seq<(Seq<char>, Seq<char>)>,
    outs: Seq<Option<String>>,
    i: int,
    tool: Seq<char>,
    name: Seq<char>,
    active: Seq<char>,
    facts: Seq<(Seq<char>, Seq<char>)>,
    pb: Seq<Seq<char>>,
    pa: Seq<Seq<char>>,
    vb: Seq<Seq<char>>,
    va: Seq<Seq<char>>,
)
    requires
        0 <= i < ev.len(),
        i < outs.len(),
        forall|p: Seq<char>| pb.contains(p) <==> brew_path(ev, outs, i, p, tool, name, active, facts),
        forall|v: Seq<char>| vb.contains(v) <==> brew_version(ev, outs, i, v, tool, name, active, facts),
        ({
            let gathers = brew_receipt(ev[i], tool) && outs[i] is Some && (exists|p: Seq<char>|
                kept_from(outs[i]->0@, p, name, active, facts));
            &&& gathers ==> forall|p: Seq<char>| pa.contains(p) <==> (pb.contains(p) || kept_from(
                outs[i]->0@,
                p,
                name,
                active,
                facts,
            ))
            &&& gathers ==> forall|v: Seq<char>| va.contains(v) <==> (vb.contains(v)
                || receipt_version(ev[i].1, v))
            &&& !gathers ==> pa == pb && va == vb
        }),
    ensures
        forall|p: Seq<char>| pa.contains(p) <==> brew_path(ev, outs, i + 1, p, tool, name, active, facts),
        forall|v: Seq<char>| va.contains(v) <==> brew_version(ev, outs, i + 1, v, tool, name, active, facts),
{
    assert forall|p: Seq<char>| pa.contains(p) <==> brew_path(ev, outs, i + 1, p, tool, name, active, facts) by {
        if brew_path(ev, outs, i + 1, p, tool, name, active, facts) {
            let j = choose|j: int| 0 <= j < i + 1 && brew_receipt(ev[j], tool) && outs[j] is Some && kept_from(
                outs[j]->0@,
                p,
                name,
                active,
                facts,
            );
            if j < i {
                assert(brew_path(ev, outs, i, p, tool, name, active, facts));
            }
        }
        if brew_path(ev, outs, i, p, tool, name, active, facts) {
            let j = choose|j: int| 0 <= j < i && brew_receipt(ev[j], tool) && outs[j] is Some && kept_from(
                outs[j]->0@,
                p,
                name,
                active,
                facts,
            );
            assert(brew_path(ev, outs, i + 1, p, tool, name, active, facts));
        }
    }
    assert forall|v: Seq<char>| va.contains(v) <==> brew_version(ev, outs, i + 1, v, tool, name, active, facts) by {
        if brew_version(ev, outs, i + 1, v, tool, name, active, facts) {
            let j = choose|j: int| 0 <= j < i + 1 && brew_receipt(ev[j], tool) && outs[j] is Some && (exists|p: Seq<char>|
                kept_from(outs[j]->0@, p, name, active, facts)) && receipt_version(ev[j].1, v);
            if j < i {
                assert(brew_version(ev, outs, i, v, tool, name, active, facts));
            }
        }
        if brew_version(ev, outs, i, v, tool, name, active, facts) {
            let j = choose|j: int| 0 <= j < i && brew_receipt(ev[j], tool) && outs[j] is Some && (exists|p: Seq<char>|
                kept_from(outs[j]->0@, p, name, active, facts)) && receipt_version(ev[j].1, v);
            assert(brew_version(ev, outs, i + 1, v, tool, name, active, facts));
        }
    }
}

proof fn lemma_mise_step(
    entries: Seq<MiseEntry>,
    k: int,
    name: Seq<char>,
    active: Seq<char>,
    facts: Seq<(Seq<char>, Seq<char>)>,
    pb: Seq<Seq<char>>,
    pa: Seq<Seq<char>>,
    vb: Seq<Seq<char>>,
    va: Seq<Seq<char>>,
)
    requires
        0 <= k < entries.len(),
        forall|p: Seq<char>| pb.contains(p) <==> mise_path(entries.subrange(0, k), p, name, active, facts),
        forall|v: Seq<char>| vb.contains(v) <==> mise_version(entries.subrange(0, k), v, name, active, facts),
        mise_other(entries[k], name, active, facts) ==> pa == pb.push(entry_path(entries[k], name)->0),
        !mise_other(entries[k], name, active, facts) ==> pa == pb,
        counted_version(entries[k], name, active, facts) matches Some(t) ==> va == vb.push(t),
        counted_version(entries[k], name, active, facts) is None ==> va == vb,
    ensures
        forall|p: Seq<char>| pa.contains(p) <==> mise_path(entries.subrange(0, k + 1), p, name, active, facts),
        forall|v: Seq<char>| va.contains(v) <==> mise_version(entries.subrange(0, k + 1), v, name, active, facts),
{
    let s0 = entries.subrange(0, k);
    let s1 = entries.subrange(0, k + 1);
    assert forall|p: Seq<char>| pa.contains(p) <==> mise_path(s1, p, name, active, facts) by {
        if mise_path(s1, p, name, active, facts) {
            let j = choose|j: int| 0 <= j < s1.len() && mise_other(s1[j], name, active, facts) && entry_path(s1[j], name) == Some(p);
            if j < k {
                assert(s0[j] == s1[j]);
                assert(mise_path(s0, p, name, active, facts));
                assert(pb.contains(p));
                let m = choose|m: int| 0 <= m < pb.len() && pb[m] == p;
                assert(pa[m] == p);
            } else {
                assert(pa[pb.len() as int] == p);
            }
        }
        if pa.contains(p) {
            let m = choose|m: int| 0 <= m < pa.len() && pa[m] == p;
            if m < pb.len() {
                assert(pb[m] == p);
                assert(pb.contains(p));
                let j = choose|j: int| 0 <= j < s0.len() && mise_other(s0[j], name, active, facts) && entry_path(s0[j], name) == Some(p);
                assert(s1[j] == s0[j]);
            } else {
                assert(s1[k] == entries[k]);
            }
        }
    }
    assert forall|v: Seq<char>| va.contains(v) <==> mise_version(s1, v, name, active, facts) by {
        if mise_version(s1, v, name, active, facts) {
            let j = choose|j: int| 0 <= j < s1.len() && mise_other(s1[j], name, active, facts) && (s1[j].version matches JsonField::Text(t) && t@ == v) && !all_space(v);
            if j < k {
                assert(s0[j] == s1[j]);
                assert(mise_version(s0, v, name, active, facts));
                assert(vb.contains(v));
                let m = choose|m: int| 0 <= m < vb.len() && vb[m] == v;
                assert(va[m] == v);
            } else {
                assert(va[vb.len() as int] == v);
            }
        }
        if va.contains(v) {
            let m = choose|m: int| 0 <= m < va.len() && va[m] == v;
            if m < vb.len() {
                assert(vb[m] == v);
                assert(vb.contains(v));
                let j = choose|j: int| 0 <= j < s0.len() && mise_other(s0[j], name, active, facts) && (s0[j].version matches JsonField::Text(t) && t@ == v) && !all_space(v);
                assert(s1[j] == s0[j]);
            } else {
                assert(s1[k] == entries[k]);
            }
        }
    }
}

} // verus!
