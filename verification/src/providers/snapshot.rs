//! What each install manager observes once per operation: the commands it runs and the
//! evidence it records from their output.
use super::adapters::{tool_executable_for, tool_executable_name, tool_name, tool_order, tool_registry};
use super::managers::{
    evidence_pairs, kind_id, kind_name, BuiltinInstallManager, ManagerError, ManagerEvidence,
    ManagerKind, ManagerSnapshot,
};
use super::RefreshPolicy;
use crate::command::{owned, plain_command, views, CommandSpec};
use crate::redact::{opt_str_view, redact, redacted};
use crate::runner::{trim_chars, trimmed};
use crate::text::{
    char_rows, chars_eq, chars_of, concat_chars, copy_chars, lines, occurs_at, push_all,
    split_lines, split_words, starts_with_chars, string_from_chars, words,
};
use vstd::prelude::*;

verus! {

/// A field of a JSON object as the snapshot reads it: absent, a string, or any other value.
#[derive(Debug, PartialEq, Eq)]
pub enum JsonField {
    Absent,
    Text(String),
    Other,
}

/// One installation listed by `mise ls --json` for a tool.
#[derive(Debug, PartialEq, Eq)]
pub struct MiseEntry {
    pub install_path: JsonField,
    pub requested_version: JsonField,
    pub version: JsonField,
}

/// One tool of the `mise ls --json` document, in document order; `entries` is `None` where
/// the tool's value is not an array.
#[derive(Debug, PartialEq, Eq)]
pub struct MiseTool {
    pub name: String,
    pub entries: Option<Vec<MiseEntry>>,
}

/// What the project around the working directory says: the tool keys of the nearest
/// `.mise.toml` `[tools]` table, the nearest `.tool-versions` file, and the `packageManager`
/// of the nearest `package.json`.
#[derive(Debug, PartialEq, Eq)]
pub struct ProjectFiles {
    pub mise_tools: Option<Vec<String>>,
    pub tool_versions: Option<String>,
    pub package_manager: Option<String>,
}

impl ProjectFiles {
    /// No project files.
    pub fn none() -> (r: ProjectFiles)
        ensures
            r.mise_tools is None,
            r.tool_versions is None,
            r.package_manager is None,
    {
        ProjectFiles { mise_tools: None, tool_versions: None, package_manager: None }
    }
}

/// The text before the first `#` of a line.
pub open spec fn before_hash(line: Seq<char>) -> Seq<char>
    decreases line.len(),
{
    if line.len() == 0 {
        line
    } else if line[0] == '#' {
        Seq::empty()
    } else {
        seq![line[0]] + before_hash(line.drop_first())
    }
}

/// Whether a `.tool-versions` file selects the tool: some line's first word before any `#`
/// is the tool.
pub open spec fn tool_versions_select(source: Seq<char>, tool: Seq<char>) -> bool {
    exists|i: int|
        0 <= i < lines(source).len() && words(before_hash(lines(source)[i])).len() > 0 && words(
            before_hash(lines(source)[i]),
        )[0] == tool
}

/// Whether the project selects the tool through mise.
pub open spec fn mise_selects(project: ProjectFiles, tool: Seq<char>) -> bool {
    (project.mise_tools matches Some(keys) && exists|i: int| 0 <= i < keys@.len() && keys@[i]@ == tool)
        || (project.tool_versions matches Some(src) && tool_versions_select(src@, tool))
}

/// Whether the project pins pnpm as its package manager (`packageManager` starts with
/// `pnpm@`).
pub open spec fn pins_pnpm(project: ProjectFiles) -> bool {
    project.package_manager matches Some(m) && occurs_at(m@, "pnpm@"@, 0)
}

/// `path` joined with a relative or absolute component (`Path::join`).
pub open spec fn path_join(path: Seq<char>, part: Seq<char>) -> Seq<char> {
    if part.len() > 0 && part[0] == '/' {
        part
    } else if path.len() == 0 {
        part
    } else if path.last() == '/' {
        path + part
    } else {
        path + seq!['/'] + part
    }
}

/// The version selector of an entry: its requested version where present, else its version.
pub open spec fn entry_selector(e: MiseEntry) -> Option<Seq<char>> {
    match e.requested_version {
        JsonField::Text(s) => Some(s@),
        JsonField::Other => None,
        JsonField::Absent => match e.version {
            JsonField::Text(s) => Some(s@),
            _ => None,
        },
    }
}

/// The receipts of a tool's entries that name an install path, among the first `n`.
pub open spec fn path_receipts(tool: Seq<char>, entries: Seq<MiseEntry>, n: int) -> Seq<
    (Seq<char>, Seq<char>),
>
    decreases n,
{
    if n <= 0 {
        Seq::empty()
    } else {
        let prev = path_receipts(tool, entries, n - 1);
        match entries[n - 1].install_path {
            JsonField::Text(p) => prev.push(
                (
                    "receipt"@,
                    tool + " "@ + path_join(path_join(p@, "bin"@), tool_executable_for(tool)),
                ),
            ),
            _ => prev,
        }
    }
}

/// The evidence mise records for one tool: a receipt per install path (or one bare receipt),
/// then the selector of its first entry.
pub open spec fn tool_evidence(t: MiseTool) -> Seq<(Seq<char>, Seq<char>)> {
    let name = t.name@;
    let entries = match t.entries {
        Some(v) => v@,
        None => Seq::empty(),
    };
    let receipts = path_receipts(name, entries, entries.len() as int);
    let receipts = if receipts.len() == 0 {
        seq![("receipt"@, name)]
    } else {
        receipts
    };
    if entries.len() > 0 && entry_selector(entries[0]) is Some {
        receipts.push(("selector:"@ + name, entry_selector(entries[0])->0))
    } else {
        receipts
    }
}

/// The evidence mise records for the first `n` tools.
pub open spec fn mise_evidence(tools: Seq<MiseTool>, n: int) -> Seq<(Seq<char>, Seq<char>)>
    decreases n,
{
    if n <= 0 {
        Seq::empty()
    } else {
        mise_evidence(tools, n - 1) + tool_evidence(tools[n - 1])
    }
}

/// The project-policy evidence mise records for the first `n` built-in tools.
pub open spec fn mise_policy(project: ProjectFiles, n: int) -> Seq<(Seq<char>, Seq<char>)>
    decreases n,
{
    if n <= 0 {
        Seq::empty()
    } else {
        let prev = mise_policy(project, n - 1);
        let id = tool_name(tool_order()[n - 1]);
        if mise_selects(project, id) {
            prev.push(("project-policy:"@ + id, "project mise selection"@))
        } else {
            prev
        }
    }
}

/// The evidence a manager other than Homebrew records from its state output.
pub open spec fn state_evidence(
    kind: ManagerKind,
    stdout: Seq<char>,
    home: Option<Seq<char>>,
    listing: Option<Seq<MiseTool>>,
    project: ProjectFiles,
) -> Seq<(Seq<char>, Seq<char>)> {
    let first = seq![
        (
            if kind == ManagerKind::Rustup {
                "active-toolchain"@
            } else {
                "manager-output"@
            },
            redacted(trimmed(stdout), home),
        ),
    ];
    let recorded = match kind {
        ManagerKind::Mise => match listing {
            Some(tools) => first + mise_evidence(tools, tools.len() as int),
            None => first,
        },
        ManagerKind::Rustup => first.push(("receipt"@, "rust"@)),
        _ => first,
    };
    match kind {
        ManagerKind::Mise => recorded + mise_policy(project, tool_order().len() as int),
        ManagerKind::Npm | ManagerKind::Corepack => if pins_pnpm(project) {
            recorded.push(("project-policy:pnpm"@, "project packageManager pin"@))
        } else {
            recorded
        },
        _ => recorded,
    }
}

/// The first word of a line, or nothing.
pub open spec fn first_word_or_empty(line: Seq<char>) -> Seq<char> {
    if words(line).len() > 0 {
        words(line)[0]
    } else {
        Seq::empty()
    }
}

/// Homebrew's receipts: each formula line with the prefix's `bin` and `opt` paths of the
/// formula, then each cask line with the prefix's Caskroom path of the cask.
pub open spec fn brew_evidence(formulae: Seq<char>, casks: Seq<char>, prefix: Seq<char>) -> Seq<
    (Seq<char>, Seq<char>),
> {
    let fl = lines(formulae);
    let cl = lines(casks);
    Seq::new(
        fl.len(),
        |i: int|
            (
                "receipt:formula"@,
                fl[i] + " "@ + prefix + "/bin/"@ + first_word_or_empty(fl[i]) + " "@ + prefix
                    + "/opt/"@ + first_word_or_empty(fl[i]),
            ),
    ) + Seq::new(
        cl.len(),
        |i: int|
            ("receipt:cask"@, cl[i] + " "@ + prefix + "/Caskroom/"@ + first_word_or_empty(cl[i])),
    )
}

/// The (label, program, arguments) of each command a manager's snapshot runs, in order.
pub open spec fn snapshot_plan(kind: ManagerKind, refresh: RefreshPolicy) -> Seq<
    (Seq<char>, Seq<char>, Seq<Seq<char>>),
> {
    match kind {
        ManagerKind::Homebrew => {
            let reads = seq![
                ("Reading Homebrew formula receipts"@, "brew"@, seq!["list"@, "--formula"@, "--versions"@]),
                ("Reading Homebrew cask receipts"@, "brew"@, seq!["list"@, "--cask"@, "--versions"@]),
                ("Reading Homebrew prefix"@, "brew"@, seq!["--prefix"@]),
            ];
            if refresh == RefreshPolicy::Refresh {
                seq![("Refreshing Homebrew metadata"@, "brew"@, seq!["update"@])] + reads
            } else {
                reads
            }
        },
        _ => {
            let label = "Reading "@ + kind_name(kind) + " manager state"@;
            let (program, args) = match kind {
                ManagerKind::Mise => ("mise"@, seq!["ls"@, "--json"@]),
                ManagerKind::Rustup => ("rustup"@, seq!["show"@, "active-toolchain"@]),
                ManagerKind::Npm => ("npm"@, seq!["prefix"@, "--global"@]),
                ManagerKind::Corepack => ("corepack"@, seq!["--version"@]),
                ManagerKind::BunOfficial => ("bun"@, seq!["--version"@]),
                ManagerKind::DenoOfficial => ("deno"@, seq!["--version"@]),
                _ => ("uv"@, seq!["--version"@]),
            };
            seq![(label, program, args)]
        },
    }
}

/// A labelled command.
pub struct LabelledCommand {
    pub label: String,
    pub command: CommandSpec,
}

fn labelled_args(label: &str, program: &str, args: Vec<String>) -> (r: LabelledCommand)
    ensures
        r.label@ == label@,
        plain_command(r.command, program@, views(args@)),
{
    let command = CommandSpec::from_parts(owned(program), args);
    LabelledCommand { label: owned(label), command }
}

/// Whether some line of a `.tool-versions` file selects the tool.
pub fn tool_versions_selects(source: &str, tool: &str) -> (r: bool)
    ensures
        r == tool_versions_select(source@, tool@),
{
    let ls = split_lines(&chars_of(source));
    let id = chars_of(tool);
    let ghost lv = lines(source@);
    let mut i: usize = 0;
    while i < ls.len()
        invariant
            char_rows(ls@) == lv,
            lv == lines(source@),
            id@ == tool@,
            i <= ls@.len(),
            forall|j: int|
                0 <= j < i ==> !(words(before_hash(lv[j])).len() > 0 && words(before_hash(lv[j]))[0]
                    == tool@),
        decreases ls.len() - i,
    {
        assert(char_rows(ls@)[i as int] == ls@[i as int]@);
        let head = hash_prefix(&ls[i]);
        let ws = split_words(&head);
        if ws.len() > 0 {
            assert(char_rows(ws@)[0] == ws@[0]@);
            if chars_eq(&ws[0], &id) {
                return true;
            }
        }
        i = i + 1;
    }
    false
}

fn hash_prefix(line: &Vec<char>) -> (r: Vec<char>)
    ensures
        r@ == before_hash(line@),
{
    let mut out: Vec<char> = Vec::new();
    let mut i: usize = 0;
    proof {
        assert(line@.subrange(0, line@.len() as int) =~= line@);
        assert(out@ + line@ =~= line@);
    }
    while i < line.len() && line[i] != '#'
        invariant
            i <= line@.len(),
            out@ == line@.subrange(0, i as int),
            before_hash(line@) == out@ + before_hash(line@.subrange(i as int, line@.len() as int)),
        decreases line.len() - i,
    {
        proof {
            let rest = line@.subrange(i as int, line@.len() as int);
            assert(rest.drop_first() =~= line@.subrange(i + 1, line@.len() as int));
        }
        out.push(line[i]);
        proof {
            assert(out@ =~= line@.subrange(0, i + 1));
        }
        i = i + 1;
    }
    proof {
        let rest = line@.subrange(i as int, line@.len() as int);
        assert(before_hash(rest) =~= Seq::<char>::empty());
        if i == 0 {
            assert(line@.subrange(0, line@.len() as int) =~= line@);
        }
    }
    out
}

/// Whether the project selects the tool through mise.
pub fn project_mise_selects(project: &ProjectFiles, tool: &str) -> (r: bool)
    ensures
        r == mise_selects(*project, tool@),
{
    let mut listed = false;
    match &project.mise_tools {
        Some(keys) => {
            let mut i: usize = 0;
            while i < keys.len()
                invariant
                    project.mise_tools == Some(*keys),
                    i <= keys@.len(),
                    listed == (exists|j: int| 0 <= j < i && keys@[j]@ == tool@),
                decreases keys.len() - i,
            {
                if crate::text::str_eq(keys[i].as_str(), tool) {
                    listed = true;
                }
                i = i + 1;
            }
        },
        None => {},
    }
    if listed {
        return true;
    }
    match &project.tool_versions {
        Some(src) => tool_versions_selects(src.as_str(), tool),
        None => false,
    }
}

/// Whether the project pins pnpm as its package manager.
pub fn project_pins_pnpm(project: &ProjectFiles) -> (r: bool)
    ensures
        r == pins_pnpm(*project),
{
    match &project.package_manager {
        Some(m) => starts_with_chars(&chars_of(m.as_str()), &chars_of("pnpm@")),
        None => false,
    }
}

pub(crate) fn join_path(path: &Vec<char>, part: &Vec<char>) -> (r: Vec<char>)
    ensures
        r@ == path_join(path@, part@),
{
    if part.len() > 0 && part[0] == '/' {
        copy_chars(part)
    } else if path.len() == 0 {
        copy_chars(part)
    } else if path[path.len() - 1] == '/' {
        concat_chars(path, part)
    } else {
        let mut out = copy_chars(path);
        out.push('/');
        push_all(&mut out, part);
        proof {
            assert(out@ =~= path@ + seq!['/'] + part@);
        }
        out
    }
}

fn evidence(kind: &Vec<char>, value: &Vec<char>) -> (r: ManagerEvidence)
    ensures
        r.kind@ == kind@,
        r.value@ == value@,
{
    ManagerEvidence { kind: string_from_chars(kind), value: string_from_chars(value) }
}

fn selector_of_entry(e: &MiseEntry) -> (r: Option<Vec<char>>)
    ensures
        match (r, entry_selector(*e)) {
            (Some(x), Some(y)) => x@ == y,
            (None, None) => true,
            _ => false,
        },
{
    match &e.requested_version {
        JsonField::Text(s) => Some(chars_of(s.as_str())),
        JsonField::Other => None,
        JsonField::Absent => match &e.version {
            JsonField::Text(s) => Some(chars_of(s.as_str())),
            _ => None,
        },
    }
}

/// Appends the evidence mise records for one tool.
fn push_tool_evidence(out: &mut Vec<ManagerEvidence>, t: &MiseTool)
    ensures
        evidence_pairs(final(out)@) == evidence_pairs(old(out)@) + tool_evidence(*t),
{
    let ghost start = evidence_pairs(out@);
    let name = chars_of(t.name.as_str());
    let exe_name = tool_executable_name(t.name.as_str());
    let exe = chars_of(exe_name.as_str());
    let receipt = chars_of("receipt");
    let mut added: Vec<ManagerEvidence> = Vec::new();
    let empty: Vec<MiseEntry> = Vec::new();
    let entries: &Vec<MiseEntry> = match &t.entries {
        Some(v) => v,
        None => &empty,
    };
    let mut i: usize = 0;
    while i < entries.len()
        invariant
            i <= entries@.len(),
            entries@ == (match t.entries {
                Some(v) => v@,
                None => Seq::<MiseEntry>::empty(),
            }),
            name@ == t.name@,
            exe@ == tool_executable_for(t.name@),
            receipt@ == "receipt"@,
            evidence_pairs(added@) == path_receipts(name@, entries@, i as int),
        decreases entries.len() - i,
    {
        match &entries[i].install_path {
            JsonField::Text(p) => {
                let bin = join_path(&chars_of(p.as_str()), &chars_of("bin"));
                let full = join_path(&bin, &exe);
                let value = concat_chars(&concat_chars(&name, &chars_of(" ")), &full);
                let ghost before = evidence_pairs(added@);
                added.push(evidence(&receipt, &value));
                proof {
                    assert(evidence_pairs(added@) =~= before.push((receipt@, value@)));
                }
            },
            _ => {},
        }
        i = i + 1;
    }
    if added.len() == 0 {
        added.push(evidence(&receipt, &name));
        proof {
            assert(evidence_pairs(added@) =~= seq![("receipt"@, t.name@)]);
        }
    }
    if entries.len() > 0 {
        match selector_of_entry(&entries[0]) {
            Some(sel) => {
                let key = concat_chars(&chars_of("selector:"), &name);
                let ghost before = evidence_pairs(added@);
                added.push(evidence(&key, &sel));
                proof {
                    assert(evidence_pairs(added@) =~= before.push((key@, sel@)));
                }
            },
            None => {},
        }
    }
    let mut k: usize = 0;
    while k < added.len()
        invariant
            k <= added@.len(),
            evidence_pairs(out@) == start + evidence_pairs(added@).subrange(0, k as int),
        decreases added.len() - k,
    {
        let e = evidence(&chars_of(added[k].kind.as_str()), &chars_of(added[k].value.as_str()));
        let ghost before = evidence_pairs(out@);
        out.push(e);
        proof {
            assert(evidence_pairs(out@) =~= before.push((added@[k as int].kind@, added@[k as int].value@)));
            assert(evidence_pairs(added@).subrange(0, k + 1) =~= evidence_pairs(added@).subrange(
                0,
                k as int,
            ).push((added@[k as int].kind@, added@[k as int].value@)));
        }
        k = k + 1;
    }
    proof {
        assert(evidence_pairs(added@).subrange(0, added@.len() as int) =~= evidence_pairs(added@));
        assert(evidence_pairs(added@) == tool_evidence(*t));
    }
}

impl BuiltinInstallManager {
    /// The commands this manager's snapshot runs, in order, each with its progress label;
    /// Homebrew refreshes its metadata first under the refreshing policy.
    pub fn snapshot_commands(&self, refresh: RefreshPolicy) -> (r: Vec<LabelledCommand>)
        ensures
            r@.len() == snapshot_plan(self.kind, refresh).len(),
            forall|i: int|
                0 <= i < r@.len() ==> (#[trigger] r@[i]).label@ == snapshot_plan(self.kind, refresh)[i].0
                    && plain_command(
                    r@[i].command,
                    snapshot_plan(self.kind, refresh)[i].1,
                    snapshot_plan(self.kind, refresh)[i].2,
                ),
    {
        let mut out: Vec<LabelledCommand> = Vec::new();
        if self.kind == ManagerKind::Homebrew {
            if refresh == RefreshPolicy::Refresh {
                let mut a: Vec<String> = Vec::new();
                a.push(owned("update"));
                proof {
                    assert(views(a@) =~= seq!["update"@]);
                }
                out.push(labelled_args("Refreshing Homebrew metadata", "brew", a));
            }
            let mut b: Vec<String> = Vec::new();
            b.push(owned("list"));
            b.push(owned("--formula"));
            b.push(owned("--versions"));
            proof {
                assert(views(b@) =~= seq!["list"@, "--formula"@, "--versions"@]);
            }
            out.push(labelled_args("Reading Homebrew formula receipts", "brew", b));
            let mut c: Vec<String> = Vec::new();
            c.push(owned("list"));
            c.push(owned("--cask"));
            c.push(owned("--versions"));
            proof {
                assert(views(c@) =~= seq!["list"@, "--cask"@, "--versions"@]);
            }
            out.push(labelled_args("Reading Homebrew cask receipts", "brew", c));
            let mut d: Vec<String> = Vec::new();
            d.push(owned("--prefix"));
            proof {
                assert(views(d@) =~= seq!["--prefix"@]);
            }
            out.push(labelled_args("Reading Homebrew prefix", "brew", d));
            return out;
        }
        let label = crate::text::concat3("Reading ", kind_id(self.kind), " manager state");
        let (program, args): (&str, Vec<&str>) = match self.kind {
            ManagerKind::Mise => ("mise", vec!["ls", "--json"]),
            ManagerKind::Rustup => ("rustup", vec!["show", "active-toolchain"]),
            ManagerKind::Npm => ("npm", vec!["prefix", "--global"]),
            ManagerKind::Corepack => ("corepack", vec!["--version"]),
            ManagerKind::BunOfficial => ("bun", vec!["--version"]),
            ManagerKind::DenoOfficial => ("deno", vec!["--version"]),
            _ => ("uv", vec!["--version"]),
        };
        let command = CommandSpec::new(program, args.as_slice());
        out.push(LabelledCommand { label, command });
        proof {
            let plan = snapshot_plan(self.kind, refresh);
            assert(views(out@[0].command.args@) =~= plan[0].2);
        }
        out
    }

    /// Homebrew's snapshot from the output of its listing commands: refused where the prefix is
    /// empty.
    pub fn homebrew_snapshot(&self, formulae: &str, casks: &str, prefix: &str) -> (r: Result<
        ManagerSnapshot,
        ManagerError,
    >)
        ensures
            trimmed(prefix@).len() == 0 ==> r == Err::<ManagerSnapshot, ManagerError>(
                ManagerError::EmptyPrefix,
            ),
            trimmed(prefix@).len() > 0 ==> (r matches Ok(s) && s.manager@ == kind_name(self.kind)
                && evidence_pairs(s.evidence@) == brew_evidence(
                formulae@,
                casks@,
                trimmed(prefix@),
            )),
    {
        let pre = trim_chars(&chars_of(prefix));
        if pre.len() == 0 {
            return Err(ManagerError::EmptyPrefix);
        }
        let ghost target = brew_evidence(formulae@, casks@, pre@);
        let fl = split_lines(&chars_of(formulae));
        let cl = split_lines(&chars_of(casks));
        let mut ev: Vec<ManagerEvidence> = Vec::new();
        let formula_kind = chars_of("receipt:formula");
        let cask_kind = chars_of("receipt:cask");
        let mut i: usize = 0;
        while i < fl.len()
            invariant
                i <= fl@.len(),
                char_rows(fl@) == lines(formulae@),
                char_rows(cl@) == lines(casks@),
                formula_kind@ == "receipt:formula"@,
                target == brew_evidence(formulae@, casks@, pre@),
                evidence_pairs(ev@) == target.subrange(0, i as int),
            decreases fl.len() - i,
        {
            assert(char_rows(fl@)[i as int] == fl@[i as int]@);
            let line = &fl[i];
            let name = first_word(line);
            let mut value = copy_chars(line);
            push_all(&mut value, &chars_of(" "));
            push_all(&mut value, &pre);
            push_all(&mut value, &chars_of("/bin/"));
            push_all(&mut value, &name);
            push_all(&mut value, &chars_of(" "));
            push_all(&mut value, &pre);
            push_all(&mut value, &chars_of("/opt/"));
            push_all(&mut value, &name);
            let ghost before = evidence_pairs(ev@);
            ev.push(evidence(&formula_kind, &value));
            proof {
                assert(evidence_pairs(ev@) =~= before.push((formula_kind@, value@)));
                assert(target[i as int] == (formula_kind@, value@));
                assert(target.subrange(0, i + 1) =~= target.subrange(0, i as int).push(target[i as int]));
            }
            i = i + 1;
        }
        let mut j: usize = 0;
        while j < cl.len()
            invariant
                j <= cl@.len(),
                fl@.len() == lines(formulae@).len(),
                char_rows(cl@) == lines(casks@),
                cask_kind@ == "receipt:cask"@,
                target == brew_evidence(formulae@, casks@, pre@),
                evidence_pairs(ev@) == target.subrange(0, fl@.len() + j),
            decreases cl.len() - j,
        {
            assert(char_rows(cl@)[j as int] == cl@[j as int]@);
            let line = &cl[j];
            let name = first_word(line);
            let mut value = copy_chars(line);
            push_all(&mut value, &chars_of(" "));
            push_all(&mut value, &pre);
            push_all(&mut value, &chars_of("/Caskroom/"));
            push_all(&mut value, &name);
            let ghost before = evidence_pairs(ev@);
            ev.push(evidence(&cask_kind, &value));
            proof {
                assert(evidence_pairs(ev@) =~= before.push((cask_kind@, value@)));
                assert(target[fl@.len() + j] == (cask_kind@, value@));
                assert(target.subrange(0, fl@.len() + j + 1) =~= target.subrange(0, fl@.len() + j).push(
                    target[fl@.len() + j],
                ));
            }
            j = j + 1;
        }
        proof {
            assert(target.subrange(0, (fl@.len() + cl@.len()) as int) =~= target);
        }
        Ok(ManagerSnapshot { manager: self.id(), evidence: ev })
    }

    /// The state output as recorded: trimmed and redacted.
    pub fn manager_output_text(stdout: &str, home: Option<&str>) -> (r: String)
        ensures
            r@ == redacted(trimmed(stdout@), opt_str_view(home)),
    {
        let t = string_from_chars(&trim_chars(&chars_of(stdout)));
        redact(t.as_str(), home)
    }

    /// The snapshot of a manager other than Homebrew, from its state output, the tools the
    /// mise listing names (read from the recorded output), and the project files.
    pub fn state_snapshot(
        &self,
        stdout: &str,
        home: Option<&str>,
        listing: &Option<Vec<MiseTool>>,
        project: &ProjectFiles,
    ) -> (r: ManagerSnapshot)
        requires
            self.kind != ManagerKind::Homebrew,
        ensures
            r.manager@ == kind_name(self.kind),
            evidence_pairs(r.evidence@) == state_evidence(
                self.kind,
                stdout@,
                opt_str_view(home),
                match listing {
                    Some(v) => Some(v@),
                    None => None,
                },
                *project,
            ),
    {
        let recorded = Self::manager_output_text(stdout, home);
        let first_kind = if self.kind == ManagerKind::Rustup {
            chars_of("active-toolchain")
        } else {
            chars_of("manager-output")
        };
        let mut ev: Vec<ManagerEvidence> = Vec::new();
        ev.push(evidence(&first_kind, &chars_of(recorded.as_str())));
        let ghost first = evidence_pairs(ev@);
        proof {
            assert(first =~= seq![(first_kind@, recorded@)]);
        }
        if self.kind == ManagerKind::Mise {
            match listing {
                Some(tools) => {
                    let mut i: usize = 0;
                    while i < tools.len()
                        invariant
                            i <= tools@.len(),
                            evidence_pairs(ev@) == first + mise_evidence(tools@, i as int),
                        decreases tools.len() - i,
                    {
                        push_tool_evidence(&mut ev, &tools[i]);
                        proof {
                            assert(first + mise_evidence(tools@, i + 1) =~= first + mise_evidence(
                                tools@,
                                i as int,
                            ) + tool_evidence(tools@[i as int]));
                        }
                        i = i + 1;
                    }
                },
                None => {},
            }
        } else if self.kind == ManagerKind::Rustup {
            ev.push(evidence(&chars_of("receipt"), &chars_of("rust")));
            proof {
                assert(evidence_pairs(ev@) =~= first.push(("receipt"@, "rust"@)));
            }
        }
        let ghost recorded_ev = evidence_pairs(ev@);
        if self.kind == ManagerKind::Mise {
            let tools = tool_registry();
            let mut k: usize = 0;
            while k < tools.len()
                invariant
                    tools@.len() == tool_order().len(),
                    forall|j: int| 0 <= j < tools@.len() ==> (#[trigger] tools@[j]).kind == tool_order()[j],
                    k <= tools@.len(),
                    evidence_pairs(ev@) == recorded_ev + mise_policy(*project, k as int),
                decreases tools.len() - k,
            {
                let id = tools[k].id_text();
                if project_mise_selects(project, id) {
                    let key = concat_chars(&chars_of("project-policy:"), &chars_of(id));
                    let ghost before = evidence_pairs(ev@);
                    ev.push(evidence(&key, &chars_of("project mise selection")));
                    proof {
                        assert(evidence_pairs(ev@) =~= before.push((key@, "project mise selection"@)));
                    }
                }
                proof {
                    assert(recorded_ev + mise_policy(*project, k + 1) =~= evidence_pairs(ev@));
                }
                k = k + 1;
            }
        } else if (self.kind == ManagerKind::Npm || self.kind == ManagerKind::Corepack)
            && project_pins_pnpm(project) {
            let ghost before = evidence_pairs(ev@);
            ev.push(evidence(&chars_of("project-policy:pnpm"), &chars_of("project packageManager pin")));
            proof {
                assert(evidence_pairs(ev@) =~= before.push(
                    ("project-policy:pnpm"@, "project packageManager pin"@),
                ));
            }
        }
        ManagerSnapshot { manager: self.id(), evidence: ev }
    }
}

/// The first word of a line, or nothing.
fn first_word(line: &Vec<char>) -> (r: Vec<char>)
    ensures
        r@ == first_word_or_empty(line@),
{
    let ws = split_words(line);
    if ws.len() > 0 {
        assert(char_rows(ws@)[0] == ws@[0]@);
        copy_chars(&ws[0])
    } else {
        Vec::new()
    }
}

/// An empty snapshot of a manager.
pub fn empty_snapshot(manager: &BuiltinInstallManager) -> (r: ManagerSnapshot)
    ensures
        r.manager@ == kind_name(manager.kind),
        r.evidence@.len() == 0,
{
    ManagerSnapshot { manager: manager.id(), evidence: Vec::new() }
}

/// The executable by which each manager is found.
pub fn manager_executable(manager: &BuiltinInstallManager) -> (r: &'static str)
    ensures
        r@ == (match manager.kind {
            ManagerKind::Homebrew => "brew"@,
            ManagerKind::Mise => "mise"@,
            ManagerKind::Rustup => "rustup"@,
            ManagerKind::Npm => "npm"@,
            ManagerKind::Corepack => "corepack"@,
            ManagerKind::BunOfficial => "bun"@,
            ManagerKind::DenoOfficial => "deno"@,
            ManagerKind::UvStandalone => "uv"@,
        }),
{
    match manager.kind {
        ManagerKind::Homebrew => "brew",
        ManagerKind::Mise => "mise",
        ManagerKind::Rustup => "rustup",
        ManagerKind::Npm => "npm",
        ManagerKind::Corepack => "corepack",
        ManagerKind::BunOfficial => "bun",
        ManagerKind::DenoOfficial => "deno",
        ManagerKind::UvStandalone => "uv",
    }
}

} // verus!
