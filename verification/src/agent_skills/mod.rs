//! Agent Skills managed by the `skills` package: which package runner Beacon uses, which listed
//! skills it may update, the commands it runs for them, and the reports it gives. The program
//! around the library lists the skills, reads their receipts and files, and runs the commands.
use crate::command::{owned, views, CommandSpec};
use crate::providers::verification::{semver_accepts, semver_req_accepts, semver_req_error_text, semver_req_matches, semver_shown};
use crate::providers::{SemVer, SemVerReq};
use crate::runner::{trim_chars, trimmed};
use crate::text::{chars_of, char_rows, concat3, concat_str, split_words, string_from_chars, words};
use vstd::prelude::*;

pub mod manifest;
pub mod receipts;
pub mod reports;

pub use manifest::{compare_manifests, Manifest};

verus! {

/// The number of skills checked at once.
pub const MAX_CONCURRENCY: usize = 4;

/// The receipt version of the global skill lock.
pub const GLOBAL_RECEIPT_VERSION: u64 = 3;

/// The receipt version of a project's `skills-lock.json`.
pub const PROJECT_RECEIPT_VERSION: u64 = 1;

/// The package and version range Beacon runs.
pub open spec fn package_spec() -> Seq<char> {
    "skills@^1.5.18"@
}

/// The version range of `skills` Beacon supports.
pub open spec fn skills_requirement() -> Seq<char> {
    ">=1.5.18, <2.0.0"@
}

/// The program that runs the `skills` package.
#[derive(Debug, Clone, Copy, PartialEq, Eq, Structural)]
pub enum PackageRunner {
    Npx,
    Bunx,
}

/// The executable name of a package runner.
pub open spec fn runner_name(r: PackageRunner) -> Seq<char> {
    match r {
        PackageRunner::Npx => "npx"@,
        PackageRunner::Bunx => "bunx"@,
    }
}

impl PackageRunner {
    /// The executable name of this runner.
    pub fn executable(self) -> (r: &'static str)
        ensures
            r@ == runner_name(self),
    {
        match self {
            PackageRunner::Npx => "npx",
            PackageRunner::Bunx => "bunx",
        }
    }
}

/// The arguments that run the `skills` package with `args` through a runner: `npx` is told
/// to install without asking.
pub open spec fn package_args(runner: PackageRunner, args: Seq<Seq<char>>) -> Seq<Seq<char>> {
    (if runner == PackageRunner::Npx {
        seq!["--yes"@]
    } else {
        Seq::empty()
    }) + seq![package_spec()] + args
}

/// Whether `c` runs `program` with `args`, with telemetry disabled and no other settings.
pub open spec fn quiet_command(c: CommandSpec, program: Seq<char>, args: Seq<Seq<char>>) -> bool {
    &&& c.program@ == program
    &&& views(c.args@) == args
    &&& c.accepted_exit_codes@.len() == 0
    &&& c.current_dir is None
    &&& c.environment@.len() == 1
    &&& c.environment@[0].0@ == "DISABLE_TELEMETRY"@
    &&& c.environment@[0].1@ == "1"@
    &&& c.removed_environment@.len() == 0
}

/// `program` run with `args`, with telemetry disabled.
pub fn quiet(program: &str, args: Vec<String>) -> (r: CommandSpec)
    ensures
        quiet_command(r, program@, views(args@)),
{
    let c = CommandSpec::from_parts(owned(program), args);
    c.with_environment("DISABLE_TELEMETRY", "1")
}

/// The command that runs the `skills` package with `args` through a runner at `runner_path`.
pub fn package_command(runner_path: &str, runner: PackageRunner, args: &Vec<String>) -> (r:
    CommandSpec)
    ensures
        quiet_command(r, runner_path@, package_args(runner, views(args@))),
{
    let mut all: Vec<String> = Vec::new();
    if runner == PackageRunner::Npx {
        all.push(owned("--yes"));
    }
    all.push(owned("skills@^1.5.18"));
    let ghost head = views(all@);
    let mut i: usize = 0;
    while i < args.len()
        invariant
            i <= args@.len(),
            views(all@) == head + views(args@).subrange(0, i as int),
        decreases args.len() - i,
    {
        let ghost prev = views(all@);
        all.push(args[i].clone());
        proof {
            assert(views(all@) =~= prev.push(args@[i as int]@));
            assert(views(args@).subrange(0, i + 1) =~= views(args@).subrange(0, i as int).push(
                args@[i as int]@,
            ));
        }
        i = i + 1;
    }
    proof {
        assert(views(args@).subrange(0, i as int) =~= views(args@));
        assert(views(all@) =~= package_args(runner, views(args@)));
    }
    quiet(runner_path, all)
}

/// A usable package runner: where it is, which runner it is, and the versions of the runner
/// and of the `skills` package it runs.
pub struct Capability {
    pub runner_path: String,
    pub runner: PackageRunner,
    pub runner_version: SemVer,
    pub skills_version: SemVer,
}

/// How a capability is identified in reports, so that a later run can tell whether it drifted.
pub open spec fn identity_text(c: Capability) -> Seq<char> {
    runner_name(c.runner) + " "@ + semver_shown(c.runner_version@) + "; skills "@ + semver_shown(
        c.skills_version@,
    ) + "; "@ + package_spec()
}

impl Capability {
    /// The command that runs the `skills` package with `args` through this runner.
    pub fn command(&self, args: &Vec<String>) -> (r: CommandSpec)
        ensures
            quiet_command(r, self.runner_path@, package_args(self.runner, views(args@))),
    {
        package_command(self.runner_path.as_str(), self.runner, args)
    }

    /// The identity of this runner and package version.
    pub fn identity(&self) -> (r: String)
        ensures
            r@ == identity_text(*self),
    {
        let runner_version = self.runner_version.display();
        let skills_version = self.skills_version.display();
        let a = concat3(self.runner.executable(), " ", runner_version.as_str());
        let b = concat3(a.as_str(), "; skills ", skills_version.as_str());
        concat3(b.as_str(), "; ", "skills@^1.5.18")
    }
}

/// `t` with every leading `v` removed (`trim_start_matches('v')`).
pub open spec fn without_leading_v(t: Seq<char>) -> Seq<char>
    decreases t.len(),
{
    if t.len() > 0 && t[0] == 'v' {
        without_leading_v(t.drop_first())
    } else {
        t
    }
}

/// Whether a word looks like a version: after its leading `v`s comes an ASCII digit.
pub open spec fn is_version_token(t: Seq<char>) -> bool {
    let u = without_leading_v(t);
    u.len() > 0 && '0' <= u[0] && u[0] <= '9'
}

/// The first word that looks like a version.
pub open spec fn first_version_token(ts: Seq<Seq<char>>) -> Option<Seq<char>>
    decreases ts.len(),
{
    if ts.len() == 0 {
        None
    } else if is_version_token(ts[0]) {
        Some(ts[0])
    } else {
        first_version_token(ts.drop_first())
    }
}

/// What reading the version printed by `label --version` gives: the text of the version
/// `semver` parses, or the message of why there is none.
pub open spec fn version_reading(output: Seq<char>, label: Seq<char>) -> Result<Seq<char>, Seq<char>> {
    match first_version_token(words(output)) {
        None => Err(label + " --version returned no semantic version"@),
        Some(t) => if semver_accepts(without_leading_v(t)) {
            Ok(without_leading_v(t))
        } else {
            Err("invalid "@ + label + " semantic version"@)
        },
    }
}

proof fn lemma_without_leading_v(t: Seq<char>, k: int)
    requires
        0 <= k <= t.len(),
        forall|i: int| 0 <= i < k ==> t[i] == 'v',
        k == t.len() || t[k] != 'v',
    ensures
        without_leading_v(t) == t.subrange(k, t.len() as int),
    decreases k,
{
    if k == 0 {
        assert(t.subrange(0, t.len() as int) =~= t);
    } else {
        lemma_without_leading_v(t.drop_first(), k - 1);
        assert(t.drop_first().subrange(k - 1, t.len() - 1) =~= t.subrange(k, t.len() as int));
    }
}

fn strip_leading_v(w: &Vec<char>) -> (r: Vec<char>)
    ensures
        r@ == without_leading_v(w@),
{
    let mut k: usize = 0;
    while k < w.len() && w[k] == 'v'
        invariant
            k <= w@.len(),
            forall|i: int| 0 <= i < k ==> w@[i] == 'v',
        decreases w.len() - k,
    {
        k = k + 1;
    }
    proof {
        lemma_without_leading_v(w@, k as int);
    }
    let mut out: Vec<char> = Vec::new();
    let mut i: usize = k;
    while i < w.len()
        invariant
            k <= i <= w@.len(),
            out@ == w@.subrange(k as int, i as int),
        decreases w.len() - i,
    {
        out.push(w[i]);
        i = i + 1;
    }
    out
}

/// Reads the semantic version printed by `label --version`: the first word whose text after
/// its leading `v`s starts with a digit, without those `v`s.
pub fn parse_version(output: &str, label: &str) -> (r: Result<SemVer, String>)
    ensures
        match (r, version_reading(output@, label@)) {
            (Ok(v), Ok(t)) => v@ == t,
            (Err(m), Err(e)) => m@ == e,
            _ => false,
        },
{
    let ws = split_words(&chars_of(output));
    let ghost all = char_rows(ws@);
    let mut i: usize = 0;
    assert(all.subrange(0, all.len() as int) =~= all);
    while i < ws.len()
        invariant
            i <= ws@.len(),
            all == char_rows(ws@),
            all == words(output@),
            first_version_token(all) == first_version_token(all.subrange(i as int, all.len() as int)),
        decreases ws.len() - i,
    {
        let stripped = strip_leading_v(&ws[i]);
        let ghost rest = all.subrange(i as int, all.len() as int);
        proof {
            assert(rest[0] == ws@[i as int]@);
            assert(rest.drop_first() =~= all.subrange(i + 1, all.len() as int));
        }
        if stripped.len() > 0 && '0' <= stripped[0] && stripped[0] <= '9' {
            let text = string_from_chars(&stripped);
            return match SemVer::parse(text.as_str()) {
                Ok(v) => Ok(v),
                Err(_) => Err(concat3("invalid ", label, " semantic version")),
            };
        }
        i = i + 1;
    }
    proof {
        assert(all.subrange(i as int, all.len() as int) =~= Seq::<Seq<char>>::empty());
    }
    Err(concat_str(label, " --version returned no semantic version"))
}

/// Whether the `skills` package version is one Beacon supports.
pub open spec fn skills_supported(v: Seq<char>) -> bool {
    semver_req_accepts(skills_requirement()) && semver_req_matches(skills_requirement(), v)
}

/// Refuses a `skills` package version outside the supported range.
pub fn check_skills_version(version: &SemVer) -> (r: Result<(), String>)
    ensures
        r is Ok <==> skills_supported(version@),
        semver_req_accepts(skills_requirement()) ==> (r matches Err(m) ==> m@
            == "unsupported skills version "@ + semver_shown(version@)
            + "; Beacon requires >=1.5.18,<2.0.0"@),
        !semver_req_accepts(skills_requirement()) ==> (r matches Err(m) && m@
            == semver_req_error_text(skills_requirement())),
{
    match SemVerReq::parse(">=1.5.18, <2.0.0") {
        Err(m) => Err(m),
        Ok(requirement) => {
            if requirement.matches(version) {
                Ok(())
            } else {
                let shown = version.display();
                Err(
                    concat3(
                        "unsupported skills version ",
                        shown.as_str(),
                        "; Beacon requires >=1.5.18,<2.0.0",
                    ),
                )
            }
        },
    }
}

/// The runner path that `which` printed, or why the runner is not there.
pub fn located_runner(which_stdout: &str, runner: PackageRunner) -> (r: Result<String, String>)
    ensures
        trimmed(which_stdout@).len() == 0 ==> (r matches Err(m) && m@ == "`"@ + runner_name(
            runner,
        ) + "` is not installed on PATH"@),
        trimmed(which_stdout@).len() > 0 ==> (r matches Ok(p) && p@ == trimmed(which_stdout@)),
{
    let path = trim_chars(&chars_of(which_stdout));
    if path.len() == 0 {
        Err(concat3("`", runner.executable(), "` is not installed on PATH"))
    } else {
        Ok(string_from_chars(&path))
    }
}

/// Texts joined with `; `.
pub open spec fn joined(parts: Seq<Seq<char>>) -> Seq<char>
    decreases parts.len(),
{
    if parts.len() == 0 {
        Seq::empty()
    } else if parts.len() == 1 {
        parts[0]
    } else {
        joined(parts.drop_last()) + "; "@ + parts.last()
    }
}

/// Why no package runner could be used, given each runner's failure in the order tried.
pub fn probe_failure(failures: &Vec<String>) -> (r: String)
    ensures
        r@ == "no usable package runner for `skills@^1.5.18`; "@ + joined(views(failures@)),
{
    let mut out: Vec<char> = chars_of("no usable package runner for `skills@^1.5.18`; ");
    let ghost head = out@;
    let mut i: usize = 0;
    while i < failures.len()
        invariant
            i <= failures@.len(),
            out@ == head + joined(views(failures@).subrange(0, i as int)),
        decreases failures.len() - i,
    {
        let ghost prev = views(failures@).subrange(0, i as int);
        if i > 0 {
            crate::text::push_all(&mut out, &chars_of("; "));
        }
        crate::text::push_all(&mut out, &chars_of(failures[i].as_str()));
        proof {
            let next = views(failures@).subrange(0, i + 1);
            assert(next.drop_last() =~= prev);
            assert(next.last() == failures@[i as int]@);
            if i == 0 {
                assert(prev =~= Seq::<Seq<char>>::empty());
            }
        }
        i = i + 1;
    }
    proof {
        assert(views(failures@).subrange(0, i as int) =~= views(failures@));
    }
    string_from_chars(&out)
}

/// One runner's failure as it appears in the probe's message.
pub fn runner_failure(runner: PackageRunner, error: &str) -> (r: String)
    ensures
        r@ == runner_name(runner) + ": "@ + error@,
{
    concat3(runner.executable(), ": ", error)
}

} // verus!
