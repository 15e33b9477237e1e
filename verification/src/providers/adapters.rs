//! The built-in tool adapters: how each tool is found on `PATH` and how its version is read.
use super::verification::{compare_versions, compared, Comparison, VersionOrder};
use super::{valid_id, DetectedTool, ProviderError, ToolId, ToolVersion};
use crate::command::{owned, plain_command, views, CommandSpec};
use crate::runner::{trim_chars, trimmed, CommandOutput};
use crate::text::{
    all_space, char_rows, chars_of, contains_chars, contains_seq, lines, split_lines, split_words,
    string_from_chars, words,
};
use crate::versions::{spec_version_number, trim_version, trim_version_chars, version_number};
use vstd::prelude::*;

verus! {

/// The built-in tools.
#[derive(Debug, Clone, Copy, PartialEq, Eq, Structural)]
pub enum ToolKind {
    Rust,
    Node,
    Npm,
    Pnpm,
    Go,
    Bun,
    Deno,
    Uv,
}

/// The identifier of each tool.
pub open spec fn tool_name(kind: ToolKind) -> Seq<char> {
    match kind {
        ToolKind::Rust => "rust"@,
        ToolKind::Node => "node"@,
        ToolKind::Npm => "npm"@,
        ToolKind::Pnpm => "pnpm"@,
        ToolKind::Go => "go"@,
        ToolKind::Bun => "bun"@,
        ToolKind::Deno => "deno"@,
        ToolKind::Uv => "uv"@,
    }
}

/// The name each tool is shown by.
pub open spec fn shown_name(kind: ToolKind) -> Seq<char> {
    match kind {
        ToolKind::Rust => "Rust"@,
        ToolKind::Node => "Node.js"@,
        ToolKind::Npm => "npm"@,
        ToolKind::Pnpm => "pnpm"@,
        ToolKind::Go => "Go"@,
        ToolKind::Bun => "Bun"@,
        ToolKind::Deno => "Deno"@,
        ToolKind::Uv => "uv"@,
    }
}

/// The executable each tool is found by.
pub open spec fn executable_name(kind: ToolKind) -> Seq<char> {
    match kind {
        ToolKind::Rust => "rustc"@,
        _ => tool_name(kind),
    }
}

/// The arguments that make each tool print its version.
pub open spec fn version_arguments(kind: ToolKind) -> Seq<Seq<char>> {
    match kind {
        ToolKind::Go => seq!["version"@],
        _ => seq!["--version"@],
    }
}

/// The built-in tools, in the order in which reports are listed.
pub open spec fn tool_order() -> Seq<ToolKind> {
    seq![
        ToolKind::Rust,
        ToolKind::Node,
        ToolKind::Npm,
        ToolKind::Pnpm,
        ToolKind::Go,
        ToolKind::Bun,
        ToolKind::Deno,
        ToolKind::Uv,
    ]
}

/// The executable name for a tool identifier: `rustc` for `rust`, else the identifier.
pub open spec fn tool_executable_for(id: Seq<char>) -> Seq<char> {
    if id == "rust"@ {
        "rustc"@
    } else {
        id
    }
}

/// The executable name for a tool identifier.
pub fn tool_executable_name(id: &str) -> (r: String)
    ensures
        r@ == tool_executable_for(id@),
{
    if crate::text::str_eq(id, "rust") {
        owned("rustc")
    } else {
        owned(id)
    }
}

/// A built-in tool adapter.
#[derive(Debug, Clone, Copy, PartialEq, Eq, Structural)]
pub struct BuiltinToolAdapter {
    pub kind: ToolKind,
}

/// The built-in tool adapters, in a fixed order.
pub fn tool_registry() -> (r: Vec<BuiltinToolAdapter>)
    ensures
        r@.len() == tool_order().len(),
        forall|k: int| 0 <= k < r@.len() ==> (#[trigger] r@[k]).kind == tool_order()[k],
{
    let r = vec![
        BuiltinToolAdapter { kind: ToolKind::Rust },
        BuiltinToolAdapter { kind: ToolKind::Node },
        BuiltinToolAdapter { kind: ToolKind::Npm },
        BuiltinToolAdapter { kind: ToolKind::Pnpm },
        BuiltinToolAdapter { kind: ToolKind::Go },
        BuiltinToolAdapter { kind: ToolKind::Bun },
        BuiltinToolAdapter { kind: ToolKind::Deno },
        BuiltinToolAdapter { kind: ToolKind::Uv },
    ];
    r
}

/// The message of a failed detection where the tool is not on `PATH`.
pub open spec fn not_on_path() -> Seq<char> {
    "tool is not available on PATH"@
}

/// The message of a version output without a version.
pub open spec fn no_version_in_output() -> Seq<char> {
    "version output did not contain a version"@
}

/// The first of the first `n` words that contains `v`.
pub open spec fn first_word_containing(ws: Seq<Seq<char>>, v: Seq<char>, n: int) -> Option<
    Seq<char>,
>
    decreases n,
{
    if n <= 0 {
        None
    } else {
        match first_word_containing(ws, v, n - 1) {
            Some(w) => Some(w),
            None => if contains_seq(ws[n - 1], v) {
                Some(ws[n - 1])
            } else {
                None
            },
        }
    }
}

/// The raw version text of an output whose version is `normalized`: the first word that
/// contains it (else the version itself), without the characters at either end that are not
/// version characters.
pub open spec fn raw_version_text(output: Seq<char>, normalized: Seq<char>) -> Seq<char> {
    let ws = words(output);
    let token = match first_word_containing(ws, normalized, ws.len() as int) {
        Some(w) => w,
        None => normalized,
    };
    trim_version(token, true)
}

/// The first line of the output of `which`, trimmed, where it is not empty.
pub open spec fn located_in(stdout: Seq<char>) -> Option<Seq<char>> {
    let ls = lines(stdout);
    if ls.len() > 0 && trimmed(ls[0]).len() > 0 {
        Some(trimmed(ls[0]))
    } else {
        None
    }
}

/// The messages of provider errors.
pub open spec fn provider_error_text(e: ProviderError) -> Seq<char> {
    match e {
        ProviderError::InvalidId(v) => "invalid provider id `"@ + v@ + "`"@,
        ProviderError::EmptyVersion => "tool version cannot be empty"@,
        ProviderError::EmptyNormalizedVersion => "normalized tool version cannot be empty"@,
    }
}

impl BuiltinToolAdapter {
    /// The tool's identifier.
    pub fn id(&self) -> (r: ToolId)
        ensures
            r@ == tool_name(self.kind),
    {
        let text = self.id_text();
        match ToolId::new(text) {
            Ok(id) => id,
            Err(_) => {
                proof {
                    assert(false);
                }
                ToolId::new("rust").unwrap()
            },
        }
    }

    /// The tool's identifier text.
    pub fn id_text(&self) -> (r: &'static str)
        ensures
            r@ == tool_name(self.kind),
            valid_id(r@),
    {
        proof {
            reveal_strlit("rust");
            reveal_strlit("node");
            reveal_strlit("npm");
            reveal_strlit("pnpm");
            reveal_strlit("go");
            reveal_strlit("bun");
            reveal_strlit("deno");
            reveal_strlit("uv");
        }
        match self.kind {
            ToolKind::Rust => "rust",
            ToolKind::Node => "node",
            ToolKind::Npm => "npm",
            ToolKind::Pnpm => "pnpm",
            ToolKind::Go => "go",
            ToolKind::Bun => "bun",
            ToolKind::Deno => "deno",
            ToolKind::Uv => "uv",
        }
    }

    /// The name the tool is shown by.
    pub fn display_name(&self) -> (r: &'static str)
        ensures
            r@ == shown_name(self.kind),
    {
        match self.kind {
            ToolKind::Rust => "Rust",
            ToolKind::Node => "Node.js",
            ToolKind::Npm => "npm",
            ToolKind::Pnpm => "pnpm",
            ToolKind::Go => "Go",
            ToolKind::Bun => "Bun",
            ToolKind::Deno => "Deno",
            ToolKind::Uv => "uv",
        }
    }

    /// The executable the tool is found by.
    pub fn executable(&self) -> (r: &'static str)
        ensures
            r@ == executable_name(self.kind),
    {
        match self.kind {
            ToolKind::Rust => "rustc",
            ToolKind::Node => "node",
            ToolKind::Npm => "npm",
            ToolKind::Pnpm => "pnpm",
            ToolKind::Go => "go",
            ToolKind::Bun => "bun",
            ToolKind::Deno => "deno",
            ToolKind::Uv => "uv",
        }
    }

    /// `/usr/bin/which <executable>`: the command that finds the tool.
    pub fn which_command(&self) -> (r: CommandSpec)
        ensures
            plain_command(r, "/usr/bin/which"@, seq![executable_name(self.kind)]),
    {
        let mut args: Vec<String> = Vec::new();
        args.push(owned(self.executable()));
        proof {
            assert(views(args@) =~= seq![executable_name(self.kind)]);
        }
        CommandSpec::from_parts(owned("/usr/bin/which"), args)
    }

    /// The executable reported by `which`: the first line of its output, trimmed; refused with
    /// "tool is not available on PATH" where `which` failed or printed no path.
    pub fn locate(&self, which: &Result<CommandOutput, String>) -> (r: Result<String, String>)
        ensures
            match which {
                Err(_) => r matches Err(m) && m@ == not_on_path(),
                Ok(out) => match located_in(out.stdout@) {
                    Some(p) => r matches Ok(e) && e@ == p,
                    None => r matches Err(m) && m@ == not_on_path(),
                },
            },
    {
        match which {
            Err(_) => Err(owned("tool is not available on PATH")),
            Ok(out) => {
                let ls = split_lines(&chars_of(out.stdout.as_str()));
                if ls.len() > 0 {
                    assert(char_rows(ls@)[0] == ls@[0]@);
                    let first = trim_chars(&ls[0]);
                    if first.len() > 0 {
                        return Ok(string_from_chars(&first));
                    }
                }
                Err(owned("tool is not available on PATH"))
            },
        }
    }

    /// The command that prints the tool's version, run from the located executable.
    pub fn version_command(&self, executable: &str) -> (r: CommandSpec)
        ensures
            plain_command(r, executable@, version_arguments(self.kind)),
    {
        let mut args: Vec<String> = Vec::new();
        match self.kind {
            ToolKind::Go => args.push(owned("version")),
            _ => args.push(owned("--version")),
        }
        proof {
            assert(views(args@) =~= version_arguments(self.kind));
        }
        CommandSpec::from_parts(owned(executable), args)
    }

    /// The progress label of the version read.
    pub fn version_label(&self) -> (r: String)
        ensures
            r@ == "Reading "@ + shown_name(self.kind) + " version"@,
    {
        crate::text::concat3("Reading ", self.display_name(), " version")
    }

    /// The version in a version output: normalized as `version_number` finds it, raw as the
    /// word that holds it, without the characters at either end that are not version
    /// characters.
    pub fn parse_version(&self, output: &str) -> (r: Result<ToolVersion, String>)
        ensures
            match spec_version_number(output@) {
                None => r matches Err(m) && m@ == no_version_in_output(),
                Some(n) => {
                    let raw = raw_version_text(output@, n);
                    if all_space(raw) {
                        r matches Err(m) && m@ == provider_error_text(ProviderError::EmptyVersion)
                    } else {
                        r matches Ok(v) && v.raw_view() == raw && v.normalized_view() == Some(n)
                    }
                },
            },
    {
        let normalized = match version_number(output) {
            Some(n) => n,
            None => {
                return Err(owned("version output did not contain a version"));
            },
        };
        let norm = chars_of(normalized.as_str());
        let ws = split_words(&chars_of(output));
        let ghost wv = words(output@);
        let mut token = crate::text::copy_chars(&norm);
        let mut found = false;
        let mut k: usize = 0;
        while k < ws.len() && !found
            invariant
                char_rows(ws@) == wv,
                wv == words(output@),
                k <= ws@.len(),
                norm@ == normalized@,
                !found ==> first_word_containing(wv, norm@, k as int) is None && token@ == norm@,
                found ==> first_word_containing(wv, norm@, wv.len() as int) == Some(token@),
            decreases ws.len() - k + (if found {
                0int
            } else {
                1int
            }),
        {
            assert(char_rows(ws@)[k as int] == ws@[k as int]@);
            if contains_chars(&ws[k], &norm) {
                proof {
                    lemma_first_word_stays(wv, norm@, k + 1, wv.len() as int);
                }
                token = crate::text::copy_chars(&ws[k]);
                found = true;
            } else {
                k = k + 1;
            }
        }
        proof {
            crate::versions::lemma_version_starts_with_digit(output@);
        }
        let raw = trim_version_chars(&token, true);
        let raw_text = string_from_chars(&raw);
        match ToolVersion::new(raw_text.as_str(), Some(normalized)) {
            Ok(v) => Ok(v),
            Err(e) => Err(e.message()),
        }
    }

    /// The detected tool, from the located executable and the output of the version command.
    pub fn detected(&self, executable: String, version: &Result<CommandOutput, String>) -> (r:
        Result<DetectedTool, String>)
        ensures
            match version {
                Err(m) => r matches Err(x) && x@ == m@,
                Ok(out) => match spec_version_number(out.stdout@) {
                    None => r matches Err(x) && x@ == no_version_in_output(),
                    Some(n) => {
                        let raw = raw_version_text(out.stdout@, n);
                        if all_space(raw) {
                            r matches Err(x) && x@ == provider_error_text(
                                ProviderError::EmptyVersion,
                            )
                        } else {
                            r matches Ok(t) && t.id@ == tool_name(self.kind) && t.executable
                                == executable && t.version.raw_view() == raw
                                && t.version.normalized_view() == Some(n)
                        }
                    },
                },
            },
    {
        match version {
            Err(m) => Err(m.clone()),
            Ok(out) => match self.parse_version(out.stdout.as_str()) {
                Ok(v) => Ok(DetectedTool { id: self.id(), executable, version: v }),
                Err(m) => Err(m),
            },
        }
    }

    /// The order of two versions of this tool, by semantic-version precedence.
    pub fn compare(&self, current: &ToolVersion, latest: &ToolVersion) -> (r: Result<
        VersionOrder,
        String,
    >)
        ensures
            match (r, compared(Comparison::Semantic, current.display_view(), latest.display_view())) {
                (Ok(x), Ok(y)) => x == y,
                (Err(m), Err(n)) => m@ == n,
                _ => false,
            },
    {
        compare_versions(Comparison::Semantic, current, latest)
    }
}

proof fn lemma_first_word_stays(ws: Seq<Seq<char>>, v: Seq<char>, n: int, m: int)
    requires
        1 <= n <= m,
        first_word_containing(ws, v, n) is Some,
    ensures
        first_word_containing(ws, v, m) == first_word_containing(ws, v, n),
    decreases m - n,
{
    if m > n {
        lemma_first_word_stays(ws, v, n, m - 1);
    }
}

} // verus!
