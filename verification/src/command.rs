//! Argument-separated external commands.
use crate::copy::Duplicate;
use crate::text::{all_space, chars_of, concat_str, str_all_space, str_eq, string_from_chars};
use vstd::prelude::*;

verus! {

/// An owned copy of a string slice.
pub fn owned(s: &str) -> (r: String)
    ensures
        r@ == s@,
{
    let chars = chars_of(s);
    string_from_chars(&chars)
}

/// A command to run: a program, its separate arguments, and how to run it.
///
/// The environment holds each key once; a later setting of a key replaces the earlier value.
#[derive(Debug, PartialEq, Eq)]
pub struct CommandSpec {
    pub program: String,
    pub args: Vec<String>,
    pub accepted_exit_codes: Vec<i32>,
    pub current_dir: Option<String>,
    pub environment: Vec<(String, String)>,
    pub removed_environment: Vec<String>,
}

/// The characters of each string, in order.
pub open spec fn views(v: Seq<String>) -> Seq<Seq<char>> {
    v.map_values(|s: String| s@)
}

/// The key of each environment entry.
pub open spec fn env_keys(env: Seq<(String, String)>) -> Seq<Seq<char>> {
    env.map_values(|e: (String, String)| e.0@)
}

/// Each environment key occurs once.
pub open spec fn env_keys_unique(env: Seq<(String, String)>) -> bool {
    forall|i: int, j: int| 0 <= i < j < env.len() ==> env[i].0@ != env[j].0@
}

/// Owned copies of string slices.
pub fn owned_all(items: &[&str]) -> (r: Vec<String>)
    ensures
        r@.len() == items@.len(),
        forall|i: int| 0 <= i < items@.len() ==> #[trigger] r@[i]@ == items@[i]@,
{
    let mut out: Vec<String> = Vec::new();
    let mut i: usize = 0;
    while i < items.len()
        invariant
            i <= items@.len(),
            out@.len() == i,
            forall|k: int| 0 <= k < i ==> #[trigger] out@[k]@ == items@[k]@,
        decreases items.len() - i,
    {
        out.push(owned(items[i]));
        i = i + 1;
    }
    out
}

/// The text `Debug` writes for a string slice: the quoted, escaped form.
pub uninterp spec fn debug_quoted(s: Seq<char>) -> Seq<char>;

/// `format!("{:?}", s)` for a string slice. It claims that the result is the `Debug`
/// rendering of `s` and that this rendering begins and ends with a double quote.
#[verifier::external_body]
fn debug_str(s: &str) -> (r: String)
    ensures
        r@ == debug_quoted(s@),
        r@.len() >= 2,
        r@[0] == '"',
        r@[r@.len() - 1] == '"',
{
    format!("{:?}", s)
}

/// Whether a part needs quoting when a command is shown.
pub open spec fn needs_quotes(part: Seq<char>) -> bool {
    part.contains(' ') || part.contains('\'') || part.contains('"')
}

/// How one part of a command is shown.
pub open spec fn shown_part(part: Seq<char>) -> Seq<char> {
    if needs_quotes(part) {
        debug_quoted(part)
    } else {
        part
    }
}

/// Parts joined by single spaces.
pub open spec fn join_spaced(parts: Seq<Seq<char>>) -> Seq<char>
    decreases parts.len(),
{
    if parts.len() == 0 {
        Seq::empty()
    } else if parts.len() == 1 {
        parts[0]
    } else {
        join_spaced(parts.drop_last()) + seq![' '] + parts.last()
    }
}

/// The program followed by its arguments.
pub open spec fn command_parts(program: Seq<char>, args: Seq<Seq<char>>) -> Seq<Seq<char>> {
    seq![program] + args
}

/// How a whole command is shown.
pub open spec fn shown_command(program: Seq<char>, args: Seq<Seq<char>>) -> Seq<char> {
    join_spaced(command_parts(program, args).map_values(|p: Seq<char>| shown_part(p)))
}

fn has_quote_char(part: &Vec<char>) -> (r: bool)
    ensures
        r == needs_quotes(part@),
{
    let mut i: usize = 0;
    while i < part.len()
        invariant
            i <= part@.len(),
            forall|k: int| 0 <= k < i ==> part@[k] != ' ' && part@[k] != '\'' && part@[k] != '"',
        decreases part.len() - i,
    {
        let c = part[i];
        if c == ' ' || c == '\'' || c == '"' {
            return true;
        }
        i = i + 1;
    }
    false
}

fn show_part(part: &String) -> (r: Vec<char>)
    ensures
        r@ == shown_part(part@),
{
    let chars = chars_of(part.as_str());
    if has_quote_char(&chars) {
        let quoted = debug_str(part.as_str());
        chars_of(quoted.as_str())
    } else {
        chars
    }
}

/// Why a Homebrew upgrade command could not be built.
#[derive(Debug, Clone, Copy, PartialEq, Eq, Structural)]
pub enum CommandError {
    /// The target is empty or white space.
    MissingTarget,
    /// The target kind is neither a formula nor a cask.
    InvalidKind,
}

impl CommandError {
    /// The message shown for this error.
    pub fn message(&self) -> (r: &'static str)
        ensures
            r@ == (match self {
                CommandError::MissingTarget => "Homebrew upgrade requires an explicit target"@,
                CommandError::InvalidKind => "Homebrew upgrade requires a formula or cask target kind"@,
            }),
    {
        match self {
            CommandError::MissingTarget => "Homebrew upgrade requires an explicit target",
            CommandError::InvalidKind => "Homebrew upgrade requires a formula or cask target kind",
        }
    }
}

/// The Homebrew item kinds that can be upgraded by name.
pub open spec fn is_brew_kind(kind: Seq<char>) -> bool {
    kind == "formula"@ || kind == "cask"@
}

impl CommandSpec {
    /// `brew upgrade --<kind> <target>`, refused unless the target is given and the kind is a
    /// formula or a cask.
    pub fn brew_inventory_upgrade(kind: &str, target: &str) -> (r: Result<CommandSpec, CommandError>)
        ensures
            all_space(target@) ==> r == Err::<CommandSpec, CommandError>(CommandError::MissingTarget),
            !all_space(target@) && !is_brew_kind(kind@) ==> r == Err::<CommandSpec, CommandError>(
                CommandError::InvalidKind,
            ),
            !all_space(target@) && is_brew_kind(kind@) ==> (r matches Ok(c) && c.program@ == "brew"@
                && views(c.args@) == seq!["upgrade"@, "--"@ + kind@, target@]
                && c.accepted_exit_codes@.len() == 0 && c.current_dir is None
                && c.environment@.len() == 0 && c.removed_environment@.len() == 0),
    {
        if str_all_space(target) {
            return Err(CommandError::MissingTarget);
        }
        if !(str_eq(kind, "formula") || str_eq(kind, "cask")) {
            return Err(CommandError::InvalidKind);
        }
        let mut args: Vec<String> = Vec::new();
        args.push(owned("upgrade"));
        args.push(concat_str("--", kind));
        args.push(owned(target));
        let r = CommandSpec::from_parts(owned("brew"), args);
        proof {
            assert(views(r.args@) =~= seq!["upgrade"@, "--"@ + kind@, target@]);
        }
        Ok(r)
    }

    /// `brew upgrade <target>`, refused when the target is empty or white space.
    pub fn brew_upgrade(target: &str) -> (r: Result<CommandSpec, CommandError>)
        ensures
            all_space(target@) ==> r == Err::<CommandSpec, CommandError>(CommandError::MissingTarget),
            !all_space(target@) ==> (r matches Ok(c) && c.program@ == "brew"@ && views(c.args@)
                == seq!["upgrade"@, target@] && c.accepted_exit_codes@.len() == 0
                && c.current_dir is None && c.environment@.len() == 0
                && c.removed_environment@.len() == 0),
    {
        if str_all_space(target) {
            return Err(CommandError::MissingTarget);
        }
        let mut args: Vec<String> = Vec::new();
        args.push(owned("upgrade"));
        args.push(owned(target));
        let r = CommandSpec::from_parts(owned("brew"), args);
        proof {
            assert(views(r.args@) =~= seq!["upgrade"@, target@]);
        }
        Ok(r)
    }

    /// A command with the given program and arguments and no other settings.
    pub fn new(program: &str, args: &[&str]) -> (r: CommandSpec)
        ensures
            r.program@ == program@,
            r.args@.len() == args@.len(),
            forall|i: int| 0 <= i < args@.len() ==> #[trigger] r.args@[i]@ == args@[i]@,
            r.accepted_exit_codes@ == Seq::<i32>::empty(),
            r.current_dir is None,
            r.environment@ == Seq::<(String, String)>::empty(),
            r.removed_environment@ == Seq::<String>::empty(),
    {
        CommandSpec {
            program: owned(program),
            args: owned_all(args),
            accepted_exit_codes: Vec::new(),
            current_dir: None,
            environment: Vec::new(),
            removed_environment: Vec::new(),
        }
    }

    /// A command with the given program and argument list and no other settings.
    pub fn from_parts(program: String, args: Vec<String>) -> (r: CommandSpec)
        ensures
            r.program == program,
            r.args == args,
            r.accepted_exit_codes@ == Seq::<i32>::empty(),
            r.current_dir is None,
            r.environment@ == Seq::<(String, String)>::empty(),
            r.removed_environment@ == Seq::<String>::empty(),
    {
        CommandSpec {
            program,
            args,
            accepted_exit_codes: Vec::new(),
            current_dir: None,
            environment: Vec::new(),
            removed_environment: Vec::new(),
        }
    }

    /// The same command, also accepting `code` as a successful exit status.
    pub fn accepting_exit_code(self, code: i32) -> (r: CommandSpec)
        ensures
            r.accepted_exit_codes@ == self.accepted_exit_codes@.push(code),
            r.program == self.program,
            r.args == self.args,
            r.current_dir == self.current_dir,
            r.environment == self.environment,
            r.removed_environment == self.removed_environment,
    {
        let mut r = self;
        r.accepted_exit_codes.push(code);
        r
    }

    /// The same command, run in the directory `path`.
    pub fn in_directory(self, path: &str) -> (r: CommandSpec)
        ensures
            r.current_dir matches Some(d) && d@ == path@,
            r.program == self.program,
            r.args == self.args,
            r.accepted_exit_codes == self.accepted_exit_codes,
            r.environment == self.environment,
            r.removed_environment == self.removed_environment,
    {
        let mut r = self;
        r.current_dir = Some(owned(path));
        r
    }

    /// The same command with the environment variable `key` set to `value`; a previous
    /// setting of `key` is replaced.
    pub fn with_environment(self, key: &str, value: &str) -> (r: CommandSpec)
        requires
            env_keys_unique(self.environment@),
        ensures
            env_keys_unique(r.environment@),
            ({
                let old_env = self.environment@;
                let new_env = r.environment@;
                if env_keys(old_env).contains(key@) {
                    new_env.len() == old_env.len() && forall|i: int|
                        0 <= i < old_env.len() ==> if old_env[i].0@ == key@ {
                            new_env[i].0@ == key@ && new_env[i].1@ == value@
                        } else {
                            new_env[i] == old_env[i]
                        }
                } else {
                    new_env.len() == old_env.len() + 1 && new_env.subrange(0, old_env.len() as int)
                        == old_env && new_env.last().0@ == key@ && new_env.last().1@ == value@
                }
            }),
            r.program == self.program,
            r.args == self.args,
            r.accepted_exit_codes == self.accepted_exit_codes,
            r.current_dir == self.current_dir,
            r.removed_environment == self.removed_environment,
    {
        let mut r = self;
        let ghost old_env = r.environment@;
        let wanted = owned(key);
        let mut i: usize = 0;
        let mut found: Option<usize> = None;
        while i < r.environment.len()
            invariant_except_break
                found is None,
            invariant
                r.environment@ == old_env,
                wanted@ == key@,
                i <= old_env.len(),
                forall|k: int| 0 <= k < i ==> old_env[k].0@ != key@,
            ensures
                found matches Some(j) ==> j < old_env.len() && old_env[j as int].0@ == key@,
                found is None ==> forall|k: int| 0 <= k < old_env.len() ==> old_env[k].0@ != key@,
            decreases r.environment.len() - i,
        {
            if r.environment[i].0 == wanted {
                found = Some(i);
                break;
            }
            i = i + 1;
        }
        match found {
            Some(i) => {
                let entry = (wanted, owned(value));
                r.environment.set(i, entry);
                proof {
                    assert(old_env[i as int].0@ == key@);
                    assert(env_keys(old_env)[i as int] == key@);
                    assert forall|a: int, b: int|
                        0 <= a < b < r.environment@.len() implies r.environment@[a].0@
                        != r.environment@[b].0@ by {
                        assert(old_env[a].0@ != old_env[b].0@);
                    }
                    assert forall|k: int| 0 <= k < old_env.len() implies if old_env[k].0@
                        == key@ {
                        r.environment@[k].0@ == key@ && r.environment@[k].1@ == value@
                    } else {
                        r.environment@[k] == old_env[k]
                    } by {
                        if k != i && old_env[k].0@ == key@ {
                            assert(old_env[k].0@ == old_env[i as int].0@);
                        }
                    }
                }
                r
            },
            None => {
                proof {
                    assert forall|k: int| 0 <= k < env_keys(old_env).len() implies env_keys(
                        old_env,
                    )[k] != key@ by {
                        assert(old_env[k].0@ != key@);
                    }
                }
                r.environment.push((wanted, owned(value)));
                proof {
                    assert(r.environment@.subrange(0, old_env.len() as int) =~= old_env);
                }
                r
            },
        }
    }

    /// The same command with the environment variable `key` removed when it runs.
    pub fn removing_environment(self, key: &str) -> (r: CommandSpec)
        ensures
            r.removed_environment@.len() == self.removed_environment@.len() + 1,
            r.removed_environment@.subrange(0, self.removed_environment@.len() as int)
                == self.removed_environment@,
            r.removed_environment@.last()@ == key@,
            r.program == self.program,
            r.args == self.args,
            r.accepted_exit_codes == self.accepted_exit_codes,
            r.current_dir == self.current_dir,
            r.environment == self.environment,
    {
        let mut r = self;
        r.removed_environment.push(owned(key));
        proof {
            assert(r.removed_environment@.subrange(0, self.removed_environment@.len() as int)
                =~= self.removed_environment@);
        }
        r
    }

    /// The command as a user sees it: the program and arguments separated by spaces, each part
    /// that holds a space or a quote written in its quoted, escaped form.
    pub fn display(&self) -> (r: String)
        ensures
            r@ == shown_command(self.program@, views(self.args@)),
    {
        let ghost parts = command_parts(self.program@, views(self.args@)).map_values(
            |p: Seq<char>| shown_part(p),
        );
        let mut out = show_part(&self.program);
        let mut i: usize = 0;
        proof {
            assert(parts.subrange(0, 1) =~= seq![parts[0]]);
            assert(join_spaced(parts.subrange(0, 1)) == parts[0]);
        }
        while i < self.args.len()
            invariant
                parts == command_parts(self.program@, views(self.args@)).map_values(
                    |p: Seq<char>| shown_part(p),
                ),
                parts.len() == self.args@.len() + 1,
                i <= self.args@.len(),
                out@ == join_spaced(parts.subrange(0, i + 1)),
            decreases self.args.len() - i,
        {
            let shown = show_part(&self.args[i]);
            out.push(' ');
            let mut k: usize = 0;
            let ghost before = out@;
            while k < shown.len()
                invariant
                    k <= shown@.len(),
                    out@ == before + shown@.subrange(0, k as int),
                decreases shown.len() - k,
            {
                out.push(shown[k]);
                k = k + 1;
            }
            proof {
                let next = parts.subrange(0, i + 2);
                assert(next.drop_last() =~= parts.subrange(0, i + 1));
                assert(parts[i + 1] == shown_part(self.args@[i as int]@));
                assert(shown@.subrange(0, shown@.len() as int) =~= shown@);
                assert(out@ =~= join_spaced(parts.subrange(0, i + 1)) + seq![' '] + shown@);
            }
            i = i + 1;
        }
        proof {
            assert(parts.subrange(0, self.args@.len() + 1 as int) =~= parts);
        }
        string_from_chars(&out)
    }
}

/// Whether `c` runs `program` with `args` and no other settings.
pub open spec fn plain_command(c: CommandSpec, program: Seq<char>, args: Seq<Seq<char>>) -> bool {
    &&& c.program@ == program
    &&& views(c.args@) == args
    &&& c.accepted_exit_codes@.len() == 0
    &&& c.current_dir is None
    &&& c.environment@.len() == 0
    &&& c.removed_environment@.len() == 0
}

/// A command as plain values.
pub struct CommandView {
    pub program: Seq<char>,
    pub args: Seq<Seq<char>>,
    pub accepted_exit_codes: Seq<i32>,
    pub current_dir: Option<Seq<char>>,
    pub environment: Seq<(Seq<char>, Seq<char>)>,
    pub removed_environment: Seq<Seq<char>>,
}

impl DeepView for CommandSpec {
    type V = CommandView;

    open spec fn deep_view(&self) -> CommandView {
        CommandView {
            program: self.program@,
            args: self.args.deep_view(),
            accepted_exit_codes: self.accepted_exit_codes.deep_view(),
            current_dir: self.current_dir.deep_view(),
            environment: self.environment.deep_view(),
            removed_environment: self.removed_environment.deep_view(),
        }
    }
}

impl Duplicate for CommandSpec {
    fn duplicate(&self) -> (r: CommandSpec) {
        CommandSpec {
            program: self.program.clone(),
            args: self.args.duplicate(),
            accepted_exit_codes: self.accepted_exit_codes.duplicate(),
            current_dir: self.current_dir.duplicate(),
            environment: self.environment.duplicate(),
            removed_environment: self.removed_environment.duplicate(),
        }
    }
}

} // verus!
