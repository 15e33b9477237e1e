//! How each install manager asks for the latest version of a tool, and what it reads from the
//! reply.
use super::managers::{
    active_channel, evidence_pairs, kind_name, selector_for, BuiltinInstallManager, ManagerError,
    ManagerKind, ManagerSnapshot,
};
use super::{DetectedTool, ToolVersion};
use crate::command::{owned, plain_command, views, CommandSpec};
use crate::text::{
    all_space, char_rows, chars_of, concat_chars, copy_chars, lines, occurs_at, split_lines,
    split_words, starts_with_chars, string_from_chars, words,
};
use crate::versions::{spec_version_number, version_number};
use vstd::prelude::*;

verus! {

/// What the reply to a latest-version query is read as.
#[derive(Debug, Clone, Copy, PartialEq, Eq, Structural)]
pub enum ReplyFormat {
    /// Plain text output.
    Text,
    /// Homebrew's `info --json=v2` document.
    BrewInfo,
    /// GitHub's release document for Bun.
    BunRelease,
}

/// The reply format of each kind of manager.
pub open spec fn reply_format_of(kind: ManagerKind) -> ReplyFormat {
    match kind {
        ManagerKind::Homebrew => ReplyFormat::BrewInfo,
        ManagerKind::BunOfficial => ReplyFormat::BunRelease,
        _ => ReplyFormat::Text,
    }
}

/// What a Homebrew `info --json=v2` document says about versions: for each formula, its
/// stable version where that is a string, and for each cask, its version where that is a
/// string.
#[derive(Debug, PartialEq, Eq)]
pub struct BrewInfo {
    pub formula_stables: Vec<Option<String>>,
    pub cask_versions: Vec<Option<String>>,
}

/// The reply to a latest-version query, read as its manager's format says.
#[derive(Debug, PartialEq, Eq)]
pub enum LatestReply {
    /// The command's standard output.
    Text(String),
    /// The Homebrew document, or the message of the parser that refused it.
    Brew(Result<BrewInfo, String>),
    /// The Bun release document's `tag_name` where it is a string; `None` where the document
    /// could not be read.
    Bun(Option<Option<String>>),
}

/// Whether a reply has the format its manager reads.
pub open spec fn reply_fits(kind: ManagerKind, reply: LatestReply) -> bool {
    match reply_format_of(kind) {
        ReplyFormat::Text => reply is Text,
        ReplyFormat::BrewInfo => reply is Brew,
        ReplyFormat::BunRelease => reply is Bun,
    }
}

/// The text of the first entry of a list, where it has one and the entry is a text.
pub open spec fn first_text(v: Seq<Option<String>>) -> Option<Seq<char>> {
    if v.len() > 0 && v[0] is Some {
        Some(v[0]->0@)
    } else {
        None
    }
}

/// `s` without every leading repetition of `p` (`trim_start_matches`).
pub open spec fn without_prefixes(s: Seq<char>, p: Seq<char>) -> Seq<char>
    decreases s.len(),
{
    if p.len() > 0 && occurs_at(s, p, 0) {
        without_prefixes(s.subrange(p.len() as int, s.len() as int), p)
    } else {
        s
    }
}

/// The index of the first of the first `n` lines that starts with `channel`.
pub open spec fn first_line_with(ls: Seq<Seq<char>>, channel: Seq<char>, n: int) -> Option<int>
    decreases n,
{
    if n <= 0 {
        None
    } else {
        match first_line_with(ls, channel, n - 1) {
            Some(i) => Some(i),
            None => if occurs_at(ls[n - 1], channel, 0) {
                Some(n - 1)
            } else {
                None
            },
        }
    }
}

/// The version of the last of the first `n` words that holds one.
pub open spec fn last_version_word(ws: Seq<Seq<char>>, n: int) -> Option<Seq<char>>
    decreases n,
{
    if n <= 0 {
        None
    } else {
        match spec_version_number(ws[n - 1]) {
            Some(v) => Some(v),
            None => last_version_word(ws, n - 1),
        }
    }
}

/// The latest version text a manager reads from its reply.
pub open spec fn latest_text(
    kind: ManagerKind,
    ev: Seq<(Seq<char>, Seq<char>)>,
    reply: LatestReply,
) -> Result<Seq<char>, ManagerError> {
    match reply {
        LatestReply::Brew(parsed) => match parsed {
            Err(m) => Err(ManagerError::BrewInvalid(m)),
            Ok(info) => match first_text(info.formula_stables@) {
                Some(v) => Ok(v),
                None => match first_text(info.cask_versions@) {
                    Some(v) => Ok(v),
                    None => Err(ManagerError::BrewNoVersion),
                },
            },
        },
        LatestReply::Bun(release) => match release {
            None => Err(ManagerError::BunInvalid),
            Some(tag) => match tag {
                None => Err(ManagerError::BunNoVersion),
                Some(t) => match spec_version_number(without_prefixes(t@, "bun-"@)) {
                    Some(v) => Ok(v),
                    None => Err(ManagerError::BunNoVersion),
                },
            },
        },
        LatestReply::Text(out) => if kind == ManagerKind::Rustup {
            match active_channel(ev) {
                None => Err(ManagerError::NoActiveChannel),
                Some(channel) => {
                    let ls = lines(out@);
                    match first_line_with(ls, channel, ls.len() as int) {
                        None => Err(ManagerError::NoRustupVersion),
                        Some(i) => match last_version_word(
                            words(ls[i]),
                            words(ls[i]).len() as int,
                        ) {
                            Some(v) => Ok(v),
                            None => Err(ManagerError::NoRustupVersion),
                        },
                    }
                },
            }
        } else {
            match spec_version_number(out@) {
                Some(v) => Ok(v),
                None => Err(ManagerError::NoVersion),
            }
        },
    }
}

/// The program and arguments of each manager's latest-version query.
pub open spec fn latest_query(kind: ManagerKind, tool: Seq<char>, ev: Seq<(Seq<char>, Seq<char>)>) -> (
    Seq<char>,
    Seq<Seq<char>>,
) {
    match kind {
        ManagerKind::Homebrew => ("brew"@, seq!["info"@, "--json=v2"@, tool]),
        ManagerKind::Mise => ("mise"@, seq!["latest"@, tool + "@"@ + selector_for(tool, ev)]),
        ManagerKind::Rustup => ("rustup"@, seq!["check"@]),
        ManagerKind::Npm | ManagerKind::Corepack => ("npm"@, seq!["view"@, tool, "version"@]),
        ManagerKind::BunOfficial => (
            "curl"@,
            seq![
                "--fail"@,
                "--silent"@,
                "--show-error"@,
                "https://api.github.com/repos/oven-sh/bun/releases/latest"@,
            ],
        ),
        ManagerKind::DenoOfficial => ("deno"@, seq!["upgrade"@, "--dry-run"@]),
        ManagerKind::UvStandalone => ("uv"@, seq!["self"@, "update"@, "--dry-run"@]),
    }
}

fn first_text_of(v: &Vec<Option<String>>) -> (r: Option<Vec<char>>)
    ensures
        match (r, first_text(v@)) {
            (Some(x), Some(y)) => x@ == y,
            (None, None) => true,
            _ => false,
        },
{
    if v.len() > 0 {
        match &v[0] {
            Some(t) => Some(chars_of(t.as_str())),
            None => None,
        }
    } else {
        None
    }
}

pub(crate) fn strip_prefixes(s: &Vec<char>, p: &Vec<char>) -> (r: Vec<char>)
    ensures
        r@ == without_prefixes(s@, p@),
{
    if p.len() == 0 {
        return copy_chars(s);
    }
    let mut i: usize = 0;
    proof {
        assert(s@.subrange(0, s@.len() as int) =~= s@);
    }
    while i <= s.len() && p.len() <= s.len() - i && crate::text::matches_at(s, p, i)
        invariant
            p@.len() > 0,
            i <= s@.len(),
            without_prefixes(s@, p@) == without_prefixes(s@.subrange(i as int, s@.len() as int), p@),
        decreases s.len() - i,
    {
        proof {
            let t = s@.subrange(i as int, s@.len() as int);
            assert(occurs_at(t, p@, 0)) by {
                assert(t.subrange(0, p@.len() as int) =~= s@.subrange(i as int, i + p@.len()));
            }
            assert(t.subrange(p@.len() as int, t.len() as int) =~= s@.subrange(
                i + p@.len(),
                s@.len() as int,
            ));
        }
        i = i + p.len();
    }
    proof {
        let t = s@.subrange(i as int, s@.len() as int);
        if occurs_at(t, p@, 0) {
            assert(s@.subrange(i as int, i + p@.len()) =~= t.subrange(0, p@.len() as int));
            assert(crate::text::occurs_at(s@, p@, i as int));
        }
    }
    let mut out: Vec<char> = Vec::new();
    let mut k = i;
    while k < s.len()
        invariant
            i <= k <= s@.len(),
            out@ == s@.subrange(i as int, k as int),
        decreases s.len() - k,
    {
        out.push(s[k]);
        k = k + 1;
    }
    out
}

impl BuiltinInstallManager {
    /// The format in which this manager's latest-version reply is read.
    pub fn reply_format(&self) -> (r: ReplyFormat)
        ensures
            r == reply_format_of(self.kind),
    {
        match self.kind {
            ManagerKind::Homebrew => ReplyFormat::BrewInfo,
            ManagerKind::BunOfficial => ReplyFormat::BunRelease,
            _ => ReplyFormat::Text,
        }
    }

    /// The command that asks for the tool's latest version.
    pub fn latest_command(&self, tool: &DetectedTool, snapshot: &ManagerSnapshot) -> (r: CommandSpec)
        ensures
            plain_command(
                r,
                latest_query(self.kind, tool.id@, evidence_pairs(snapshot.evidence@)).0,
                latest_query(self.kind, tool.id@, evidence_pairs(snapshot.evidence@)).1,
            ),
    {
        let id = tool.id.as_str();
        let mut args: Vec<String> = Vec::new();
        let program: &str;
        match self.kind {
            ManagerKind::Homebrew => {
                program = "brew";
                args.push(owned("info"));
                args.push(owned("--json=v2"));
                args.push(owned(id));
            },
            ManagerKind::Mise => {
                let selector = super::managers::selector_of(tool, &snapshot.evidence);
                let target = concat_chars(
                    &concat_chars(&chars_of(id), &chars_of("@")),
                    &selector,
                );
                program = "mise";
                args.push(owned("latest"));
                args.push(string_from_chars(&target));
            },
            ManagerKind::Rustup => {
                program = "rustup";
                args.push(owned("check"));
            },
            ManagerKind::Npm | ManagerKind::Corepack => {
                program = "npm";
                args.push(owned("view"));
                args.push(owned(id));
                args.push(owned("version"));
            },
            ManagerKind::BunOfficial => {
                program = "curl";
                args.push(owned("--fail"));
                args.push(owned("--silent"));
                args.push(owned("--show-error"));
                args.push(owned("https://api.github.com/repos/oven-sh/bun/releases/latest"));
            },
            ManagerKind::DenoOfficial => {
                program = "deno";
                args.push(owned("upgrade"));
                args.push(owned("--dry-run"));
            },
            ManagerKind::UvStandalone => {
                program = "uv";
                args.push(owned("self"));
                args.push(owned("update"));
                args.push(owned("--dry-run"));
            },
        }
        proof {
            assert(views(args@) =~= latest_query(
                self.kind,
                tool.id@,
                evidence_pairs(snapshot.evidence@),
            ).1);
        }
        CommandSpec::from_parts(owned(program), args)
    }

    /// The latest version text read from the reply.
    fn latest_version_text(&self, snapshot: &ManagerSnapshot, reply: &LatestReply) -> (r: Result<
        Vec<char>,
        ManagerError,
    >)
        ensures
            match (r, latest_text(self.kind, evidence_pairs(snapshot.evidence@), *reply)) {
                (Ok(x), Ok(y)) => x@ == y,
                (Err(x), Err(y)) => x == y,
                _ => false,
            },
    {
        match reply {
            LatestReply::Brew(parsed) => match parsed {
                Err(m) => Err(ManagerError::BrewInvalid(m.clone())),
                Ok(info) => match first_text_of(&info.formula_stables) {
                    Some(v) => Ok(v),
                    None => match first_text_of(&info.cask_versions) {
                        Some(v) => Ok(v),
                        None => Err(ManagerError::BrewNoVersion),
                    },
                },
            },
            LatestReply::Bun(release) => match release {
                None => Err(ManagerError::BunInvalid),
                Some(tag) => match tag {
                    None => Err(ManagerError::BunNoVersion),
                    Some(t) => {
                        let stripped = strip_prefixes(&chars_of(t.as_str()), &chars_of("bun-"));
                        let text = string_from_chars(&stripped);
                        match version_number(text.as_str()) {
                            Some(v) => Ok(chars_of(v.as_str())),
                            None => Err(ManagerError::BunNoVersion),
                        }
                    },
                },
            },
            LatestReply::Text(out) => {
                if self.kind == ManagerKind::Rustup {
                    let channel = match super::managers::channel_of(&snapshot.evidence) {
                        Some(c) => c,
                        None => {
                            return Err(ManagerError::NoActiveChannel);
                        },
                    };
                    let ls = split_lines(&chars_of(out.as_str()));
                    let ghost lv = lines(out@);
                    let mut i: usize = 0;
                    while i < ls.len()
                        invariant
                            char_rows(ls@) == lv,
                            lv == lines(out@),
                            self.kind == ManagerKind::Rustup,
                            *reply == LatestReply::Text(*out),
                            active_channel(evidence_pairs(snapshot.evidence@)) == Some(channel@),
                            i <= ls@.len(),
                            first_line_with(lv, channel@, i as int) is None,
                        decreases ls.len() - i,
                    {
                        assert(char_rows(ls@)[i as int] == ls@[i as int]@);
                        if starts_with_chars(&ls[i], &channel) {
                            proof {
                                lemma_first_line_stays(lv, channel@, i + 1, lv.len() as int);
                            }
                            let ws = split_words(&ls[i]);
                            let mut k: usize = ws.len();
                            while k > 0
                                invariant
                                    self.kind == ManagerKind::Rustup,
                                    *reply == LatestReply::Text(*out),
                                    active_channel(evidence_pairs(snapshot.evidence@)) == Some(
                                        channel@,
                                    ),
                                    lv == lines(out@),
                                    first_line_with(lv, channel@, lv.len() as int) == Some(i as int),
                                    k <= ws@.len(),
                                    char_rows(ws@) == words(lv[i as int]),
                                    last_version_word(char_rows(ws@), ws@.len() as int)
                                        == last_version_word(char_rows(ws@), k as int),
                                decreases k,
                            {
                                assert(char_rows(ws@)[k - 1] == ws@[k - 1]@);
                                let word = string_from_chars(&ws[k - 1]);
                                match version_number(word.as_str()) {
                                    Some(v) => {
                                        return Ok(chars_of(v.as_str()));
                                    },
                                    None => {},
                                }
                                k = k - 1;
                            }
                            return Err(ManagerError::NoRustupVersion);
                        }
                        i = i + 1;
                    }
                    Err(ManagerError::NoRustupVersion)
                } else {
                    match version_number(out.as_str()) {
                        Some(v) => Ok(chars_of(v.as_str())),
                        None => Err(ManagerError::NoVersion),
                    }
                }
            },
        }
    }

    /// The latest version of the tool, read from the reply to `latest_command`: its
    /// normalized and raw texts are both the version read.
    pub fn latest_version(&self, snapshot: &ManagerSnapshot, reply: &LatestReply) -> (r: Result<
        ToolVersion,
        ManagerError,
    >)
        requires
            reply_fits(self.kind, *reply),
        ensures
            match latest_text(self.kind, evidence_pairs(snapshot.evidence@), *reply) {
                Err(e) => r == Err::<ToolVersion, ManagerError>(e),
                Ok(t) => if all_space(t) {
                    r == Err::<ToolVersion, ManagerError>(
                        ManagerError::Version(super::ProviderError::EmptyVersion),
                    )
                } else {
                    r matches Ok(v) && v.raw_view() == t && v.normalized_view() == Some(t)
                },
            },
    {
        let text = match self.latest_version_text(snapshot, reply) {
            Ok(t) => t,
            Err(e) => {
                return Err(e);
            },
        };
        let s = string_from_chars(&text);
        match ToolVersion::exact(s.as_str()) {
            Ok(v) => Ok(v),
            Err(e) => Err(ManagerError::Version(e)),
        }
    }
}

proof fn lemma_first_line_stays(ls: Seq<Seq<char>>, channel: Seq<char>, n: int, m: int)
    requires
        1 <= n <= m,
        first_line_with(ls, channel, n) is Some,
    ensures
        first_line_with(ls, channel, m) == first_line_with(ls, channel, n),
    decreases m - n,
{
    if m > n {
        lemma_first_line_stays(ls, channel, n, m - 1);
    }
}


/// The first line starting with the channel is found where it stands.
proof fn lemma_first_line_at(ls: Seq<Seq<char>>, channel: Seq<char>, i: int, n: int)
    requires
        0 <= i < n <= ls.len(),
        occurs_at(ls[i], channel, 0),
        forall|k: int| 0 <= k < i ==> !occurs_at(ls[k], channel, 0),
    ensures
        first_line_with(ls, channel, n) == Some(i),
    decreases n,
{
    if n - 1 > i {
        lemma_first_line_at(ls, channel, i, n - 1);
    } else {
        lemma_no_line_before(ls, channel, i);
    }
}

proof fn lemma_no_line_before(ls: Seq<Seq<char>>, channel: Seq<char>, n: int)
    requires
        0 <= n <= ls.len(),
        forall|k: int| 0 <= k < n ==> !occurs_at(ls[k], channel, 0),
    ensures
        first_line_with(ls, channel, n) is None,
    decreases n,
{
    if n > 0 {
        lemma_no_line_before(ls, channel, n - 1);
    }
}

/// Where a version is read from the first `n` words, it is that of a word after which none of
/// them holds a version; where none is read, no word holds one.
proof fn lemma_last_version_word(ws: Seq<Seq<char>>, n: int)
    requires
        0 <= n <= ws.len(),
    ensures
        last_version_word(ws, n) matches Some(v) ==> exists|j: int|
            0 <= j < n && spec_version_number(ws[j]) == Some(v) && forall|k: int|
                j < k < n ==> (#[trigger] spec_version_number(ws[k])) is None,
        last_version_word(ws, n) is None ==> forall|k: int|
            0 <= k < n ==> (#[trigger] spec_version_number(ws[k])) is None,
    decreases n,
{
    if n > 0 {
        lemma_last_version_word(ws, n - 1);
        match spec_version_number(ws[n - 1]) {
            Some(v) => {
                assert(forall|k: int| n - 1 < k < n ==> (#[trigger] spec_version_number(ws[k])) is None);
            },
            None => {
                if last_version_word(ws, n - 1) is Some {
                    let v = last_version_word(ws, n - 1)->0;
                    let j = choose|j: int|
                        0 <= j < n - 1 && spec_version_number(ws[j]) == Some(v) && forall|k: int|
                            j < k < n - 1 ==> (#[trigger] spec_version_number(ws[k])) is None;
                    assert forall|k: int| j < k < n implies (#[trigger] spec_version_number(ws[k])) is None by {
                        if k == n - 1 {
                        }
                    }
                }
            },
        }
    }
}

/// The latest Rust version rustup reports: on the first line of the reply that starts with the
/// active channel, the version of the last word that holds one, so that no word after it on
/// that line holds a version (`... : 1.80.0 -> 1.81.0` gives 1.81.0); where no word of that
/// line holds a version, the reply is refused as giving none.
pub proof fn law_rustup_latest_is_the_last_version_on_the_channel_line(
    ev: Seq<(Seq<char>, Seq<char>)>,
    out: String,
    i: int,
)
    requires
        active_channel(ev) is Some,
        0 <= i < lines(out@).len(),
        occurs_at(lines(out@)[i], active_channel(ev)->0, 0),
        forall|k: int| 0 <= k < i ==> !occurs_at(lines(out@)[k], active_channel(ev)->0, 0),
    ensures
        latest_text(ManagerKind::Rustup, ev, LatestReply::Text(out)) matches Ok(v) ==> exists|j: int|
            0 <= j < words(lines(out@)[i]).len() && spec_version_number(words(lines(out@)[i])[j])
                == Some(v) && forall|k: int|
                j < k < words(lines(out@)[i]).len() ==> (#[trigger] spec_version_number(
                    words(lines(out@)[i])[k],
                )) is None,
        latest_text(ManagerKind::Rustup, ev, LatestReply::Text(out)) is Ok <==> exists|j: int|
            0 <= j < words(lines(out@)[i]).len() && (#[trigger] spec_version_number(
                words(lines(out@)[i])[j],
            )) is Some,
        latest_text(ManagerKind::Rustup, ev, LatestReply::Text(out)) is Err ==> latest_text(
            ManagerKind::Rustup,
            ev,
            LatestReply::Text(out),
        ) == Err::<Seq<char>, ManagerError>(ManagerError::NoRustupVersion),
{
    let ls = lines(out@);
    let ws = words(ls[i]);
    lemma_first_line_at(ls, active_channel(ev)->0, i, ls.len() as int);
    lemma_last_version_word(ws, ws.len() as int);
}

} // verus!
