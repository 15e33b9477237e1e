//! What a listed skill's scope, receipt and location say about whether Beacon may update it.
use super::{GLOBAL_RECEIPT_VERSION, PROJECT_RECEIPT_VERSION};
use crate::command::owned;
use crate::config::{decimal, decimal_text};
use crate::providers::managers::{is_path_under, path_under};
use crate::providers::snapshot::{join_path, path_join};
use crate::redact::{opt_str_view, redact, redacted};
use crate::reports::{scope_name, ResourceScope};
use crate::store::SkillBaseline;
use super::reports::{opt_text, skill_id_text, unmanaged_report, Candidate};
use crate::providers::ToolVersion;
use crate::reports::{InventoryReport, InventoryRuntime, ToolStatus};
use crate::text::all_space;
use crate::text::{chars_of, concat3, concat_str, first_occurrence, find_from, str_eq, string_from_chars};
use vstd::prelude::*;

verus! {

/// A skill that `skills list --json` listed: its name, its directory and its reported scope.
#[derive(Debug)]
pub struct ListedSkill {
    pub name: String,
    pub path: String,
    pub scope: String,
}

/// The scope a listed skill's reported scope names, for the two scopes Beacon updates.
pub open spec fn scope_named(text: Seq<char>) -> Option<ResourceScope> {
    if text == "global"@ {
        Some(ResourceScope::Global)
    } else if text == "project"@ {
        Some(ResourceScope::Project)
    } else {
        None
    }
}

/// Reads a reported scope; any other than `global` and `project` is unsupported.
pub fn listed_scope(text: &str) -> (r: Option<ResourceScope>)
    ensures
        r == scope_named(text@),
{
    if str_eq(text, "global") {
        Some(ResourceScope::Global)
    } else if str_eq(text, "project") {
        Some(ResourceScope::Project)
    } else {
        None
    }
}

/// Why a reported scope is not supported.
pub fn unsupported_scope_detail(text: &str) -> (r: String)
    ensures
        r@ == "skills reported unsupported scope `"@ + text@ + "`"@,
{
    concat3("skills reported unsupported scope `", text, "`")
}

/// The receipt version expected in a scope.
pub open spec fn expected_receipt_version(scope: ResourceScope) -> u64 {
    if scope == ResourceScope::Global {
        GLOBAL_RECEIPT_VERSION
    } else {
        PROJECT_RECEIPT_VERSION
    }
}

/// Where a skill's receipt is read and which project it belongs to.
#[derive(Debug)]
pub struct ReceiptPlace {
    /// The receipt version the manager writes in this scope.
    pub expected_version: u64,
    /// The project root, for a project skill.
    pub project_root: Option<String>,
}

/// The receipt version expected for a skill in `scope` and its project root; a project skill
/// needs the project root that was found.
pub fn receipt_place(scope: ResourceScope, project_root: Option<&str>) -> (r: Result<
    ReceiptPlace,
    String,
>)
    requires
        scope != ResourceScope::System,
    ensures
        scope == ResourceScope::Project && project_root is None ==> (r matches Err(m) && m@
            == "skills reported a project Skill without a project root"@),
        !(scope == ResourceScope::Project && project_root is None) ==> (r matches Ok(p)
            && p.expected_version == expected_receipt_version(scope) && (if scope
            == ResourceScope::Global {
            p.project_root is None
        } else {
            p.project_root matches Some(root) && opt_str_view(project_root) == Some(root@)
        })),
{
    match scope {
        ResourceScope::Project => match project_root {
            Some(root) => Ok(
                ReceiptPlace { expected_version: PROJECT_RECEIPT_VERSION, project_root: Some(owned(root)) },
            ),
            None => Err(owned("skills reported a project Skill without a project root")),
        },
        _ => Ok(ReceiptPlace { expected_version: GLOBAL_RECEIPT_VERSION, project_root: None }),
    }
}

/// The receipt of a project: its `skills-lock.json`.
pub fn project_receipt_path(root: &str) -> (r: String)
    ensures
        r@ == path_join(root@, "skills-lock.json"@),
{
    string_from_chars(&join_path(&chars_of(root), &chars_of("skills-lock.json")))
}

/// Why a skill whose receipt file is missing is not managed.
pub fn missing_receipt_detail(receipt_path: &str, home: Option<&str>) -> (r: String)
    ensures
        r@ == "manager receipt is missing at "@ + redacted(receipt_path@, opt_str_view(home)),
{
    let shown = redact(receipt_path, home);
    concat_str("manager receipt is missing at ", shown.as_str())
}

/// Why a receipt that could not be parsed refuses the skill.
pub fn invalid_receipt_message(receipt_path: &str, home: Option<&str>) -> (r: String)
    ensures
        r@ == "invalid manager receipt "@ + redacted(receipt_path@, opt_str_view(home)),
{
    let shown = redact(receipt_path, home);
    concat_str("invalid manager receipt ", shown.as_str())
}

/// The fields of one skill's receipt entry that Beacon reads, each present where the entry
/// holds it as a string.
#[derive(Debug)]
pub struct ReceiptEntry {
    pub source_type: Option<String>,
    pub source_url: Option<String>,
    pub source: Option<String>,
    pub computed_hash: Option<String>,
    pub skill_folder_hash: Option<String>,
}

/// What a receipt says of a listed skill: its version where it is an unsigned integer, and the
/// skill's entry where it has one.
#[derive(Debug)]
pub struct ReceiptFacts {
    pub version: Option<u64>,
    pub entry: Option<ReceiptEntry>,
}

/// What a skill's receipt decides.
#[derive(Debug)]
pub enum ReceiptVerdict {
    /// The receipt cannot be used; checking the skill fails with this message.
    Refused(String),
    /// The skill is not safely updateable; the report gives this detail.
    Unmanaged(String),
    /// The skill may be checked: where its receipt says it came from.
    Accepted { source: String, locator: Option<String> },
}

/// A receipt verdict as plain values.
pub enum VerdictView {
    Refused(Seq<char>),
    Unmanaged(Seq<char>),
    Accepted { source: Seq<char>, locator: Option<Seq<char>> },
}

impl View for ReceiptVerdict {
    type V = VerdictView;

    open spec fn view(&self) -> VerdictView {
        match self {
            ReceiptVerdict::Refused(m) => VerdictView::Refused(m@),
            ReceiptVerdict::Unmanaged(d) => VerdictView::Unmanaged(d@),
            ReceiptVerdict::Accepted { source, locator } => VerdictView::Accepted {
                source: source@,
                locator: match locator {
                    Some(l) => Some(l@),
                    None => None,
                },
            },
        }
    }
}

/// The text of an optional string.
pub open spec fn text_of(o: Option<String>) -> Option<Seq<char>> {
    match o {
        Some(s) => Some(s@),
        None => None,
    }
}

/// The source type an entry gives, `unknown` where it gives none.
pub open spec fn source_type_of(e: ReceiptEntry) -> Seq<char> {
    match e.source_type {
        Some(t) => t@,
        None => "unknown"@,
    }
}

/// Where an entry says the skill came from: its source URL, else its source.
pub open spec fn locator_of(e: ReceiptEntry) -> Option<Seq<char>> {
    match e.source_url {
        Some(u) => Some(u@),
        None => text_of(e.source),
    }
}

/// The message of a receipt whose version is not the one expected in the scope.
pub open spec fn version_mismatch_text(scope: ResourceScope, version: Option<u64>) -> Seq<char> {
    "unsupported "@ + scope_name(scope) + " receipt version "@ + (match version {
        Some(v) => decimal_text(v as nat),
        None => "missing"@,
    }) + "; expected "@ + decimal_text(expected_receipt_version(scope) as nat)
}

/// What a receipt decides for a skill in `scope`: a receipt of another version refuses it; a
/// skill the receipt does not hold, or whose source is not GitHub or git, is not managed;
/// otherwise it may be checked, with its locator stripped of credentials, query and fragment.
pub open spec fn receipt_verdict(
    scope: ResourceScope,
    facts: ReceiptFacts,
    home: Option<Seq<char>>,
) -> VerdictView {
    if facts.version != Some(expected_receipt_version(scope)) {
        VerdictView::Refused(version_mismatch_text(scope, facts.version))
    } else {
        match facts.entry {
            None => VerdictView::Unmanaged("Skill is listable but absent from the manager receipt"@),
            Some(e) => {
                let t = source_type_of(e);
                if t != "github"@ && t != "git"@ {
                    VerdictView::Unmanaged("source type `"@ + t + "` is not safely updateable"@)
                } else {
                    VerdictView::Accepted {
                        source: t,
                        locator: match locator_of(e) {
                            Some(l) => Some(sanitized_locator(l, home)),
                            None => None,
                        },
                    }
                }
            },
        }
    }
}

fn text_copy(o: &Option<String>) -> (r: Option<String>)
    ensures
        text_of(r) == text_of(*o),
{
    match o {
        Some(s) => Some(s.clone()),
        None => None,
    }
}

/// Decides what a skill's receipt allows.
pub fn check_receipt(scope: ResourceScope, facts: &ReceiptFacts, home: Option<&str>) -> (r:
    ReceiptVerdict)
    requires
        scope != ResourceScope::System,
    ensures
        r@ == receipt_verdict(scope, *facts, opt_str_view(home)),
{
    let expected = if scope == ResourceScope::Global {
        GLOBAL_RECEIPT_VERSION
    } else {
        PROJECT_RECEIPT_VERSION
    };
    let matches_expected = match facts.version {
        Some(v) => v == expected,
        None => false,
    };
    if !matches_expected {
        let found = match facts.version {
            Some(v) => string_from_chars(&decimal(v)),
            None => owned("missing"),
        };
        let wanted = string_from_chars(&decimal(expected));
        let a = concat3("unsupported ", scope.as_str(), " receipt version ");
        let b = concat3(a.as_str(), found.as_str(), "; expected ");
        return ReceiptVerdict::Refused(concat_str(b.as_str(), wanted.as_str()));
    }
    match &facts.entry {
        None => ReceiptVerdict::Unmanaged(
            owned("Skill is listable but absent from the manager receipt"),
        ),
        Some(e) => {
            let t = match &e.source_type {
                Some(t) => t.clone(),
                None => owned("unknown"),
            };
            if !str_eq(t.as_str(), "github") && !str_eq(t.as_str(), "git") {
                return ReceiptVerdict::Unmanaged(
                    concat3("source type `", t.as_str(), "` is not safely updateable"),
                );
            }
            let raw = match &e.source_url {
                Some(u) => Some(u.clone()),
                None => text_copy(&e.source),
            };
            let locator = match &raw {
                Some(l) => Some(sanitize_locator(l.as_str(), home)),
                None => None,
            };
            ReceiptVerdict::Accepted { source: t, locator }
        },
    }
}

/// The position of the first `?` or `#` at or after `i`, or the length.
pub open spec fn query_start(s: Seq<char>, i: int) -> int
    decreases s.len() - i,
{
    if i >= s.len() {
        s.len() as int
    } else if s[i] == '?' || s[i] == '#' {
        i
    } else {
        query_start(s, i + 1)
    }
}

/// A locator without credentials: the user information between the scheme's `://` and the
/// first `@` after it is dropped.
pub open spec fn without_credentials(s: Seq<char>) -> Seq<char> {
    match first_occurrence(s, "://"@, 0) {
        None => s,
        Some(k) => match first_occurrence(s, "@"@, k + 3) {
            None => s,
            Some(a) => s.subrange(0, k + 3) + s.subrange(a + 1, s.len() as int),
        },
    }
}

/// A locator as reports show it: without its query and fragment, without credentials, and
/// redacted.
pub open spec fn sanitized_locator(s: Seq<char>, home: Option<Seq<char>>) -> Seq<char> {
    redacted(without_credentials(s.subrange(0, query_start(s, 0))), home)
}

proof fn lemma_query_start(s: Seq<char>, i: int)
    requires
        0 <= i <= s.len(),
    ensures
        i <= query_start(s, i) <= s.len(),
        forall|k: int| i <= k < query_start(s, i) ==> s[k] != '?' && s[k] != '#',
        query_start(s, i) < s.len() ==> (s[query_start(s, i)] == '?' || s[query_start(s, i)]
            == '#'),
    decreases s.len() - i,
{
    if i < s.len() && !(s[i] == '?' || s[i] == '#') {
        lemma_query_start(s, i + 1);
    }
}

/// Strips a locator's query, fragment and credentials and redacts what remains.
pub fn sanitize_locator(locator: &str, home: Option<&str>) -> (r: String)
    ensures
        r@ == sanitized_locator(locator@, opt_str_view(home)),
{
    let all = chars_of(locator);
    let mut cut: usize = 0;
    while cut < all.len() && all[cut] != '?' && all[cut] != '#'
        invariant
            cut <= all@.len(),
            query_start(all@, 0) == query_start(all@, cut as int),
        decreases all.len() - cut,
    {
        cut = cut + 1;
    }
    let mut s: Vec<char> = Vec::new();
    let mut i: usize = 0;
    while i < cut
        invariant
            i <= cut <= all@.len(),
            s@ == all@.subrange(0, i as int),
        decreases cut - i,
    {
        s.push(all[i]);
        i = i + 1;
    }
    let scheme = chars_of("://");
    let at = chars_of("@");
    proof {
        reveal_strlit("://");
        reveal_strlit("@");
    }
    let kept = match find_from(&s, &scheme, 0) {
        None => s,
        Some(k) => {
            proof {
                crate::text::lemma_first_occurrence(s@, scheme@, 0);
            }
            match find_from(&s, &at, k + 3) {
                None => s,
                Some(a) => {
                    proof {
                        crate::text::lemma_first_occurrence(s@, at@, (k + 3) as int);
                    }
                    let mut out: Vec<char> = Vec::new();
                    let end = k + 3;
                    let mut j: usize = 0;
                    while j < end
                        invariant
                            end == k + 3,
                            j <= k + 3 <= s@.len(),
                            out@ == s@.subrange(0, j as int),
                        decreases end - j,
                    {
                        out.push(s[j]);
                        j = j + 1;
                    }
                    let mut j: usize = a + 1;
                    while j < s.len()
                        invariant
                            k + 3 <= a + 1 <= j <= s@.len(),
                            out@ == s@.subrange(0, k + 3) + s@.subrange(a + 1, j as int),
                        decreases s.len() - j,
                    {
                        out.push(s[j]);
                        j = j + 1;
                        proof {
                            assert(s@.subrange(a + 1, j as int) =~= s@.subrange(a + 1, j - 1).push(
                                s@[j - 1],
                            ));
                        }
                    }
                    out
                },
            }
        },
    };
    let text = string_from_chars(&kept);
    redact(text.as_str(), home)
}

/// Checks that a skill lies within the directory of its scope: the home directory for a
/// global skill, the project root for a project skill.
pub fn ensure_safe_location(scope: ResourceScope, path: &str, base: &str) -> (r: Result<(), String>)
    ensures
        scope == ResourceScope::System ==> (r matches Err(m) && m@
            == "unsupported Agent Skill scope"@),
        scope != ResourceScope::System ==> (r is Ok <==> path_under(path@, base@)),
        scope != ResourceScope::System ==> (r matches Err(m) ==> m@
            == "Skill path is outside its declared "@ + scope_name(scope) + " scope"@),
{
    if scope == ResourceScope::System {
        return Err(owned("unsupported Agent Skill scope"));
    }
    if is_path_under(&chars_of(path), &chars_of(base)) {
        Ok(())
    } else {
        Err(concat3("Skill path is outside its declared ", scope.as_str(), " scope"))
    }
}

/// A content revision without its `sha256:` prefix.
pub open spec fn revision_digest(revision: Seq<char>) -> Seq<char> {
    if revision.len() >= 7 && revision.subrange(0, 7) == "sha256:"@ {
        revision.subrange(7, revision.len() as int)
    } else {
        revision
    }
}

fn strip_revision_prefix(revision: &str) -> (r: String)
    ensures
        r@ == revision_digest(revision@),
{
    let chars = chars_of(revision);
    let prefix = chars_of("sha256:");
    proof {
        reveal_strlit("sha256:");
    }
    if crate::text::starts_with_chars(&chars, &prefix) {
        let mut out: Vec<char> = Vec::new();
        let mut i: usize = 7;
        while i < chars.len()
            invariant
                7 <= i <= chars@.len(),
                out@ == chars@.subrange(7, i as int),
            decreases chars.len() - i,
        {
            out.push(chars[i]);
            i = i + 1;
        }
        proof {
            assert(chars@.subrange(0, 7) =~= prefix@);
        }
        string_from_chars(&out)
    } else {
        proof {
            if revision@.len() >= 7 && revision@.subrange(0, 7) == "sha256:"@ {
                assert(crate::text::occurs_at(chars@, prefix@, 0)) by {
                    assert forall|k: int| 0 <= k < prefix@.len() implies chars@[k] == prefix@[k] by {
                        assert(chars@.subrange(0, 7)[k] == chars@[k]);
                    }
                }
            }
        }
        owned(revision)
    }
}

/// Whether a skill's local state departs from what was installed, and why.
#[derive(Debug)]
pub struct LocalState {
    pub modified: bool,
    pub detail: Option<String>,
}

/// The hash a project receipt records for a skill: its computed hash, else its folder hash.
pub open spec fn recorded_hash(e: ReceiptEntry) -> Option<Seq<char>> {
    match e.computed_hash {
        Some(h) => Some(h@),
        None => text_of(e.skill_folder_hash),
    }
}

/// A project skill is modified where its receipt records no hash or another hash than its
/// content's, or where git shows local changes to it or to the receipt.
pub open spec fn project_modified(e: ReceiptEntry, revision: Seq<char>, git_overlap: bool) -> bool {
    (match recorded_hash(e) {
        None => true,
        Some(h) => h != revision_digest(revision),
    }) || git_overlap
}

/// Decides whether a project skill was changed locally.
pub fn project_state(entry: &ReceiptEntry, revision: &str, git_overlap: bool) -> (r: LocalState)
    ensures
        r.modified == project_modified(*entry, revision@, git_overlap),
        r.modified ==> (r.detail matches Some(d) && d@
            == "project Skill or its skills-lock.json has overlapping local changes"@),
        !r.modified ==> r.detail is None,
{
    let recorded = match &entry.computed_hash {
        Some(h) => Some(h.clone()),
        None => text_copy(&entry.skill_folder_hash),
    };
    let digest = strip_revision_prefix(revision);
    let mismatch = match &recorded {
        None => true,
        Some(h) => !str_eq(h.as_str(), digest.as_str()),
    };
    let modified = mismatch || git_overlap;
    LocalState {
        modified,
        detail: if modified {
            Some(owned("project Skill or its skills-lock.json has overlapping local changes"))
        } else {
            None
        },
    }
}

/// What the stored baseline of a global skill decides, and whether the baseline is (re)written.
#[derive(Debug)]
pub struct BaselineState {
    pub state: LocalState,
    /// Whether the current receipt fingerprint and content revision become the baseline.
    pub record: bool,
}

/// A stored baseline as plain values: its receipt fingerprint and content revision.
pub open spec fn baseline_view(stored: Option<&SkillBaseline>) -> Option<(Seq<char>, Seq<char>)> {
    match stored {
        Some(b) => Some((b.receipt_fingerprint@, b.content_revision@)),
        None => None,
    }
}

/// Whether a global skill is locally modified, and whether its current state becomes the
/// baseline: with a baseline of the same receipt fingerprint, a different content revision is
/// a local change and nothing is recorded; otherwise the current state is recorded.
pub open spec fn baseline_decision(
    stored: Option<(Seq<char>, Seq<char>)>,
    fingerprint: Seq<char>,
    revision: Seq<char>,
) -> (bool, bool) {
    match stored {
        Some((f, r)) => if f == fingerprint {
            (r != revision, false)
        } else {
            (false, true)
        },
        None => (false, true),
    }
}

/// The first observation of a global skill records its baseline, which is trusted afterwards:
/// the same content is unmodified and records nothing, other content under the same receipt
/// is a local change, and a changed receipt establishes a new baseline.
pub proof fn law_recorded_baseline_is_trusted(
    fingerprint: Seq<char>,
    revision: Seq<char>,
    later_fingerprint: Seq<char>,
    later_revision: Seq<char>,
)
    ensures
        baseline_decision(None, fingerprint, revision) == (false, true),
        baseline_decision(Some((fingerprint, revision)), fingerprint, revision) == (false, false),
        later_revision != revision ==> baseline_decision(
            Some((fingerprint, revision)),
            fingerprint,
            later_revision,
        ) == (true, false),
        later_fingerprint != fingerprint ==> baseline_decision(
            Some((fingerprint, revision)),
            later_fingerprint,
            later_revision,
        ) == (false, true),
{
}

/// Decides whether a global skill changed without a receipt change: where the stored baseline
/// has the same receipt fingerprint, a different content revision is a local change; otherwise
/// the current state becomes the baseline.
pub fn global_baseline_state(stored: Option<&SkillBaseline>, fingerprint: &str, revision: &str) -> (r:
    BaselineState)
    ensures
        (r.state.modified, r.record) == baseline_decision(baseline_view(stored), fingerprint@, revision@),
        r.state.modified ==> (r.state.detail matches Some(d) && d@
            == "global Skill content changed without a receipt change"@),
        !r.state.modified ==> r.state.detail is None,
{
    match stored {
        Some(b) => {
            if str_eq(b.receipt_fingerprint.as_str(), fingerprint) {
                let changed = !str_eq(b.content_revision.as_str(), revision);
                return BaselineState {
                    state: LocalState {
                        modified: changed,
                        detail: if changed {
                            Some(owned("global Skill content changed without a receipt change"))
                        } else {
                            None
                        },
                    },
                    record: false,
                };
            }
        },
        None => {},
    }
    BaselineState { state: LocalState { modified: false, detail: None }, record: true }
}

/// What reading a skill's receipt file gave.
#[derive(Debug)]
pub enum ReceiptRead {
    /// There is no receipt file.
    Missing,
    /// The file is not a JSON receipt.
    Invalid,
    /// What the receipt says of the skill.
    Read(ReceiptFacts),
}

/// What the stored baseline of a global skill is, where a history database is open.
#[derive(Debug)]
pub struct BaselineLookup {
    /// The stored baseline of the skill, if any.
    pub stored: Option<SkillBaseline>,
    /// The fingerprint of the skill's receipt entry, or why it could not be computed.
    pub fingerprint: Result<String, String>,
}

/// The facts the program gathered about a listed skill whose scope is global or project.
#[derive(Debug)]
pub struct SkillFacts {
    /// The resolved directory of the skill.
    pub canonical_path: String,
    /// Where its receipt is.
    pub receipt_path: String,
    /// The receipt, as read.
    pub receipt: ReceiptRead,
    /// The resolved directory of the scope (home or project root), or why it is unknown.
    pub scope_base: Result<String, String>,
    /// The content revision of the skill's directory, or why it could not be computed.
    pub revision: Result<String, String>,
    /// Whether git shows local changes to a project skill or its receipt.
    pub git_overlap: bool,
    /// The stored baseline of a global skill, where a history database is open.
    pub baseline: Option<BaselineLookup>,
}

/// What preparing a listed skill gives: a candidate to check, with whether its baseline is to
/// be recorded, or a report that ends its handling.
#[derive(Debug)]
pub enum Prepared {
    Candidate { candidate: Candidate, record_baseline: bool },
    Report(InventoryReport),
}

/// The current version a report of an unmanaged skill shows: its content revision, where it
/// could be computed.
pub open spec fn revision_version(revision: Result<String, String>) -> Option<Seq<char>> {
    match revision {
        Ok(r) => if all_space(r@) {
            None
        } else {
            Some(r@)
        },
        Err(_) => None,
    }
}

/// The outcome of preparing a skill, as plain values.
pub enum PreparedView {
    /// Handling the skill fails with this message.
    Fails(Seq<char>),
    /// The skill is reported as unmanaged with this detail.
    Unmanaged(Seq<char>),
    /// The skill is a candidate with this origin and local state.
    Candidate {
        source: Seq<char>,
        locator: Option<Seq<char>>,
        current: Seq<char>,
        modified: bool,
        detail: Option<Seq<char>>,
        record_baseline: bool,
    },
}

/// What preparing a skill in a global or project scope gives, step by step: a missing receipt
/// leaves it unmanaged; an unreadable one, or one of another version, fails it; the receipt's
/// verdict may leave it unmanaged; it must lie within its scope and its revision must be
/// known; a project skill is modified where its hash or git says so, a global one where its
/// baseline says so.
pub open spec fn prepared_view(
    scope: ResourceScope,
    facts: SkillFacts,
    home: Option<Seq<char>>,
) -> PreparedView {
    match facts.receipt {
        ReceiptRead::Missing => PreparedView::Unmanaged(
            "manager receipt is missing at "@ + redacted(facts.receipt_path@, home),
        ),
        ReceiptRead::Invalid => PreparedView::Fails(
            "invalid manager receipt "@ + redacted(facts.receipt_path@, home),
        ),
        ReceiptRead::Read(r) => match receipt_verdict(scope, r, home) {
            VerdictView::Refused(m) => PreparedView::Fails(m),
            VerdictView::Unmanaged(d) => PreparedView::Unmanaged(d),
            VerdictView::Accepted { source, locator } => match facts.scope_base {
                Err(m) => PreparedView::Fails(m@),
                Ok(base) => if !path_under(facts.canonical_path@, base@) {
                    PreparedView::Fails(
                        "Skill path is outside its declared "@ + scope_name(scope) + " scope"@,
                    )
                } else {
                    match facts.revision {
                        Err(m) => PreparedView::Fails(m@),
                        Ok(rev) => if all_space(rev@) {
                            PreparedView::Fails("tool version cannot be empty"@)
                        } else if scope == ResourceScope::Project {
                            let modified = project_modified(r.entry.unwrap(), rev@, facts.git_overlap);
                            PreparedView::Candidate {
                                source,
                                locator,
                                current: rev@,
                                modified,
                                detail: if modified {
                                    Some(
                                        "project Skill or its skills-lock.json has overlapping local changes"@,
                                    )
                                } else {
                                    None
                                },
                                record_baseline: false,
                            }
                        } else {
                            match facts.baseline {
                                None => PreparedView::Candidate {
                                    source,
                                    locator,
                                    current: rev@,
                                    modified: false,
                                    detail: None,
                                    record_baseline: false,
                                },
                                Some(b) => match b.fingerprint {
                                    Err(m) => PreparedView::Fails(m@),
                                    Ok(f) => {
                                        let same = b.stored matches Some(s)
                                            && s.receipt_fingerprint@ == f@;
                                        let changed = same && b.stored.unwrap().content_revision@
                                            != rev@;
                                        PreparedView::Candidate {
                                            source,
                                            locator,
                                            current: rev@,
                                            modified: changed,
                                            detail: if changed {
                                                Some(
                                                    "global Skill content changed without a receipt change"@,
                                                )
                                            } else {
                                                None
                                            },
                                            record_baseline: !same,
                                        }
                                    },
                                },
                            }
                        },
                    }
                },
            },
        },
    }
}

/// Whether `p` is what preparing `name` in `scope` with `facts` gives, as `v` describes it.
pub open spec fn prepared_matches(
    p: Prepared,
    v: PreparedView,
    name: Seq<char>,
    scope: ResourceScope,
    facts: SkillFacts,
) -> bool {
    match (p, v) {
        (Prepared::Report(rep), PreparedView::Unmanaged(d)) => {
            &&& rep.id@ == skill_id_text(scope, name)
            &&& rep.name@ == name
            &&& rep.status == ToolStatus::Unmanaged
            &&& opt_text(rep.detail) == Some(d)
            &&& rep.scope == scope
            &&& match rep.current {
                Some(c) => revision_version(facts.revision) == Some(c.raw_view())
                    && c.normalized_view() == Some(c.raw_view()),
                None => revision_version(facts.revision) is None,
            }
            &&& rep.kind@ == "agent-skill"@
            &&& rep.latest is None && rep.action is None && rep.update_manager is None
            &&& rep.installation_source is None && rep.source_locator is None
            &&& rep.changes@.len() == 0
            &&& rep.runtime == InventoryRuntime::default_view()
        },
        (
            Prepared::Candidate { candidate: c, record_baseline },
            PreparedView::Candidate { source, locator, current, modified, detail, record_baseline: rb },
        ) => {
            &&& c.name@ == name
            &&& c.scope == scope
            &&& c.canonical_path == facts.canonical_path
            &&& c.receipt_path == facts.receipt_path
            &&& c.source@ == source
            &&& opt_text(c.source_locator) == locator
            &&& c.current.raw_view() == current && c.current.normalized_view() == Some(current)
            &&& c.locally_modified == modified
            &&& opt_text(c.local_detail) == detail
            &&& record_baseline == rb
        },
        _ => false,
    }
}

fn revision_current(revision: &Result<String, String>) -> (r: Option<ToolVersion>)
    ensures
        match r {
            Some(c) => revision_version(*revision) == Some(c.raw_view()) && c.normalized_view()
                == Some(c.raw_view()),
            None => revision_version(*revision) is None,
        },
{
    match revision {
        Ok(rev) => match ToolVersion::exact(rev.as_str()) {
            Ok(v) => Some(v),
            Err(_) => None,
        },
        Err(_) => None,
    }
}

/// Prepares a listed skill in a global or project scope from the facts gathered about it:
/// either a candidate to check or the report that ends its handling. The project root is that
/// of the candidate's project.
pub fn prepare_candidate(
    name: String,
    scope: ResourceScope,
    project_root: Option<String>,
    facts: SkillFacts,
    home: Option<&str>,
) -> (r: Result<Prepared, String>)
    requires
        scope != ResourceScope::System,
    ensures
        match (r, prepared_view(scope, facts, opt_str_view(home))) {
            (Err(m), PreparedView::Fails(t)) => m@ == t,
            (Ok(p), v) => prepared_matches(p, v, name@, scope, facts) && (p matches Prepared::Candidate { candidate: c, .. } ==> c.project_root == project_root),
            _ => false,
        },
{
    let SkillFacts { canonical_path, receipt_path, receipt, scope_base, revision, git_overlap, baseline } = facts;
    let read = match receipt {
        ReceiptRead::Missing => {
            let current = revision_current(&revision);
            let detail = missing_receipt_detail(receipt_path.as_str(), home);
            return Ok(Prepared::Report(unmanaged_report(name, scope, current, detail)));
        },
        ReceiptRead::Invalid => {
            return Err(invalid_receipt_message(receipt_path.as_str(), home));
        },
        ReceiptRead::Read(r) => r,
    };
    let (source, locator) = match check_receipt(scope, &read, home) {
        ReceiptVerdict::Refused(m) => {
            return Err(m);
        },
        ReceiptVerdict::Unmanaged(d) => {
            let current = revision_current(&revision);
            return Ok(Prepared::Report(unmanaged_report(name, scope, current, d)));
        },
        ReceiptVerdict::Accepted { source, locator } => (source, locator),
    };
    let base = match scope_base {
        Ok(b) => b,
        Err(m) => {
            return Err(m);
        },
    };
    match ensure_safe_location(scope, canonical_path.as_str(), base.as_str()) {
        Ok(()) => {},
        Err(m) => {
            return Err(m);
        },
    }
    let rev = match revision {
        Ok(rev) => rev,
        Err(m) => {
            return Err(m);
        },
    };
    let current = match ToolVersion::exact(rev.as_str()) {
        Ok(v) => v,
        Err(e) => {
            return Err(e.message());
        },
    };
    let (state, record) = if scope == ResourceScope::Project {
        let entry = match &read.entry {
            Some(e) => e,
            None => {
                return Err(owned("Skill is listable but absent from the manager receipt"));
            },
        };
        (project_state(entry, rev.as_str(), git_overlap), false)
    } else {
        match baseline {
            None => (LocalState { modified: false, detail: None }, false),
            Some(lookup) => {
                let fingerprint = match lookup.fingerprint {
                    Ok(f) => f,
                    Err(m) => {
                        return Err(m);
                    },
                };
                let decided = match &lookup.stored {
                    Some(b) => global_baseline_state(Some(b), fingerprint.as_str(), rev.as_str()),
                    None => global_baseline_state(None, fingerprint.as_str(), rev.as_str()),
                };
                (decided.state, decided.record)
            },
        }
    };
    Ok(
        Prepared::Candidate {
            candidate: Candidate {
                name,
                scope,
                canonical_path,
                receipt_path,
                project_root,
                source,
                source_locator: locator,
                current,
                locally_modified: state.modified,
                local_detail: state.detail,
            },
            record_baseline: record,
        },
    )
}

} // verus!
