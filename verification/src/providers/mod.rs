//! Tool adapters, install managers, claims and verification.
use crate::command::{owned, CommandSpec, CommandView};
use crate::copy::Duplicate;
use crate::text::{all_space, chars_of, str_all_space};
use vstd::prelude::*;

pub mod adapters;
pub mod alternatives;
pub mod check;
pub mod claims;
pub mod extension;
pub mod inventory;
pub mod latest;
pub mod managers;
pub mod snapshot;
pub mod verification;

pub use adapters::{tool_registry, BuiltinToolAdapter};
pub use extension::{InstallManager, ToolAdapter};
pub use check::{recovery_hint, MAX_INDEPENDENT_DETECTION_CONCURRENCY};
pub use managers::{install_manager_registry, BuiltinInstallManager, ManagerEvidence, ManagerSnapshot};
pub use claims::{
    resolve_claims, ClaimConfidence, ClaimEvidence, ManagerClaims, ResolvedClaims, SourceClaim,
    UpdaterClaim,
};
pub use verification::{
    compare_versions, verify_versions, Comparison, SemVer, SemVerReq, VerifyError, VersionOrder,
};

verus! {

/// The characters a provider identifier may use: lower-case ASCII letters, digits, `-`, `_`,
/// `.` and `:`.
pub open spec fn is_id_char(c: char) -> bool {
    ('a' <= c && c <= 'z') || ('0' <= c && c <= '9') || c == '-' || c == '_' || c == '.' || c
        == ':'
}

/// A valid provider identifier: not empty, and only identifier characters.
pub open spec fn valid_id(s: Seq<char>) -> bool {
    s.len() > 0 && forall|i: int| 0 <= i < s.len() ==> is_id_char(s[i])
}

fn check_id(value: &str) -> (r: bool)
    ensures
        r == valid_id(value@),
{
    let chars = chars_of(value);
    if chars.len() == 0 {
        return false;
    }
    let mut i: usize = 0;
    while i < chars.len()
        invariant
            chars@ == value@,
            i <= chars@.len(),
            forall|k: int| 0 <= k < i ==> is_id_char(chars@[k]),
        decreases chars.len() - i,
    {
        let c = chars[i];
        if !(('a' <= c && c <= 'z') || ('0' <= c && c <= '9') || c == '-' || c == '_' || c == '.'
            || c == ':') {
            return false;
        }
        i = i + 1;
    }
    true
}

/// Why a provider value was refused.
#[derive(Debug, Clone, PartialEq, Eq)]
pub enum ProviderError {
    /// An identifier that is empty or holds a character outside the identifier set.
    InvalidId(String),
    /// A tool version whose raw text is empty or white space.
    EmptyVersion,
    /// A tool version whose normalized text is empty or white space.
    EmptyNormalizedVersion,
}

impl ProviderError {
    /// The message shown for this error.
    pub fn message(&self) -> (r: String)
        ensures
            r@ == (match self {
                ProviderError::InvalidId(v) => "invalid provider id `"@ + v@ + "`"@,
                ProviderError::EmptyVersion => "tool version cannot be empty"@,
                ProviderError::EmptyNormalizedVersion => "normalized tool version cannot be empty"@,
            }),
    {
        match self {
            ProviderError::InvalidId(v) => crate::text::concat3("invalid provider id `", v.as_str(), "`"),
            ProviderError::EmptyVersion => owned("tool version cannot be empty"),
            ProviderError::EmptyNormalizedVersion => owned("normalized tool version cannot be empty"),
        }
    }
}

/// Identifier of a tool adapter.
#[derive(Debug, Clone, PartialEq, Eq, Hash)]
pub struct ToolId(String);

/// Identifier of an installation source.
#[derive(Debug, Clone, PartialEq, Eq, Hash)]
pub struct SourceId(String);

/// Identifier of an install manager.
#[derive(Debug, Clone, PartialEq, Eq, Hash)]
pub struct ManagerId(String);

impl View for ToolId {
    type V = Seq<char>;

    closed spec fn view(&self) -> Seq<char> {
        self.0@
    }
}

impl View for SourceId {
    type V = Seq<char>;

    closed spec fn view(&self) -> Seq<char> {
        self.0@
    }
}

impl View for ManagerId {
    type V = Seq<char>;

    closed spec fn view(&self) -> Seq<char> {
        self.0@
    }
}

impl ToolId {
    /// The identifier, refused unless it is a valid provider identifier.
    pub fn new(value: &str) -> (r: Result<ToolId, ProviderError>)
        ensures
            valid_id(value@) <==> r is Ok,
            r matches Ok(id) ==> id@ == value@,
            r matches Err(e) ==> e matches ProviderError::InvalidId(v) && v@ == value@,
    {
        if check_id(value) {
            Ok(ToolId(owned(value)))
        } else {
            Err(ProviderError::InvalidId(owned(value)))
        }
    }

    /// The identifier text.
    pub fn as_str(&self) -> (r: &str)
        ensures
            r@ == self@,
    {
        self.0.as_str()
    }

    /// An owned copy of the identifier text.
    pub fn to_string(&self) -> (r: String)
        ensures
            r@ == self@,
    {
        self.0.clone()
    }

    /// A copy of this identifier.
    pub fn duplicate(&self) -> (r: ToolId)
        ensures
            r == *self,
    {
        ToolId(self.0.clone())
    }
}

impl SourceId {
    /// The identifier, refused unless it is a valid provider identifier.
    pub fn new(value: &str) -> (r: Result<SourceId, ProviderError>)
        ensures
            valid_id(value@) <==> r is Ok,
            r matches Ok(id) ==> id@ == value@,
            r matches Err(e) ==> e matches ProviderError::InvalidId(v) && v@ == value@,
    {
        if check_id(value) {
            Ok(SourceId(owned(value)))
        } else {
            Err(ProviderError::InvalidId(owned(value)))
        }
    }

    /// The identifier text.
    pub fn as_str(&self) -> (r: &str)
        ensures
            r@ == self@,
    {
        self.0.as_str()
    }

    /// An owned copy of the identifier text.
    pub fn to_string(&self) -> (r: String)
        ensures
            r@ == self@,
    {
        self.0.clone()
    }

    /// A copy of this identifier.
    pub fn duplicate(&self) -> (r: SourceId)
        ensures
            r == *self,
    {
        SourceId(self.0.clone())
    }
}

impl ManagerId {
    /// The identifier, refused unless it is a valid provider identifier.
    pub fn new(value: &str) -> (r: Result<ManagerId, ProviderError>)
        ensures
            valid_id(value@) <==> r is Ok,
            r matches Ok(id) ==> id@ == value@,
            r matches Err(e) ==> e matches ProviderError::InvalidId(v) && v@ == value@,
    {
        if check_id(value) {
            Ok(ManagerId(owned(value)))
        } else {
            Err(ProviderError::InvalidId(owned(value)))
        }
    }

    /// The identifier text.
    pub fn as_str(&self) -> (r: &str)
        ensures
            r@ == self@,
    {
        self.0.as_str()
    }

    /// An owned copy of the identifier text.
    pub fn to_string(&self) -> (r: String)
        ensures
            r@ == self@,
    {
        self.0.clone()
    }

    /// A copy of this identifier.
    pub fn duplicate(&self) -> (r: ManagerId)
        ensures
            r == *self,
    {
        ManagerId(self.0.clone())
    }

    /// Whether two manager identifiers are the same.
    pub fn same_as(&self, other: &ManagerId) -> (r: bool)
        ensures
            r == (self@ == other@),
    {
        self.0 == other.0
    }
}

/// One observation of a tool version: the text as printed and, where known, its normalized
/// form. Neither is empty or white space.
#[derive(Debug, Clone, PartialEq, Eq)]
pub struct ToolVersion {
    raw: String,
    normalized: Option<String>,
}

impl ToolVersion {
    /// The raw text.
    pub closed spec fn raw_view(&self) -> Seq<char> {
        self.raw@
    }

    /// The normalized text, where there is one.
    pub closed spec fn normalized_view(&self) -> Option<Seq<char>> {
        match self.normalized {
            Some(n) => Some(n@),
            None => None,
        }
    }

    /// The text shown for this version: the normalized form where there is one, else the raw
    /// text.
    pub open spec fn display_view(&self) -> Seq<char> {
        match self.normalized_view() {
            Some(n) => n,
            None => self.raw_view(),
        }
    }

    /// A version observation, refused when the raw text or the normalized text is empty or
    /// white space.
    pub fn new(raw: &str, normalized: Option<String>) -> (r: Result<ToolVersion, ProviderError>)
        ensures
            all_space(raw@) ==> r == Err::<ToolVersion, ProviderError>(ProviderError::EmptyVersion),
            !all_space(raw@) && (normalized matches Some(n) && all_space(n@)) ==> r == Err::<
                ToolVersion,
                ProviderError,
            >(ProviderError::EmptyNormalizedVersion),
            !all_space(raw@) && !(normalized matches Some(n) && all_space(n@)) ==> (r matches Ok(v)
                && v.raw_view() == raw@ && v.normalized_view() == (match normalized {
                Some(n) => Some(n@),
                None => None,
            })),
    {
        if str_all_space(raw) {
            return Err(ProviderError::EmptyVersion);
        }
        match &normalized {
            Some(n) => {
                if str_all_space(n.as_str()) {
                    return Err(ProviderError::EmptyNormalizedVersion);
                }
            },
            None => {},
        }
        Ok(ToolVersion { raw: owned(raw), normalized })
    }

    /// The version whose raw and normalized texts are both `text`; refused when `text` is empty
    /// or white space.
    pub fn exact(text: &str) -> (r: Result<ToolVersion, ProviderError>)
        ensures
            all_space(text@) <==> r is Err,
            r matches Err(e) ==> e == ProviderError::EmptyVersion,
            r matches Ok(v) ==> v.raw_view() == text@ && v.normalized_view() == Some(text@),
    {
        ToolVersion::new(text, Some(owned(text)))
    }

    /// The raw text.
    pub fn raw(&self) -> (r: &str)
        ensures
            r@ == self.raw_view(),
    {
        self.raw.as_str()
    }

    /// The normalized text, where there is one.
    pub fn normalized(&self) -> (r: Option<&str>)
        ensures
            r matches Some(n) ==> self.normalized_view() == Some(n@),
            r is None ==> self.normalized_view() is None,
    {
        match &self.normalized {
            Some(n) => Some(n.as_str()),
            None => None,
        }
    }

    /// The text shown for this version: the normalized form where there is one, else the raw
    /// text.
    pub fn display(&self) -> (r: &str)
        ensures
            r@ == self.display_view(),
    {
        match &self.normalized {
            Some(n) => n.as_str(),
            None => self.raw.as_str(),
        }
    }

    /// Whether two versions have the same raw and normalized texts.
    pub fn same_as(&self, other: &ToolVersion) -> (r: bool)
        ensures
            r == (self.raw_view() == other.raw_view() && self.normalized_view()
                == other.normalized_view()),
    {
        crate::text::str_eq(self.raw.as_str(), other.raw.as_str()) && match (
            &self.normalized,
            &other.normalized,
        ) {
            (Some(a), Some(b)) => crate::text::str_eq(a.as_str(), b.as_str()),
            (None, None) => true,
            _ => false,
        }
    }

    /// A copy of this version.
    pub fn duplicate(&self) -> (r: ToolVersion)
        ensures
            r == *self,
    {
        ToolVersion {
            raw: self.raw.clone(),
            normalized: match &self.normalized {
                Some(n) => Some(n.clone()),
                None => None,
            },
        }
    }
}

/// Where the stages of an operation are reported; by default nowhere.
pub trait ProgressSink {
    /// A stage with this label started.
    fn started(&self, label: &str) {
    }

    /// A stage with this label finished.
    fn finished(&self, label: &str) {
    }
}

/// Whether a manager snapshot may use cached metadata or refreshes it first.
#[derive(Debug, Clone, Copy, PartialEq, Eq, Structural)]
pub enum RefreshPolicy {
    Cached,
    Refresh,
}

/// What a post-upgrade verification requires of the observed version.
#[derive(Debug, Clone, Copy, PartialEq, Eq, Structural)]
pub enum TargetMode {
    /// The result must equal the confirmed expected version.
    Exact,
    /// The result must be newer than before and no lower than the confirmed candidate.
    Floating,
    /// The observed revision must change.
    Rolling,
}

/// The update an install manager proposes for one installation.
#[derive(Debug, PartialEq, Eq)]
pub struct UpgradeAction {
    pub manager: ManagerId,
    pub command: CommandSpec,
    pub expected_version: ToolVersion,
    pub target_mode: TargetMode,
}

/// A tool found on the logical `PATH`: its identifier, active executable and version.
#[derive(Debug, PartialEq, Eq)]
pub struct DetectedTool {
    pub id: ToolId,
    pub executable: String,
    pub version: ToolVersion,
}

impl DeepView for ToolId {
    type V = ToolId;

    open spec fn deep_view(&self) -> ToolId {
        *self
    }
}

impl Duplicate for ToolId {
    fn duplicate(&self) -> (r: ToolId) {
        self.duplicate()
    }
}

impl DeepView for SourceId {
    type V = SourceId;

    open spec fn deep_view(&self) -> SourceId {
        *self
    }
}

impl Duplicate for SourceId {
    fn duplicate(&self) -> (r: SourceId) {
        self.duplicate()
    }
}

impl DeepView for ManagerId {
    type V = ManagerId;

    open spec fn deep_view(&self) -> ManagerId {
        *self
    }
}

impl Duplicate for ManagerId {
    fn duplicate(&self) -> (r: ManagerId) {
        self.duplicate()
    }
}

impl DeepView for ToolVersion {
    type V = ToolVersion;

    open spec fn deep_view(&self) -> ToolVersion {
        *self
    }
}

impl Duplicate for ToolVersion {
    fn duplicate(&self) -> (r: ToolVersion) {
        self.duplicate()
    }
}

impl DeepView for TargetMode {
    type V = TargetMode;

    open spec fn deep_view(&self) -> TargetMode {
        *self
    }
}

/// An upgrade action as plain values.
pub struct ActionView {
    pub manager: ManagerId,
    pub command: CommandView,
    pub expected_version: ToolVersion,
    pub target_mode: TargetMode,
}

impl DeepView for UpgradeAction {
    type V = ActionView;

    open spec fn deep_view(&self) -> ActionView {
        ActionView {
            manager: self.manager,
            command: self.command.deep_view(),
            expected_version: self.expected_version,
            target_mode: self.target_mode,
        }
    }
}

impl Duplicate for UpgradeAction {
    fn duplicate(&self) -> (r: UpgradeAction) {
        UpgradeAction {
            manager: self.manager.duplicate(),
            command: self.command.duplicate(),
            expected_version: self.expected_version.duplicate(),
            target_mode: self.target_mode,
        }
    }
}

} // verus!
