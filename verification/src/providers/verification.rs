//! Version comparison and post-upgrade verification.
use super::{TargetMode, ToolVersion};
use crate::command::owned;
use crate::text::chars_of;
use vstd::prelude::*;

verus! {

/// The order of two versions.
#[derive(Debug, Clone, Copy, PartialEq, Eq, Structural)]
pub enum VersionOrder {
    Less,
    Equal,
    Greater,
}

#[verifier::external_type_specification]
#[verifier::external_body]
pub struct ExSemverVersion(semver::Version);

/// Whether `semver` accepts the text as a semantic version.
pub uninterp spec fn semver_accepts(text: Seq<char>) -> bool;

/// The precedence order `semver` gives two accepted version texts: -1, 0 or 1.
pub uninterp spec fn semver_order(a: Seq<char>, b: Seq<char>) -> int;

/// The message `semver` gives when it refuses the text as a semantic version.
pub uninterp spec fn semver_error_text(text: Seq<char>) -> Seq<char>;

/// `semver::Version::parse`, with a refusal rendered by `semver::Error`'s `Display`. It claims
/// that parsing succeeds exactly on the texts that `semver_accepts` names, and that the message
/// of a refusal is a function of the text that was parsed.
#[verifier::external_body]
fn parse_semver(text: &str) -> (r: Result<semver::Version, String>)
    ensures
        r is Ok <==> semver_accepts(text@),
        r matches Err(m) ==> m@ == semver_error_text(text@),
{
    match semver::Version::parse(text) {
        Ok(version) => Ok(version),
        Err(error) => Err(error.to_string()),
    }
}

/// A parsed semantic version together with the text it was parsed from.
pub struct SemVer {
    text: Ghost<Seq<char>>,
    version: semver::Version,
}

impl View for SemVer {
    type V = Seq<char>;

    closed spec fn view(&self) -> Seq<char> {
        self.text@
    }
}

/// `Ord::cmp` on two versions parsed by `semver`. It claims that the result is the precedence
/// order of the texts they were parsed from, and that a text is equal to itself.
#[verifier::external_body]
fn compare_semver(a: &SemVer, b: &SemVer) -> (r: VersionOrder)
    ensures
        r == VersionOrder::Less <==> semver_order(a@, b@) == -1,
        r == VersionOrder::Equal <==> semver_order(a@, b@) == 0,
        r == VersionOrder::Greater <==> semver_order(a@, b@) == 1,
        a@ == b@ ==> r == VersionOrder::Equal,
{
    match a.version.cmp(&b.version) {
        std::cmp::Ordering::Less => VersionOrder::Less,
        std::cmp::Ordering::Equal => VersionOrder::Equal,
        std::cmp::Ordering::Greater => VersionOrder::Greater,
    }
}

impl SemVer {
    /// Parses a semantic version; the error carries `semver`'s message.
    pub fn parse(text: &str) -> (r: Result<SemVer, String>)
        ensures
            r is Ok <==> semver_accepts(text@),
            r matches Ok(v) ==> v@ == text@,
            r matches Err(m) ==> m@ == semver_error_text(text@),
    {
        match parse_semver(text) {
            Ok(version) => Ok(SemVer { text: Ghost(text@), version }),
            Err(message) => Err(message),
        }
    }

    /// The precedence order of two parsed versions.
    pub fn order(&self, other: &SemVer) -> (r: VersionOrder)
        ensures
            r == order_of(semver_order(self@, other@)),
    {
        compare_semver(self, other)
    }
}

/// The text `semver` shows for a version parsed from the given text.
pub uninterp spec fn semver_shown(text: Seq<char>) -> Seq<char>;

/// `semver::Version`'s `Display`. It claims that what is shown is a function of the text the
/// version was parsed from.
#[verifier::external_body]
fn show_semver(v: &SemVer) -> (r: String)
    ensures
        r@ == semver_shown(v@),
{
    v.version.to_string()
}

impl SemVer {
    /// The version as `semver` shows it.
    pub fn display(&self) -> (r: String)
        ensures
            r@ == semver_shown(self@),
    {
        show_semver(self)
    }
}

#[verifier::external_type_specification]
#[verifier::external_body]
pub struct ExSemverVersionReq(semver::VersionReq);

/// Whether `semver` accepts the text as a version requirement.
pub uninterp spec fn semver_req_accepts(text: Seq<char>) -> bool;

/// Whether the requirement parsed from the first text matches the version parsed from the
/// second, by `semver`'s rules.
pub uninterp spec fn semver_req_matches(requirement: Seq<char>, version: Seq<char>) -> bool;

/// The message `semver` gives when it refuses the text as a version requirement.
pub uninterp spec fn semver_req_error_text(text: Seq<char>) -> Seq<char>;

/// `semver::VersionReq::parse`, with a refusal rendered by `semver::Error`'s `Display`. It
/// claims that parsing succeeds exactly on the texts that `semver_req_accepts` names, and that
/// the message of a refusal is a function of the text that was parsed.
#[verifier::external_body]
fn parse_semver_req(text: &str) -> (r: Result<semver::VersionReq, String>)
    ensures
        r is Ok <==> semver_req_accepts(text@),
        r matches Err(m) ==> m@ == semver_req_error_text(text@),
{
    match semver::VersionReq::parse(text) {
        Ok(requirement) => Ok(requirement),
        Err(error) => Err(error.to_string()),
    }
}

/// A parsed version requirement together with the text it was parsed from.
pub struct SemVerReq {
    text: Ghost<Seq<char>>,
    requirement: semver::VersionReq,
}

impl View for SemVerReq {
    type V = Seq<char>;

    closed spec fn view(&self) -> Seq<char> {
        self.text@
    }
}

/// `semver::VersionReq::matches`. It claims that the answer is `semver_req_matches` of the
/// texts the requirement and the version were parsed from.
#[verifier::external_body]
fn semver_req_matches_version(req: &SemVerReq, v: &SemVer) -> (r: bool)
    ensures
        r == semver_req_matches(req@, v@),
{
    req.requirement.matches(&v.version)
}

impl SemVerReq {
    /// Parses a version requirement; the error carries `semver`'s message.
    pub fn parse(text: &str) -> (r: Result<SemVerReq, String>)
        ensures
            r is Ok <==> semver_req_accepts(text@),
            r matches Ok(q) ==> q@ == text@,
            r matches Err(m) ==> m@ == semver_req_error_text(text@),
    {
        match parse_semver_req(text) {
            Ok(requirement) => Ok(SemVerReq { text: Ghost(text@), requirement }),
            Err(message) => Err(message),
        }
    }

    /// Whether the version meets this requirement.
    pub fn matches(&self, v: &SemVer) -> (r: bool)
        ensures
            r == semver_req_matches(self@, v@),
    {
        semver_req_matches_version(self, v)
    }
}

/// The order named by -1, 0 or 1.
pub open spec fn order_of(n: int) -> VersionOrder {
    if n < 0 {
        VersionOrder::Less
    } else if n == 0 {
        VersionOrder::Equal
    } else {
        VersionOrder::Greater
    }
}

/// How two versions are compared.
#[derive(Debug, Clone, Copy, PartialEq, Eq, Structural)]
pub enum Comparison {
    /// By semantic-version precedence of the shown texts.
    Semantic,
    /// By the shown texts, character by character.
    Textual,
}

/// Lexicographic order of two character sequences.
pub open spec fn text_order(a: Seq<char>, b: Seq<char>) -> VersionOrder
    decreases a.len(),
{
    if a.len() == 0 && b.len() == 0 {
        VersionOrder::Equal
    } else if a.len() == 0 {
        VersionOrder::Less
    } else if b.len() == 0 {
        VersionOrder::Greater
    } else if a[0] < b[0] {
        VersionOrder::Less
    } else if a[0] > b[0] {
        VersionOrder::Greater
    } else {
        text_order(a.drop_first(), b.drop_first())
    }
}

/// The outcome of comparing two shown version texts.
pub open spec fn compared(how: Comparison, a: Seq<char>, b: Seq<char>) -> Result<
    VersionOrder,
    Seq<char>,
> {
    match how {
        Comparison::Textual => Ok(text_order(a, b)),
        Comparison::Semantic => if !semver_accepts(a) {
            Err(semver_error_text(a))
        } else if !semver_accepts(b) {
            Err(semver_error_text(b))
        } else {
            Ok(order_of(semver_order(a, b)))
        },
    }
}

proof fn lemma_text_order_step(a: Seq<char>, b: Seq<char>, i: int)
    requires
        0 <= i <= a.len(),
        i <= b.len(),
        forall|k: int| 0 <= k < i ==> a[k] == b[k],
    ensures
        text_order(a, b) == text_order(a.subrange(i, a.len() as int), b.subrange(i, b.len() as int)),
    decreases i,
{
    if i > 0 {
        lemma_text_order_step(a.drop_first(), b.drop_first(), i - 1);
        assert(a.drop_first().subrange(i - 1, a.len() - 1) =~= a.subrange(i, a.len() as int));
        assert(b.drop_first().subrange(i - 1, b.len() - 1) =~= b.subrange(i, b.len() as int));
    } else {
        assert(a.subrange(0, a.len() as int) =~= a);
        assert(b.subrange(0, b.len() as int) =~= b);
    }
}

/// Compares two strings character by character.
pub fn compare_text(a: &str, b: &str) -> (r: VersionOrder)
    ensures
        r == text_order(a@, b@),
{
    let x = chars_of(a);
    let y = chars_of(b);
    compare_chars(&x, &y)
}

/// Compares two character sequences character by character.
pub fn compare_chars(x: &Vec<char>, y: &Vec<char>) -> (r: VersionOrder)
    ensures
        r == text_order(x@, y@),
{
    let mut i: usize = 0;
    while i < x.len() && i < y.len()
        invariant
            i <= x@.len(),
            i <= y@.len(),
            forall|k: int| 0 <= k < i ==> x@[k] == y@[k],
        decreases x.len() - i,
    {
        if x[i] < y[i] {
            proof {
                lemma_text_order_step(x@, y@, i as int);
            }
            return VersionOrder::Less;
        }
        if x[i] > y[i] {
            proof {
                lemma_text_order_step(x@, y@, i as int);
            }
            return VersionOrder::Greater;
        }
        i = i + 1;
    }
    proof {
        lemma_text_order_step(x@, y@, i as int);
    }
    if x.len() == y.len() {
        VersionOrder::Equal
    } else if i == x.len() {
        VersionOrder::Less
    } else {
        VersionOrder::Greater
    }
}

/// Compares the shown texts of two versions.
pub fn compare_versions(how: Comparison, a: &ToolVersion, b: &ToolVersion) -> (r: Result<
    VersionOrder,
    String,
>)
    ensures
        match (r, compared(how, a.display_view(), b.display_view())) {
            (Ok(x), Ok(y)) => x == y,
            (Err(m), Err(n)) => m@ == n,
            _ => false,
        },
{
    match how {
        Comparison::Textual => Ok(compare_text(a.display(), b.display())),
        Comparison::Semantic => {
            let left = SemVer::parse(a.display())?;
            let right = SemVer::parse(b.display())?;
            Ok(left.order(&right))
        },
    }
}

/// Why a post-upgrade verification failed.
#[derive(Debug, PartialEq, Eq)]
pub enum VerifyError {
    /// The versions could not be compared; the comparison's message.
    Compare(String),
    /// An exact target: the expected and actual shown versions differ.
    ExactMismatch { expected: String, actual: String },
    /// A floating target: the actual version is not newer than before, or below the candidate.
    FloatingNotNewer { expected: String, actual: String },
    /// A rolling target: the observed revision did not change.
    RollingUnchanged { actual: String },
}

/// The message of a verification error.
pub open spec fn verify_error_text(e: VerifyErrorView) -> Seq<char> {
    match e {
        VerifyErrorView::Compare(m) => m,
        VerifyErrorView::ExactMismatch(expected, actual) => "exact verification expected "@
            + expected + ", got "@ + actual,
        VerifyErrorView::FloatingNotNewer(expected, actual) =>
            "floating verification requires a newer version at least "@ + expected + ", got "@
            + actual,
        VerifyErrorView::RollingUnchanged(actual) =>
            "rolling verification requires a changed revision, got "@ + actual,
    }
}

impl VerifyError {
    /// The message shown for this error.
    pub fn message(&self) -> (r: String)
        ensures
            r@ == verify_error_text(self@),
    {
        match self {
            VerifyError::Compare(m) => m.clone(),
            VerifyError::ExactMismatch { expected, actual } => {
                let head = crate::text::concat3("exact verification expected ", expected.as_str(), ", got ");
                crate::text::concat_str(head.as_str(), actual.as_str())
            },
            VerifyError::FloatingNotNewer { expected, actual } => {
                let head = crate::text::concat3(
                    "floating verification requires a newer version at least ",
                    expected.as_str(),
                    ", got ",
                );
                crate::text::concat_str(head.as_str(), actual.as_str())
            },
            VerifyError::RollingUnchanged { actual } => crate::text::concat_str(
                "rolling verification requires a changed revision, got ",
                actual.as_str(),
            ),
        }
    }
}

/// What verification owes for each outcome of the comparisons it may make: `Ok(())` exactly
/// when the mode's requirement holds, else the error it reports.
pub open spec fn verification_outcome(
    mode: TargetMode,
    old: Seq<char>,
    expected: Seq<char>,
    actual: Seq<char>,
    how: Comparison,
) -> Result<(), VerifyErrorView> {
    match mode {
        TargetMode::Exact => match compared(how, actual, expected) {
            Err(m) => Err(VerifyErrorView::Compare(m)),
            Ok(o) => if o == VersionOrder::Equal {
                Ok(())
            } else {
                Err(VerifyErrorView::ExactMismatch(expected, actual))
            },
        },
        TargetMode::Floating => match compared(how, actual, old) {
            Err(m) => Err(VerifyErrorView::Compare(m)),
            Ok(o) => if o != VersionOrder::Greater {
                Err(VerifyErrorView::FloatingNotNewer(expected, actual))
            } else {
                match compared(how, actual, expected) {
                    Err(m) => Err(VerifyErrorView::Compare(m)),
                    Ok(p) => if p == VersionOrder::Less {
                        Err(VerifyErrorView::FloatingNotNewer(expected, actual))
                    } else {
                        Ok(())
                    },
                }
            },
        },
        TargetMode::Rolling => match compared(how, actual, old) {
            Err(m) => Err(VerifyErrorView::Compare(m)),
            Ok(o) => if o == VersionOrder::Equal {
                Err(VerifyErrorView::RollingUnchanged(actual))
            } else {
                Ok(())
            },
        },
    }
}

/// A verification error as plain values.
pub enum VerifyErrorView {
    Compare(Seq<char>),
    ExactMismatch(Seq<char>, Seq<char>),
    FloatingNotNewer(Seq<char>, Seq<char>),
    RollingUnchanged(Seq<char>),
}

impl View for VerifyError {
    type V = VerifyErrorView;

    open spec fn view(&self) -> VerifyErrorView {
        match self {
            VerifyError::Compare(m) => VerifyErrorView::Compare(m@),
            VerifyError::ExactMismatch { expected, actual } => VerifyErrorView::ExactMismatch(
                expected@,
                actual@,
            ),
            VerifyError::FloatingNotNewer { expected, actual } => VerifyErrorView::FloatingNotNewer(
                expected@,
                actual@,
            ),
            VerifyError::RollingUnchanged { actual } => VerifyErrorView::RollingUnchanged(actual@),
        }
    }
}

/// Verifies the version observed after an upgrade against the confirmed plan.
///
/// An exact target must equal the expected version; a floating target must be newer than the
/// old version and no lower than the expected one; a rolling target must differ from the old
/// revision.
pub fn verify_versions(
    mode: TargetMode,
    old: &ToolVersion,
    expected: &ToolVersion,
    actual: &ToolVersion,
    how: Comparison,
) -> (r: Result<(), VerifyError>)
    ensures
        match (r, verification_outcome(
            mode,
            old.display_view(),
            expected.display_view(),
            actual.display_view(),
            how,
        )) {
            (Ok(_), Ok(_)) => true,
            (Err(e), Err(f)) => e@ == f,
            _ => false,
        },
{
    match mode {
        TargetMode::Exact => {
            match compare_versions(how, actual, expected) {
                Err(m) => Err(VerifyError::Compare(m)),
                Ok(o) => {
                    if o == VersionOrder::Equal {
                        Ok(())
                    } else {
                        Err(
                            VerifyError::ExactMismatch {
                                expected: owned(expected.display()),
                                actual: owned(actual.display()),
                            },
                        )
                    }
                },
            }
        },
        TargetMode::Floating => {
            match compare_versions(how, actual, old) {
                Err(m) => Err(VerifyError::Compare(m)),
                Ok(o) => {
                    if o != VersionOrder::Greater {
                        return Err(
                            VerifyError::FloatingNotNewer {
                                expected: owned(expected.display()),
                                actual: owned(actual.display()),
                            },
                        );
                    }
                    match compare_versions(how, actual, expected) {
                        Err(m) => Err(VerifyError::Compare(m)),
                        Ok(p) => {
                            if p == VersionOrder::Less {
                                Err(
                                    VerifyError::FloatingNotNewer {
                                        expected: owned(expected.display()),
                                        actual: owned(actual.display()),
                                    },
                                )
                            } else {
                                Ok(())
                            }
                        },
                    }
                },
            }
        },
        TargetMode::Rolling => {
            match compare_versions(how, actual, old) {
                Err(m) => Err(VerifyError::Compare(m)),
                Ok(o) => {
                    if o == VersionOrder::Equal {
                        Err(VerifyError::RollingUnchanged { actual: owned(actual.display()) })
                    } else {
                        Ok(())
                    }
                },
            }
        },
    }
}


/// Post-upgrade verification of semantic versions, in terms of their precedence: an exact
/// target passes exactly when the version seen equals the expected one; a floating target
/// passes exactly when it is newer than the old version and no lower than the expected one,
/// and is otherwise refused as not newer, whatever the old version was; a rolling target
/// passes exactly when the version seen differs from the old one.
pub proof fn law_semantic_verification(old: Seq<char>, expected: Seq<char>, actual: Seq<char>)
    requires
        semver_accepts(old),
        semver_accepts(expected),
        semver_accepts(actual),
    ensures
        verification_outcome(TargetMode::Exact, old, expected, actual, Comparison::Semantic) == if semver_order(
            actual,
            expected,
        ) == 0 {
            Ok::<(), VerifyErrorView>(())
        } else {
            Err(VerifyErrorView::ExactMismatch(expected, actual))
        },
        verification_outcome(TargetMode::Floating, old, expected, actual, Comparison::Semantic) == if semver_order(
            actual,
            old,
        ) > 0 && semver_order(actual, expected) >= 0 {
            Ok::<(), VerifyErrorView>(())
        } else {
            Err(VerifyErrorView::FloatingNotNewer(expected, actual))
        },
        semver_order(actual, expected) < 0 ==> verification_outcome(
            TargetMode::Floating,
            old,
            expected,
            actual,
            Comparison::Semantic,
        ) == Err::<(), VerifyErrorView>(VerifyErrorView::FloatingNotNewer(expected, actual)),
        verification_outcome(TargetMode::Rolling, old, expected, actual, Comparison::Semantic) == if semver_order(
            actual,
            old,
        ) == 0 {
            Err(VerifyErrorView::RollingUnchanged(actual))
        } else {
            Ok::<(), VerifyErrorView>(())
        },
{
}


/// Character-by-character order finds two texts equal exactly when they are the same text.
proof fn lemma_text_order_equal(a: Seq<char>, b: Seq<char>)
    ensures
        (text_order(a, b) == VersionOrder::Equal) <==> a == b,
    decreases a.len(),
{
    if a.len() > 0 && b.len() > 0 && a[0] == b[0] {
        lemma_text_order_equal(a.drop_first(), b.drop_first());
        if a.drop_first() =~= b.drop_first() {
            assert(a =~= b) by {
                assert forall|k: int| 0 <= k < a.len() implies a[k] == b[k] by {
                    if k > 0 {
                        assert(a.drop_first()[k - 1] == b.drop_first()[k - 1]);
                    }
                }
            }
        }
        if a == b {
            assert(a.drop_first() =~= b.drop_first());
        }
    } else if a =~= b {
        assert(a.len() == 0 || a[0] == b[0]);
    }
}

/// Post-upgrade verification of revisions compared as text: an exact target passes exactly
/// when the text seen is the expected text, and a rolling target exactly when the text seen
/// differs from the old one.
pub proof fn law_textual_verification(old: Seq<char>, expected: Seq<char>, actual: Seq<char>)
    ensures
        verification_outcome(TargetMode::Exact, old, expected, actual, Comparison::Textual) == if actual
            == expected {
            Ok::<(), VerifyErrorView>(())
        } else {
            Err(VerifyErrorView::ExactMismatch(expected, actual))
        },
        verification_outcome(TargetMode::Rolling, old, expected, actual, Comparison::Textual) == if actual
            == old {
            Err(VerifyErrorView::RollingUnchanged(actual))
        } else {
            Ok::<(), VerifyErrorView>(())
        },
{
    lemma_text_order_equal(actual, expected);
    lemma_text_order_equal(actual, old);
}

} // verus!
