//! Installation-source and update-manager claims, and their resolution.
use super::{ManagerId, SourceId};
use crate::command::owned;
use crate::copy::Duplicate;
use crate::text::str_eq;
use vstd::prelude::*;

verus! {

/// How strong the evidence behind a claim is.
#[derive(Debug, Clone, Copy, PartialEq, Eq, PartialOrd, Ord, Structural)]
pub enum ClaimConfidence {
    PathHeuristic,
    CanonicalPath,
    Receipt,
}

/// The rank of a confidence: receipts outrank canonical paths, which outrank path heuristics.
pub open spec fn rank(c: ClaimConfidence) -> int {
    match c {
        ClaimConfidence::PathHeuristic => 0,
        ClaimConfidence::CanonicalPath => 1,
        ClaimConfidence::Receipt => 2,
    }
}

impl ClaimConfidence {
    /// The rank of this confidence.
    pub fn rank(&self) -> (r: u8)
        ensures
            r as int == rank(*self),
    {
        match self {
            ClaimConfidence::PathHeuristic => 0,
            ClaimConfidence::CanonicalPath => 1,
            ClaimConfidence::Receipt => 2,
        }
    }
}

/// A claim that an installation came from `source`.
#[derive(Debug, Clone, PartialEq, Eq)]
pub struct SourceClaim {
    pub source: SourceId,
    pub confidence: ClaimConfidence,
    pub evidence: String,
}

/// A claim that `manager` may update an installation.
#[derive(Debug, Clone, PartialEq, Eq)]
pub struct UpdaterClaim {
    pub manager: ManagerId,
    pub confidence: ClaimConfidence,
    pub evidence: String,
}

/// What one install manager claims about one installation.
#[derive(Debug, Clone, Default, PartialEq, Eq)]
pub struct ManagerClaims {
    pub source: Option<SourceClaim>,
    pub updater: Option<UpdaterClaim>,
}

/// One claim as recorded in diagnostics: its kind (`source` or `updater`), the claimed
/// identifier, its confidence and its evidence.
#[derive(Debug, PartialEq, Eq)]
pub struct ClaimEvidence {
    pub claim: String,
    pub id: String,
    pub confidence: ClaimConfidence,
    pub evidence: String,
}

/// The outcome of resolving claims: the unique top source and updater, if any, all evidence,
/// and the evidence of tied top claims.
#[derive(Debug, Default, PartialEq, Eq)]
pub struct ResolvedClaims {
    pub source: Option<SourceClaim>,
    pub updater: Option<UpdaterClaim>,
    pub evidence: Vec<ClaimEvidence>,
    pub conflicts: Vec<ClaimEvidence>,
}

/// A claim as recorded in diagnostics, as plain values.
pub struct EvidenceView {
    pub claim: Seq<char>,
    pub id: Seq<char>,
    pub confidence: ClaimConfidence,
    pub evidence: Seq<char>,
}

impl View for ClaimEvidence {
    type V = EvidenceView;

    open spec fn view(&self) -> EvidenceView {
        EvidenceView {
            claim: self.claim@,
            id: self.id@,
            confidence: self.confidence,
            evidence: self.evidence@,
        }
    }
}

impl DeepView for ClaimEvidence {
    type V = ClaimEvidence;

    open spec fn deep_view(&self) -> ClaimEvidence {
        *self
    }
}

impl Duplicate for ClaimEvidence {
    fn duplicate(&self) -> (r: ClaimEvidence) {
        copy_evidence(self)
    }
}

/// The views of a list of evidence entries.
pub open spec fn evidence_views(v: Seq<ClaimEvidence>) -> Seq<EvidenceView> {
    v.map_values(|e: ClaimEvidence| e@)
}

/// The diagnostic entries for one manager's claims: its source claim, then its updater claim.
pub open spec fn claim_entries(c: ManagerClaims) -> Seq<EvidenceView> {
    (match c.source {
        Some(s) => seq![
            EvidenceView {
                claim: "source"@,
                id: s.source@,
                confidence: s.confidence,
                evidence: s.evidence@,
            },
        ],
        None => Seq::empty(),
    }) + (match c.updater {
        Some(u) => seq![
            EvidenceView {
                claim: "updater"@,
                id: u.manager@,
                confidence: u.confidence,
                evidence: u.evidence@,
            },
        ],
        None => Seq::empty(),
    })
}

/// The diagnostic entries of all claims, in order.
pub open spec fn all_entries(cs: Seq<ManagerClaims>) -> Seq<EvidenceView>
    decreases cs.len(),
{
    if cs.len() == 0 {
        Seq::empty()
    } else {
        all_entries(cs.drop_last()) + claim_entries(cs.last())
    }
}

/// The highest rank among entries of the given kind, or -1 when there is none.
pub open spec fn top_rank(e: Seq<EvidenceView>, kind: Seq<char>) -> int
    decreases e.len(),
{
    if e.len() == 0 {
        -1
    } else {
        let rest = top_rank(e.drop_last(), kind);
        if e.last().claim == kind && rank(e.last().confidence) > rest {
            rank(e.last().confidence)
        } else {
            rest
        }
    }
}

/// The entries of the given kind and rank, in order.
pub open spec fn entries_ranked(e: Seq<EvidenceView>, kind: Seq<char>, r: int) -> Seq<
    EvidenceView,
>
    decreases e.len(),
{
    if e.len() == 0 {
        Seq::empty()
    } else if e.last().claim == kind && rank(e.last().confidence) == r {
        entries_ranked(e.drop_last(), kind, r).push(e.last())
    } else {
        entries_ranked(e.drop_last(), kind, r)
    }
}

/// The first manager claims whose source claim has rank `r`.
pub open spec fn first_source_ranked(cs: Seq<ManagerClaims>, r: int) -> Option<SourceClaim>
    decreases cs.len(),
{
    if cs.len() == 0 {
        None
    } else {
        match first_source_ranked(cs.drop_last(), r) {
            Some(s) => Some(s),
            None => match cs.last().source {
                Some(s) => if rank(s.confidence) == r {
                    Some(s)
                } else {
                    None
                },
                None => None,
            },
        }
    }
}

/// The first manager claims whose updater claim has rank `r`.
pub open spec fn first_updater_ranked(cs: Seq<ManagerClaims>, r: int) -> Option<UpdaterClaim>
    decreases cs.len(),
{
    if cs.len() == 0 {
        None
    } else {
        match first_updater_ranked(cs.drop_last(), r) {
            Some(u) => Some(u),
            None => match cs.last().updater {
                Some(u) => if rank(u.confidence) == r {
                    Some(u)
                } else {
                    None
                },
                None => None,
            },
        }
    }
}

/// The source resolution: the top source claim when exactly one source claim has the top rank.
pub open spec fn resolved_source(cs: Seq<ManagerClaims>) -> Option<SourceClaim> {
    let e = all_entries(cs);
    let top = top_rank(e, "source"@);
    if entries_ranked(e, "source"@, top).len() == 1 {
        first_source_ranked(cs, top)
    } else {
        None
    }
}

/// The updater resolution: the top updater claim when exactly one updater claim has the top
/// rank.
pub open spec fn resolved_updater(cs: Seq<ManagerClaims>) -> Option<UpdaterClaim> {
    let e = all_entries(cs);
    let top = top_rank(e, "updater"@);
    if entries_ranked(e, "updater"@, top).len() == 1 {
        first_updater_ranked(cs, top)
    } else {
        None
    }
}

/// The conflicting entries: the tied top source claims, then the tied top updater claims.
pub open spec fn conflict_entries(cs: Seq<ManagerClaims>) -> Seq<EvidenceView> {
    let e = all_entries(cs);
    let ts = entries_ranked(e, "source"@, top_rank(e, "source"@));
    let tu = entries_ranked(e, "updater"@, top_rank(e, "updater"@));
    (if ts.len() > 1 {
        ts
    } else {
        Seq::empty()
    }) + (if tu.len() > 1 {
        tu
    } else {
        Seq::empty()
    })
}

fn copy_source_claim(s: &SourceClaim) -> (r: SourceClaim)
    ensures
        r == *s,
{
    SourceClaim { source: s.source.duplicate(), confidence: s.confidence, evidence: s.evidence.clone() }
}

fn copy_updater_claim(u: &UpdaterClaim) -> (r: UpdaterClaim)
    ensures
        r == *u,
{
    UpdaterClaim { manager: u.manager.duplicate(), confidence: u.confidence, evidence: u.evidence.clone() }
}

fn copy_evidence(e: &ClaimEvidence) -> (r: ClaimEvidence)
    ensures
        r == *e,
{
    ClaimEvidence {
        claim: e.claim.clone(),
        id: e.id.clone(),
        confidence: e.confidence,
        evidence: e.evidence.clone(),
    }
}

/// The diagnostic entries of one manager's claims.
fn entries_of(c: &ManagerClaims) -> (r: Vec<ClaimEvidence>)
    ensures
        evidence_views(r@) =~= claim_entries(*c),
{
    let mut out: Vec<ClaimEvidence> = Vec::new();
    match &c.source {
        Some(s) => {
            out.push(
                ClaimEvidence {
                    claim: owned("source"),
                    id: s.source.to_string(),
                    confidence: s.confidence,
                    evidence: s.evidence.clone(),
                },
            );
        },
        None => {},
    }
    match &c.updater {
        Some(u) => {
            out.push(
                ClaimEvidence {
                    claim: owned("updater"),
                    id: u.manager.to_string(),
                    confidence: u.confidence,
                    evidence: u.evidence.clone(),
                },
            );
        },
        None => {},
    }
    out
}

/// The highest rank among entries of the given kind, or -1.
fn top_rank_of(e: &Vec<ClaimEvidence>, kind: &str) -> (r: i8)
    ensures
        r as int == top_rank(evidence_views(e@), kind@),
{
    let mut best: i8 = -1;
    let mut i: usize = 0;
    while i < e.len()
        invariant
            i <= e@.len(),
            best as int == top_rank(evidence_views(e@.subrange(0, i as int)), kind@),
            -1 <= best <= 2,
        decreases e.len() - i,
    {
        proof {
            assert(evidence_views(e@.subrange(0, i + 1)).drop_last() =~= evidence_views(
                e@.subrange(0, i as int),
            ));
        }
        if str_eq(e[i].claim.as_str(), kind) {
            let r = e[i].confidence.rank() as i8;
            if r > best {
                best = r;
            }
        }
        i = i + 1;
    }
    proof {
        assert(e@.subrange(0, e@.len() as int) =~= e@);
    }
    best
}

/// The entries of the given kind and rank, in order.
fn ranked_entries(e: &Vec<ClaimEvidence>, kind: &str, rank: i8) -> (r: Vec<ClaimEvidence>)
    ensures
        evidence_views(r@) =~= entries_ranked(evidence_views(e@), kind@, rank as int),
{
    let mut out: Vec<ClaimEvidence> = Vec::new();
    let mut i: usize = 0;
    while i < e.len()
        invariant
            i <= e@.len(),
            evidence_views(out@) =~= entries_ranked(
                evidence_views(e@.subrange(0, i as int)),
                kind@,
                rank as int,
            ),
        decreases e.len() - i,
    {
        proof {
            assert(evidence_views(e@.subrange(0, i + 1)).drop_last() =~= evidence_views(
                e@.subrange(0, i as int),
            ));
        }
        if str_eq(e[i].claim.as_str(), kind) && e[i].confidence.rank() as i8 == rank {
            out.push(copy_evidence(&e[i]));
        }
        i = i + 1;
    }
    proof {
        assert(e@.subrange(0, e@.len() as int) =~= e@);
    }
    out
}

/// Resolves the claims of all managers about one installation.
///
/// The source is the unique source claim of the highest confidence, and the updater the unique
/// updater claim of the highest confidence; where two or more claims of a kind tie at the top,
/// that kind resolves to nothing and the tied claims are reported as conflicts. Sources and
/// updaters are resolved independently.
pub fn resolve_claims(claims: Vec<ManagerClaims>) -> (r: ResolvedClaims)
    ensures
        evidence_views(r.evidence@) == all_entries(claims@),
        r.source == resolved_source(claims@),
        r.updater == resolved_updater(claims@),
        evidence_views(r.conflicts@) == conflict_entries(claims@),
{
    let mut evidence: Vec<ClaimEvidence> = Vec::new();
    let mut i: usize = 0;
    while i < claims.len()
        invariant
            i <= claims@.len(),
            evidence_views(evidence@) =~= all_entries(claims@.subrange(0, i as int)),
        decreases claims.len() - i,
    {
        let entries = entries_of(&claims[i]);
        let mut k: usize = 0;
        let ghost before = evidence@;
        while k < entries.len()
            invariant
                k <= entries@.len(),
                evidence@ =~= before + entries@.subrange(0, k as int),
            decreases entries.len() - k,
        {
            evidence.push(copy_evidence(&entries[k]));
            proof {
                assert(evidence_views(evidence@).last() == entries@[k as int]@);
            }
            k = k + 1;
        }
        proof {
            assert(claims@.subrange(0, i + 1).drop_last() =~= claims@.subrange(0, i as int));
            assert(entries@.subrange(0, entries@.len() as int) =~= entries@);
            assert(evidence_views(evidence@) =~= evidence_views(before) + evidence_views(
                entries@,
            ));
        }
        i = i + 1;
    }
    proof {
        assert(claims@.subrange(0, claims@.len() as int) =~= claims@);
    }
    let source_top = top_rank_of(&evidence, "source");
    let updater_top = top_rank_of(&evidence, "updater");
    let source_tied = ranked_entries(&evidence, "source", source_top);
    let updater_tied = ranked_entries(&evidence, "updater", updater_top);

    let mut source: Option<SourceClaim> = None;
    let mut updater: Option<UpdaterClaim> = None;
    let mut j: usize = 0;
    while j < claims.len()
        invariant
            j <= claims@.len(),
            source == (if source_tied@.len() == 1 {
                first_source_ranked(claims@.subrange(0, j as int), source_top as int)
            } else {
                None
            }),
            updater == (if updater_tied@.len() == 1 {
                first_updater_ranked(claims@.subrange(0, j as int), updater_top as int)
            } else {
                None
            }),
        decreases claims.len() - j,
    {
        proof {
            assert(claims@.subrange(0, j + 1).drop_last() =~= claims@.subrange(0, j as int));
        }
        if source.is_none() && source_tied.len() == 1 {
            match &claims[j].source {
                Some(s) => {
                    if s.confidence.rank() as i8 == source_top {
                        source = Some(copy_source_claim(s));
                    }
                },
                None => {},
            }
        }
        if updater.is_none() && updater_tied.len() == 1 {
            match &claims[j].updater {
                Some(u) => {
                    if u.confidence.rank() as i8 == updater_top {
                        updater = Some(copy_updater_claim(u));
                    }
                },
                None => {},
            }
        }
        j = j + 1;
    }
    let mut conflicts: Vec<ClaimEvidence> = Vec::new();
    if source_tied.len() > 1 {
        conflicts = source_tied;
    }
    if updater_tied.len() > 1 {
        let mut k: usize = 0;
        let ghost before = conflicts@;
        while k < updater_tied.len()
            invariant
                k <= updater_tied@.len(),
                conflicts@ =~= before + updater_tied@.subrange(0, k as int),
            decreases updater_tied.len() - k,
        {
            conflicts.push(copy_evidence(&updater_tied[k]));
            proof {
                assert(evidence_views(conflicts@).last() == updater_tied@[k as int]@);
            }
            k = k + 1;
        }
        proof {
            assert(updater_tied@.subrange(0, updater_tied@.len() as int) =~= updater_tied@);
        }
    }
    ResolvedClaims { source, updater, evidence, conflicts }
}

} // verus!

verus! {

/// The rank of the source claim of `cs[i]`, or -1 when it makes none.
pub open spec fn source_rank_at(cs: Seq<ManagerClaims>, i: int) -> int {
    match cs[i].source {
        Some(s) => rank(s.confidence),
        None => -1,
    }
}

/// The rank of the updater claim of `cs[i]`, or -1 when it makes none.
pub open spec fn updater_rank_at(cs: Seq<ManagerClaims>, i: int) -> int {
    match cs[i].updater {
        Some(u) => rank(u.confidence),
        None => -1,
    }
}

proof fn lemma_kinds_differ()
    ensures
        "source"@ != "updater"@,
{
    reveal_strlit("source");
    reveal_strlit("updater");
    assert("source"@[0] != "updater"@[0]);
}

proof fn lemma_top_rank_concat(a: Seq<EvidenceView>, b: Seq<EvidenceView>, kind: Seq<char>)
    ensures
        top_rank(a + b, kind) == if top_rank(a, kind) >= top_rank(b, kind) {
            top_rank(a, kind)
        } else {
            top_rank(b, kind)
        },
        top_rank(a, kind) >= -1,
    decreases b.len(),
{
    if b.len() == 0 {
        assert(a + b =~= a);
        lemma_top_rank_floor(a, kind);
    } else {
        assert((a + b).drop_last() =~= a + b.drop_last());
        lemma_top_rank_concat(a, b.drop_last(), kind);
        lemma_top_rank_floor(b.drop_last(), kind);
    }
}

proof fn lemma_top_rank_floor(a: Seq<EvidenceView>, kind: Seq<char>)
    ensures
        top_rank(a, kind) >= -1,
    decreases a.len(),
{
    if a.len() > 0 {
        lemma_top_rank_floor(a.drop_last(), kind);
    }
}

proof fn lemma_entries_ranked_concat(
    a: Seq<EvidenceView>,
    b: Seq<EvidenceView>,
    kind: Seq<char>,
    r: int,
)
    ensures
        entries_ranked(a + b, kind, r) == entries_ranked(a, kind, r) + entries_ranked(b, kind, r),
    decreases b.len(),
{
    if b.len() == 0 {
        assert(a + b =~= a);
        assert(entries_ranked(a, kind, r) + entries_ranked(b, kind, r) =~= entries_ranked(
            a,
            kind,
            r,
        ));
    } else {
        assert((a + b).drop_last() =~= a + b.drop_last());
        lemma_entries_ranked_concat(a, b.drop_last(), kind, r);
        assert((a + b).last() == b.last());
        if b.last().claim == kind && rank(b.last().confidence) == r {
            assert(entries_ranked(a, kind, r) + entries_ranked(b.drop_last(), kind, r).push(
                b.last(),
            ) =~= (entries_ranked(a, kind, r) + entries_ranked(b.drop_last(), kind, r)).push(
                b.last(),
            ));
        }
    }
}

/// The number of claims whose source claim has rank `r`.
pub open spec fn count_source_rank(cs: Seq<ManagerClaims>, r: int) -> nat
    decreases cs.len(),
{
    if cs.len() == 0 {
        0
    } else {
        count_source_rank(cs.drop_last(), r) + if source_rank_at(cs, cs.len() - 1) == r {
            1nat
        } else {
            0nat
        }
    }
}

/// The number of claims whose updater claim has rank `r`.
pub open spec fn count_updater_rank(cs: Seq<ManagerClaims>, r: int) -> nat
    decreases cs.len(),
{
    if cs.len() == 0 {
        0
    } else {
        count_updater_rank(cs.drop_last(), r) + if updater_rank_at(cs, cs.len() - 1) == r {
            1nat
        } else {
            0nat
        }
    }
}

/// The diagnostic entries of one manager's claims, summarised by kind.
proof fn lemma_claim_entries(c: ManagerClaims, r: int)
    requires
        r >= 0,
    ensures
        top_rank(claim_entries(c), "source"@) == match c.source {
            Some(s) => rank(s.confidence),
            None => -1,
        },
        top_rank(claim_entries(c), "updater"@) == match c.updater {
            Some(u) => rank(u.confidence),
            None => -1,
        },
        entries_ranked(claim_entries(c), "source"@, r).len() == match c.source {
            Some(s) => if rank(s.confidence) == r {
                1int
            } else {
                0int
            },
            None => 0int,
        },
        entries_ranked(claim_entries(c), "updater"@, r).len() == match c.updater {
            Some(u) => if rank(u.confidence) == r {
                1int
            } else {
                0int
            },
            None => 0int,
        },
{
    lemma_kinds_differ();
    reveal_with_fuel(top_rank, 3);
    reveal_with_fuel(entries_ranked, 3);
    let ce = claim_entries(c);
    let empty = Seq::<EvidenceView>::empty();
    match c.source {
        Some(s) => {
            let se = EvidenceView {
                claim: "source"@,
                id: s.source@,
                confidence: s.confidence,
                evidence: s.evidence@,
            };
            assert(seq![se].drop_last() =~= empty);
            match c.updater {
                Some(u) => {
                    let ue = EvidenceView {
                        claim: "updater"@,
                        id: u.manager@,
                        confidence: u.confidence,
                        evidence: u.evidence@,
                    };
                    assert(ce =~= seq![se, ue]);
                    assert(ce.drop_last() =~= seq![se]);
                },
                None => {
                    assert(ce =~= seq![se]);
                },
            }
        },
        None => {
            match c.updater {
                Some(u) => {
                    let ue = EvidenceView {
                        claim: "updater"@,
                        id: u.manager@,
                        confidence: u.confidence,
                        evidence: u.evidence@,
                    };
                    assert(ce =~= seq![ue]);
                    assert(ce.drop_last() =~= empty);
                },
                None => {
                    assert(ce =~= empty);
                },
            }
        },
    }
}

/// The highest source rank of the claims, or -1, and the number of claims that reach it.
proof fn lemma_source_summary(cs: Seq<ManagerClaims>, r: int)
    requires
        r >= 0,
    ensures
        top_rank(all_entries(cs), "source"@) >= -1,
        forall|i: int| 0 <= i < cs.len() ==> source_rank_at(cs, i) <= top_rank(
            all_entries(cs),
            "source"@,
        ),
        top_rank(all_entries(cs), "source"@) >= 0 ==> exists|i: int|
            0 <= i < cs.len() && source_rank_at(cs, i) == top_rank(all_entries(cs), "source"@),
        entries_ranked(all_entries(cs), "source"@, r).len() == count_source_rank(cs, r),
    decreases cs.len(),
{
    lemma_kinds_differ();
    if cs.len() == 0 {
    } else {
        let p = cs.drop_last();
        lemma_source_summary(p, r);
        let c = cs.last();
        lemma_top_rank_concat(all_entries(p), claim_entries(c), "source"@);
        lemma_entries_ranked_concat(all_entries(p), claim_entries(c), "source"@, r);
        lemma_top_rank_floor(claim_entries(c), "source"@);
        lemma_claim_entries(c, r);
        assert forall|i: int| 0 <= i < cs.len() implies source_rank_at(cs, i) <= top_rank(
            all_entries(cs),
            "source"@,
        ) by {
            if i < cs.len() - 1 {
                assert(source_rank_at(cs, i) == source_rank_at(p, i));
            }
        }
        if top_rank(all_entries(cs), "source"@) >= 0 {
            if top_rank(all_entries(p), "source"@) == top_rank(all_entries(cs), "source"@) {
                let i = choose|i: int|
                    0 <= i < p.len() && source_rank_at(p, i) == top_rank(
                        all_entries(p),
                        "source"@,
                    );
                assert(source_rank_at(cs, i) == source_rank_at(p, i));
            } else {
                assert(source_rank_at(cs, cs.len() - 1) == top_rank(all_entries(cs), "source"@));
            }
        }
    }
}


proof fn lemma_count_source_two(cs: Seq<ManagerClaims>, r: int, i: int, j: int)
    requires
        0 <= i < cs.len(),
        0 <= j < cs.len(),
        source_rank_at(cs, i) == r,
    ensures
        count_source_rank(cs, r) >= 1,
        i != j && source_rank_at(cs, j) == r ==> count_source_rank(cs, r) >= 2,
    decreases cs.len(),
{
    let p = cs.drop_last();
    let last = cs.len() - 1;
    if i < last {
        assert(source_rank_at(p, i) == source_rank_at(cs, i));
        if j < last {
            assert(source_rank_at(p, j) == source_rank_at(cs, j));
            lemma_count_source_two(p, r, i, j);
        } else {
            lemma_count_source_two(p, r, i, i);
        }
    } else if j < last {
        assert(source_rank_at(p, j) == source_rank_at(cs, j));
        if source_rank_at(cs, j) == r {
            lemma_count_source_two(p, r, j, j);
        }
    }
}

proof fn lemma_first_source(cs: Seq<ManagerClaims>, r: int, i: int)
    requires
        0 <= i < cs.len(),
        source_rank_at(cs, i) == r,
        forall|j: int| 0 <= j < i ==> source_rank_at(cs, j) != r,
    ensures
        first_source_ranked(cs, r) == cs[i].source,
    decreases cs.len(),
{
    let p = cs.drop_last();
    if i < cs.len() - 1 {
        assert forall|j: int| 0 <= j < i implies source_rank_at(p, j) != r by {
            assert(source_rank_at(p, j) == source_rank_at(cs, j));
        }
        assert(source_rank_at(p, i) == source_rank_at(cs, i));
        lemma_first_source(p, r, i);
    } else {
        assert forall|j: int| 0 <= j < p.len() implies source_rank_at(p, j) != r by {
            assert(source_rank_at(p, j) == source_rank_at(cs, j));
        }
        lemma_first_source_none(p, r);
    }
}

proof fn lemma_first_source_none(cs: Seq<ManagerClaims>, r: int)
    requires
        forall|j: int| 0 <= j < cs.len() ==> source_rank_at(cs, j) != r,
    ensures
        first_source_ranked(cs, r) is None,
    decreases cs.len(),
{
    if cs.len() > 0 {
        let p = cs.drop_last();
        assert forall|j: int| 0 <= j < p.len() implies source_rank_at(p, j) != r by {
            assert(source_rank_at(p, j) == source_rank_at(cs, j));
        }
        lemma_first_source_none(p, r);
        assert(source_rank_at(cs, cs.len() - 1) != r);
    }
}

/// Claim ranking: a source claim is resolved exactly when it outranks every other source claim,
/// so a receipt beats a canonical path, which beats a path heuristic, and a tie at the top
/// resolves to no source.
pub proof fn law_source_claim_ranking(cs: Seq<ManagerClaims>, i: int)
    requires
        0 <= i < cs.len(),
    ensures
        (source_rank_at(cs, i) >= 0 && forall|j: int|
            0 <= j < cs.len() && j != i ==> source_rank_at(cs, j) < source_rank_at(cs, i)) ==> (
        resolved_source(cs) == cs[i].source),
        (source_rank_at(cs, i) >= 0 && exists|j: int|
            0 <= j < cs.len() && j != i && source_rank_at(cs, j) == source_rank_at(cs, i)) && (
        forall|k: int| 0 <= k < cs.len() ==> source_rank_at(cs, k) <= source_rank_at(cs, i))
            ==> resolved_source(cs) is None,
        resolved_source(cs) matches Some(s) ==> exists|k: int|
            0 <= k < cs.len() && cs[k].source == Some(s) && forall|j: int|
                0 <= j < cs.len() && j != k ==> source_rank_at(cs, j) < rank(s.confidence),
{
    let top = top_rank(all_entries(cs), "source"@);
    lemma_source_summary(cs, 0);
    if top >= 0 {
        lemma_source_summary(cs, top);
    }
    if source_rank_at(cs, i) >= 0 && forall|j: int|
        0 <= j < cs.len() && j != i ==> source_rank_at(cs, j) < source_rank_at(cs, i) {
        assert(top == source_rank_at(cs, i)) by {
            let k = choose|k: int| 0 <= k < cs.len() && source_rank_at(cs, k) == top;
            if k != i {
                assert(source_rank_at(cs, k) < source_rank_at(cs, i));
            }
        }
        lemma_count_source_two(cs, top, i, i);
        if count_source_rank(cs, top) >= 2 {
            lemma_count_at_most_one(cs, top, i);
        }
        lemma_first_source(cs, top, i);
    }
    if source_rank_at(cs, i) >= 0 && (exists|j: int|
        0 <= j < cs.len() && j != i && source_rank_at(cs, j) == source_rank_at(cs, i)) && (forall|
        k: int,
    | 0 <= k < cs.len() ==> source_rank_at(cs, k) <= source_rank_at(cs, i)) {
        let j = choose|j: int|
            0 <= j < cs.len() && j != i && source_rank_at(cs, j) == source_rank_at(cs, i);
        assert(top == source_rank_at(cs, i));
        lemma_count_source_two(cs, top, i, j);
    }
    if resolved_source(cs) is Some {
        lemma_first_source_found(cs, top);
        let k = choose|k: int|
            0 <= k < cs.len() && cs[k].source == first_source_ranked(cs, top) && source_rank_at(
                cs,
                k,
            ) == top;
        assert forall|j: int| 0 <= j < cs.len() && j != k implies source_rank_at(cs, j) < top by {
            if source_rank_at(cs, j) == top {
                lemma_count_source_two(cs, top, k, j);
            }
        }
    }
}

proof fn lemma_count_at_most_one(cs: Seq<ManagerClaims>, r: int, i: int)
    requires
        0 <= i < cs.len(),
        forall|j: int| 0 <= j < cs.len() && j != i ==> source_rank_at(cs, j) != r,
    ensures
        count_source_rank(cs, r) <= 1,
    decreases cs.len(),
{
    if cs.len() > 0 {
        let p = cs.drop_last();
        if i < cs.len() - 1 {
            assert forall|j: int| 0 <= j < p.len() && j != i implies source_rank_at(p, j) != r by {
                assert(source_rank_at(p, j) == source_rank_at(cs, j));
            }
            lemma_count_at_most_one(p, r, i);
        } else {
            assert forall|j: int| 0 <= j < p.len() implies source_rank_at(p, j) != r by {
                assert(source_rank_at(p, j) == source_rank_at(cs, j));
            }
            lemma_count_zero(p, r);
        }
    }
}

proof fn lemma_count_zero(cs: Seq<ManagerClaims>, r: int)
    requires
        forall|j: int| 0 <= j < cs.len() ==> source_rank_at(cs, j) != r,
    ensures
        count_source_rank(cs, r) == 0,
    decreases cs.len(),
{
    if cs.len() > 0 {
        let p = cs.drop_last();
        assert forall|j: int| 0 <= j < p.len() implies source_rank_at(p, j) != r by {
            assert(source_rank_at(p, j) == source_rank_at(cs, j));
        }
        lemma_count_zero(p, r);
    }
}

proof fn lemma_first_source_found(cs: Seq<ManagerClaims>, r: int)
    requires
        first_source_ranked(cs, r) is Some,
    ensures
        exists|k: int|
            0 <= k < cs.len() && cs[k].source == first_source_ranked(cs, r) && source_rank_at(cs, k)
                == r,
    decreases cs.len(),
{
    let p = cs.drop_last();
    if first_source_ranked(p, r) is Some {
        lemma_first_source_found(p, r);
        let k = choose|k: int|
            0 <= k < p.len() && p[k].source == first_source_ranked(p, r) && source_rank_at(p, k)
                == r;
        assert(cs[k] == p[k]);
        assert(source_rank_at(cs, k) == source_rank_at(p, k));
    } else {
        let k = cs.len() - 1;
        assert(cs[k].source == first_source_ranked(cs, r));
        assert(source_rank_at(cs, k) == r);
    }
}
} // verus!

verus! {

/// The highest updater rank of the claims, or -1, and the number of claims that reach it.
proof fn lemma_updater_summary(cs: Seq<ManagerClaims>, r: int)
    requires
        r >= 0,
    ensures
        top_rank(all_entries(cs), "updater"@) >= -1,
        forall|i: int| 0 <= i < cs.len() ==> updater_rank_at(cs, i) <= top_rank(
            all_entries(cs),
            "updater"@,
        ),
        top_rank(all_entries(cs), "updater"@) >= 0 ==> exists|i: int|
            0 <= i < cs.len() && updater_rank_at(cs, i) == top_rank(all_entries(cs), "updater"@),
        entries_ranked(all_entries(cs), "updater"@, r).len() == count_updater_rank(cs, r),
    decreases cs.len(),
{
    lemma_kinds_differ();
    if cs.len() == 0 {
    } else {
        let p = cs.drop_last();
        lemma_updater_summary(p, r);
        let c = cs.last();
        lemma_top_rank_concat(all_entries(p), claim_entries(c), "updater"@);
        lemma_entries_ranked_concat(all_entries(p), claim_entries(c), "updater"@, r);
        lemma_top_rank_floor(claim_entries(c), "updater"@);
        lemma_claim_entries(c, r);
        assert forall|i: int| 0 <= i < cs.len() implies updater_rank_at(cs, i) <= top_rank(
            all_entries(cs),
            "updater"@,
        ) by {
            if i < cs.len() - 1 {
                assert(updater_rank_at(cs, i) == updater_rank_at(p, i));
            }
        }
        if top_rank(all_entries(cs), "updater"@) >= 0 {
            if top_rank(all_entries(p), "updater"@) == top_rank(all_entries(cs), "updater"@) {
                let i = choose|i: int|
                    0 <= i < p.len() && updater_rank_at(p, i) == top_rank(
                        all_entries(p),
                        "updater"@,
                    );
                assert(updater_rank_at(cs, i) == updater_rank_at(p, i));
            } else {
                assert(updater_rank_at(cs, cs.len() - 1) == top_rank(all_entries(cs), "updater"@));
            }
        }
    }
}


proof fn lemma_count_updater_two(cs: Seq<ManagerClaims>, r: int, i: int, j: int)
    requires
        0 <= i < cs.len(),
        0 <= j < cs.len(),
        updater_rank_at(cs, i) == r,
    ensures
        count_updater_rank(cs, r) >= 1,
        i != j && updater_rank_at(cs, j) == r ==> count_updater_rank(cs, r) >= 2,
    decreases cs.len(),
{
    let p = cs.drop_last();
    let last = cs.len() - 1;
    if i < last {
        assert(updater_rank_at(p, i) == updater_rank_at(cs, i));
        if j < last {
            assert(updater_rank_at(p, j) == updater_rank_at(cs, j));
            lemma_count_updater_two(p, r, i, j);
        } else {
            lemma_count_updater_two(p, r, i, i);
        }
    } else if j < last {
        assert(updater_rank_at(p, j) == updater_rank_at(cs, j));
        if updater_rank_at(cs, j) == r {
            lemma_count_updater_two(p, r, j, j);
        }
    }
}

proof fn lemma_first_updater(cs: Seq<ManagerClaims>, r: int, i: int)
    requires
        0 <= i < cs.len(),
        updater_rank_at(cs, i) == r,
        forall|j: int| 0 <= j < i ==> updater_rank_at(cs, j) != r,
    ensures
        first_updater_ranked(cs, r) == cs[i].updater,
    decreases cs.len(),
{
    let p = cs.drop_last();
    if i < cs.len() - 1 {
        assert forall|j: int| 0 <= j < i implies updater_rank_at(p, j) != r by {
            assert(updater_rank_at(p, j) == updater_rank_at(cs, j));
        }
        assert(updater_rank_at(p, i) == updater_rank_at(cs, i));
        lemma_first_updater(p, r, i);
    } else {
        assert forall|j: int| 0 <= j < p.len() implies updater_rank_at(p, j) != r by {
            assert(updater_rank_at(p, j) == updater_rank_at(cs, j));
        }
        lemma_first_updater_none(p, r);
    }
}

proof fn lemma_first_updater_none(cs: Seq<ManagerClaims>, r: int)
    requires
        forall|j: int| 0 <= j < cs.len() ==> updater_rank_at(cs, j) != r,
    ensures
        first_updater_ranked(cs, r) is None,
    decreases cs.len(),
{
    if cs.len() > 0 {
        let p = cs.drop_last();
        assert forall|j: int| 0 <= j < p.len() implies updater_rank_at(p, j) != r by {
            assert(updater_rank_at(p, j) == updater_rank_at(cs, j));
        }
        lemma_first_updater_none(p, r);
        assert(updater_rank_at(cs, cs.len() - 1) != r);
    }
}

/// Claim ranking: an updater claim is resolved exactly when it outranks every other updater
/// claim, so a receipt beats a canonical path, which beats a path heuristic, and a tie at the top
/// resolves to no updater.
pub proof fn law_updater_claim_ranking(cs: Seq<ManagerClaims>, i: int)
    requires
        0 <= i < cs.len(),
    ensures
        (updater_rank_at(cs, i) >= 0 && forall|j: int|
            0 <= j < cs.len() && j != i ==> updater_rank_at(cs, j) < updater_rank_at(cs, i)) ==> (
        resolved_updater(cs) == cs[i].updater),
        (updater_rank_at(cs, i) >= 0 && exists|j: int|
            0 <= j < cs.len() && j != i && updater_rank_at(cs, j) == updater_rank_at(cs, i)) && (
        forall|k: int| 0 <= k < cs.len() ==> updater_rank_at(cs, k) <= updater_rank_at(cs, i))
            ==> resolved_updater(cs) is None,
        resolved_updater(cs) matches Some(u) ==> exists|k: int|
            0 <= k < cs.len() && cs[k].updater == Some(u) && forall|j: int|
                0 <= j < cs.len() && j != k ==> updater_rank_at(cs, j) < rank(u.confidence),
{
    let top = top_rank(all_entries(cs), "updater"@);
    lemma_updater_summary(cs, 0);
    if top >= 0 {
        lemma_updater_summary(cs, top);
    }
    if updater_rank_at(cs, i) >= 0 && forall|j: int|
        0 <= j < cs.len() && j != i ==> updater_rank_at(cs, j) < updater_rank_at(cs, i) {
        assert(top == updater_rank_at(cs, i)) by {
            let k = choose|k: int| 0 <= k < cs.len() && updater_rank_at(cs, k) == top;
            if k != i {
                assert(updater_rank_at(cs, k) < updater_rank_at(cs, i));
            }
        }
        lemma_count_updater_two(cs, top, i, i);
        if count_updater_rank(cs, top) >= 2 {
            lemma_updater_count_at_most_one(cs, top, i);
        }
        lemma_first_updater(cs, top, i);
    }
    if updater_rank_at(cs, i) >= 0 && (exists|j: int|
        0 <= j < cs.len() && j != i && updater_rank_at(cs, j) == updater_rank_at(cs, i)) && (forall|
        k: int,
    | 0 <= k < cs.len() ==> updater_rank_at(cs, k) <= updater_rank_at(cs, i)) {
        let j = choose|j: int|
            0 <= j < cs.len() && j != i && updater_rank_at(cs, j) == updater_rank_at(cs, i);
        assert(top == updater_rank_at(cs, i));
        lemma_count_updater_two(cs, top, i, j);
    }
    if resolved_updater(cs) is Some {
        lemma_first_updater_found(cs, top);
        let k = choose|k: int|
            0 <= k < cs.len() && cs[k].updater == first_updater_ranked(cs, top) && updater_rank_at(
                cs,
                k,
            ) == top;
        assert forall|j: int| 0 <= j < cs.len() && j != k implies updater_rank_at(cs, j) < top by {
            if updater_rank_at(cs, j) == top {
                lemma_count_updater_two(cs, top, k, j);
            }
        }
    }
}

proof fn lemma_updater_count_at_most_one(cs: Seq<ManagerClaims>, r: int, i: int)
    requires
        0 <= i < cs.len(),
        forall|j: int| 0 <= j < cs.len() && j != i ==> updater_rank_at(cs, j) != r,
    ensures
        count_updater_rank(cs, r) <= 1,
    decreases cs.len(),
{
    if cs.len() > 0 {
        let p = cs.drop_last();
        if i < cs.len() - 1 {
            assert forall|j: int| 0 <= j < p.len() && j != i implies updater_rank_at(p, j) != r by {
                assert(updater_rank_at(p, j) == updater_rank_at(cs, j));
            }
            lemma_updater_count_at_most_one(p, r, i);
        } else {
            assert forall|j: int| 0 <= j < p.len() implies updater_rank_at(p, j) != r by {
                assert(updater_rank_at(p, j) == updater_rank_at(cs, j));
            }
            lemma_updater_count_zero(p, r);
        }
    }
}

proof fn lemma_updater_count_zero(cs: Seq<ManagerClaims>, r: int)
    requires
        forall|j: int| 0 <= j < cs.len() ==> updater_rank_at(cs, j) != r,
    ensures
        count_updater_rank(cs, r) == 0,
    decreases cs.len(),
{
    if cs.len() > 0 {
        let p = cs.drop_last();
        assert forall|j: int| 0 <= j < p.len() implies updater_rank_at(p, j) != r by {
            assert(updater_rank_at(p, j) == updater_rank_at(cs, j));
        }
        lemma_updater_count_zero(p, r);
    }
}

proof fn lemma_first_updater_found(cs: Seq<ManagerClaims>, r: int)
    requires
        first_updater_ranked(cs, r) is Some,
    ensures
        exists|k: int|
            0 <= k < cs.len() && cs[k].updater == first_updater_ranked(cs, r) && updater_rank_at(cs, k)
                == r,
    decreases cs.len(),
{
    let p = cs.drop_last();
    if first_updater_ranked(p, r) is Some {
        lemma_first_updater_found(p, r);
        let k = choose|k: int|
            0 <= k < p.len() && p[k].updater == first_updater_ranked(p, r) && updater_rank_at(p, k)
                == r;
        assert(cs[k] == p[k]);
        assert(updater_rank_at(cs, k) == updater_rank_at(p, k));
    } else {
        let k = cs.len() - 1;
        assert(cs[k].updater == first_updater_ranked(cs, r));
        assert(updater_rank_at(cs, k) == r);
    }
}

/// Independence of source and updater: the resolved updater depends only on the updater
/// claims, so an unknown or ambiguous source never blocks a unique updater.
pub proof fn law_updater_ignores_sources(a: Seq<ManagerClaims>, b: Seq<ManagerClaims>)
    requires
        a.len() == b.len(),
        forall|i: int| 0 <= i < a.len() ==> a[i].updater == b[i].updater,
    ensures
        resolved_updater(a) == resolved_updater(b),
{
    lemma_updater_entries_agree(a, b);
    let ta = top_rank(all_entries(a), "updater"@);
    lemma_first_updater_agree(a, b, ta);
}

proof fn lemma_updater_entries_agree(a: Seq<ManagerClaims>, b: Seq<ManagerClaims>)
    requires
        a.len() == b.len(),
        forall|i: int| 0 <= i < a.len() ==> a[i].updater == b[i].updater,
    ensures
        top_rank(all_entries(a), "updater"@) == top_rank(all_entries(b), "updater"@),
        forall|r: int|
            entries_ranked(all_entries(a), "updater"@, r).len() == entries_ranked(
                all_entries(b),
                "updater"@,
                r,
            ).len(),
    decreases a.len(),
{
    if a.len() > 0 {
        let pa = a.drop_last();
        let pb = b.drop_last();
        lemma_updater_entries_agree(pa, pb);
        lemma_top_rank_concat(all_entries(pa), claim_entries(a.last()), "updater"@);
        lemma_top_rank_concat(all_entries(pb), claim_entries(b.last()), "updater"@);
        lemma_claim_entries(a.last(), 0);
        lemma_claim_entries(b.last(), 0);
        assert forall|r: int|
            entries_ranked(all_entries(a), "updater"@, r).len() == entries_ranked(
                all_entries(b),
                "updater"@,
                r,
            ).len() by {
            lemma_entries_ranked_concat(all_entries(pa), claim_entries(a.last()), "updater"@, r);
            lemma_entries_ranked_concat(all_entries(pb), claim_entries(b.last()), "updater"@, r);
            lemma_kind_entries_len(a.last(), b.last(), r);
        }
    }
}

proof fn lemma_kind_entries_len(x: ManagerClaims, y: ManagerClaims, r: int)
    requires
        x.updater == y.updater,
    ensures
        entries_ranked(claim_entries(x), "updater"@, r).len() == entries_ranked(
            claim_entries(y),
            "updater"@,
            r,
        ).len(),
{
    lemma_kinds_differ();
    reveal_with_fuel(entries_ranked, 3);
    let ex = claim_entries(x);
    let ey = claim_entries(y);
    let empty = Seq::<EvidenceView>::empty();
    match x.source {
        Some(s) => {
            match x.updater {
                Some(u) => {
                    assert(ex.drop_last() =~= seq![ex[0]]);
                    assert(seq![ex[0]].drop_last() =~= empty);
                },
                None => {
                    assert(ex.drop_last() =~= empty);
                },
            }
        },
        None => {
            match x.updater {
                Some(u) => {
                    assert(ex.drop_last() =~= empty);
                },
                None => {},
            }
        },
    }
    match y.source {
        Some(s) => {
            match y.updater {
                Some(u) => {
                    assert(ey.drop_last() =~= seq![ey[0]]);
                    assert(seq![ey[0]].drop_last() =~= empty);
                },
                None => {
                    assert(ey.drop_last() =~= empty);
                },
            }
        },
        None => {
            match y.updater {
                Some(u) => {
                    assert(ey.drop_last() =~= empty);
                },
                None => {},
            }
        },
    }
}

proof fn lemma_first_updater_agree(a: Seq<ManagerClaims>, b: Seq<ManagerClaims>, r: int)
    requires
        a.len() == b.len(),
        forall|i: int| 0 <= i < a.len() ==> a[i].updater == b[i].updater,
    ensures
        first_updater_ranked(a, r) == first_updater_ranked(b, r),
    decreases a.len(),
{
    if a.len() > 0 {
        lemma_first_updater_agree(a.drop_last(), b.drop_last(), r);
    }
}


/// The source claims at rank `r`, in input order.
pub open spec fn sources_at(cs: Seq<ManagerClaims>, r: int) -> Seq<SourceClaim>
    decreases cs.len(),
{
    if cs.len() == 0 {
        Seq::empty()
    } else {
        sources_at(cs.drop_last(), r) + match cs.last().source {
            Some(s) => if rank(s.confidence) == r {
                seq![s]
            } else {
                Seq::empty()
            },
            None => Seq::empty(),
        }
    }
}

/// The updater claims at rank `r`, in input order.
pub open spec fn updaters_at(cs: Seq<ManagerClaims>, r: int) -> Seq<UpdaterClaim>
    decreases cs.len(),
{
    if cs.len() == 0 {
        Seq::empty()
    } else {
        updaters_at(cs.drop_last(), r) + match cs.last().updater {
            Some(u) => if rank(u.confidence) == r {
                seq![u]
            } else {
                Seq::empty()
            },
            None => Seq::empty(),
        }
    }
}

/// The highest rank of a source claim, or -1 where there is none.
pub open spec fn source_top(cs: Seq<ManagerClaims>) -> int
    decreases cs.len(),
{
    if cs.len() == 0 {
        -1
    } else {
        let prev = source_top(cs.drop_last());
        match cs.last().source {
            Some(s) => if rank(s.confidence) > prev {
                rank(s.confidence)
            } else {
                prev
            },
            None => prev,
        }
    }
}

/// The highest rank of an updater claim, or -1 where there is none.
pub open spec fn updater_top(cs: Seq<ManagerClaims>) -> int
    decreases cs.len(),
{
    if cs.len() == 0 {
        -1
    } else {
        let prev = updater_top(cs.drop_last());
        match cs.last().updater {
            Some(u) => if rank(u.confidence) > prev {
                rank(u.confidence)
            } else {
                prev
            },
            None => prev,
        }
    }
}

/// How many claims, sources and updaters, the managers made.
pub open spec fn claim_count(cs: Seq<ManagerClaims>) -> int
    decreases cs.len(),
{
    if cs.len() == 0 {
        0
    } else {
        claim_count(cs.drop_last()) + (if cs.last().source is Some {
            1int
        } else {
            0
        }) + (if cs.last().updater is Some {
            1int
        } else {
            0
        })
    }
}

/// The entries of all claims, counted, ranked and ordered as the claims themselves.
proof fn lemma_entries_match_claims(cs: Seq<ManagerClaims>, r: int)
    ensures
        top_rank(all_entries(cs), "source"@) == source_top(cs),
        top_rank(all_entries(cs), "updater"@) == updater_top(cs),
        entries_ranked(all_entries(cs), "source"@, r).len() == sources_at(cs, r).len(),
        entries_ranked(all_entries(cs), "updater"@, r).len() == updaters_at(cs, r).len(),
        all_entries(cs).len() == claim_count(cs),
    decreases cs.len(),
{
    lemma_kinds_differ();
    if cs.len() > 0 {
        let rest = cs.drop_last();
        let c = cs.last();
        let x = claim_entries(c);
        lemma_entries_match_claims(rest, r);
        lemma_top_rank_concat(all_entries(rest), x, "source"@);
        lemma_top_rank_concat(all_entries(rest), x, "updater"@);
        lemma_entries_ranked_concat(all_entries(rest), x, "source"@, r);
        lemma_entries_ranked_concat(all_entries(rest), x, "updater"@, r);
        let sx: Seq<EvidenceView> = match c.source {
            Some(s) => seq![
                EvidenceView {
                    claim: "source"@,
                    id: s.source@,
                    confidence: s.confidence,
                    evidence: s.evidence@,
                },
            ],
            None => Seq::empty(),
        };
        let ux: Seq<EvidenceView> = match c.updater {
            Some(u) => seq![
                EvidenceView {
                    claim: "updater"@,
                    id: u.manager@,
                    confidence: u.confidence,
                    evidence: u.evidence@,
                },
            ],
            None => Seq::empty(),
        };
        assert(x == sx + ux);
        lemma_top_rank_concat(sx, ux, "source"@);
        lemma_top_rank_concat(sx, ux, "updater"@);
        lemma_entries_ranked_concat(sx, ux, "source"@, r);
        lemma_entries_ranked_concat(sx, ux, "updater"@, r);
        if sx.len() > 0 {
            assert(sx.drop_last() =~= Seq::<EvidenceView>::empty());
        }
        if ux.len() > 0 {
            assert(ux.drop_last() =~= Seq::<EvidenceView>::empty());
        }
        let s_top: int = match c.source {
            Some(s) => rank(s.confidence),
            None => -1,
        };
        let u_top: int = match c.updater {
            Some(u) => rank(u.confidence),
            None => -1,
        };
        assert(top_rank(Seq::<EvidenceView>::empty(), "source"@) == -1);
        assert(top_rank(Seq::<EvidenceView>::empty(), "updater"@) == -1);
        assert(top_rank(sx, "source"@) == s_top);
        assert(top_rank(ux, "source"@) == -1);
        assert(top_rank(sx, "updater"@) == -1);
        assert(top_rank(ux, "updater"@) == u_top);
        assert(top_rank(x, "source"@) == s_top);
        assert(top_rank(x, "updater"@) == u_top);
        assert(entries_ranked(Seq::<EvidenceView>::empty(), "source"@, r).len() == 0);
        assert(entries_ranked(Seq::<EvidenceView>::empty(), "updater"@, r).len() == 0);
        assert(entries_ranked(sx, "source"@, r).len() == sources_at(cs, r).len() - sources_at(rest, r).len());
        assert(entries_ranked(ux, "source"@, r).len() == 0);
        assert(entries_ranked(sx, "updater"@, r).len() == 0);
        assert(entries_ranked(ux, "updater"@, r).len() == updaters_at(cs, r).len() - updaters_at(rest, r).len());
        assert(all_entries(cs) == all_entries(rest) + x);
    }
}

proof fn lemma_first_ranked(cs: Seq<ManagerClaims>, r: int)
    ensures
        first_source_ranked(cs, r) == (if sources_at(cs, r).len() > 0 {
            Some(sources_at(cs, r)[0])
        } else {
            None
        }),
        first_updater_ranked(cs, r) == (if updaters_at(cs, r).len() > 0 {
            Some(updaters_at(cs, r)[0])
        } else {
            None
        }),
    decreases cs.len(),
{
    if cs.len() > 0 {
        lemma_first_ranked(cs.drop_last(), r);
    }
}

/// How claims resolve: among the source claims, in input order, those of the highest
/// confidence decide the source, which is that claim where it is the only one and nothing where
/// two or more tie; the updater is resolved the same way from the updater claims. The evidence
/// holds every claim, and the conflicts hold the tied claims of each kind that tied.
pub proof fn law_resolve_claims_by_top_confidence(cs: Seq<ManagerClaims>)
    ensures
        resolved_source(cs) == (if sources_at(cs, source_top(cs)).len() == 1 {
            Some(sources_at(cs, source_top(cs))[0])
        } else {
            None
        }),
        resolved_updater(cs) == (if updaters_at(cs, updater_top(cs)).len() == 1 {
            Some(updaters_at(cs, updater_top(cs))[0])
        } else {
            None
        }),
        all_entries(cs).len() == claim_count(cs),
        conflict_entries(cs).len() == (if sources_at(cs, source_top(cs)).len() > 1 {
            sources_at(cs, source_top(cs)).len() as int
        } else {
            0
        }) + (if updaters_at(cs, updater_top(cs)).len() > 1 {
            updaters_at(cs, updater_top(cs)).len() as int
        } else {
            0
        }),
{
    lemma_entries_match_claims(cs, source_top(cs));
    lemma_entries_match_claims(cs, updater_top(cs));
    lemma_first_ranked(cs, source_top(cs));
    lemma_first_ranked(cs, updater_top(cs));
}

} // verus!
