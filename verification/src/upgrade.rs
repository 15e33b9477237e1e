//! Selecting which tool reports may be upgraded.
use crate::text::concat3;
use crate::copy::Duplicate;
use crate::reports::{ReportView, ToolReport, ToolStatus};
use vstd::prelude::*;

verus! {

/// Whether a report may be upgraded: it is outdated and has an update action.
pub open spec fn is_candidate(v: ReportView) -> bool {
    v.status == ToolStatus::Outdated && v.update is Some
}

/// The upgradeable reports, in order.
pub open spec fn candidates(rs: Seq<ReportView>) -> Seq<ReportView>
    decreases rs.len(),
{
    if rs.len() == 0 {
        Seq::empty()
    } else if is_candidate(rs.last()) {
        candidates(rs.drop_last()).push(rs.last())
    } else {
        candidates(rs.drop_last())
    }
}

/// Whether a target names a report, by identifier or by name.
pub open spec fn names(v: ReportView, target: Seq<char>) -> bool {
    v.id == target || v.name == target
}

/// Whether some target names a report.
pub open spec fn requested(v: ReportView, targets: Seq<Seq<char>>) -> bool {
    exists|i: int| 0 <= i < targets.len() && names(v, targets[i])
}

/// The upgradeable reports that some target names, in order.
pub open spec fn selection(rs: Seq<ReportView>, targets: Seq<Seq<char>>) -> Seq<ReportView>
    decreases rs.len(),
{
    if rs.len() == 0 {
        Seq::empty()
    } else if is_candidate(rs.last()) && requested(rs.last(), targets) {
        selection(rs.drop_last(), targets).push(rs.last())
    } else {
        selection(rs.drop_last(), targets)
    }
}

/// Why a list of upgrade targets was refused.
#[derive(Debug, PartialEq, Eq)]
pub enum TargetError {
    /// The target names a tool that is not installed.
    NotInstalled(String),
    /// The target names no upgradeable report.
    NotActionable(String),
}

/// A refused target as plain values.
pub enum TargetErrorView {
    NotInstalled(Seq<char>),
    NotActionable(Seq<char>),
}

impl View for TargetError {
    type V = TargetErrorView;

    open spec fn view(&self) -> TargetErrorView {
        match self {
            TargetError::NotInstalled(t) => TargetErrorView::NotInstalled(t@),
            TargetError::NotActionable(t) => TargetErrorView::NotActionable(t@),
        }
    }
}

impl TargetError {
    /// The message shown for this error.
    pub fn message(&self) -> (r: String)
        ensures
            r@ == target_error_message(self@),
    {
        match self {
            TargetError::NotInstalled(t) => concat3(
                "target `",
                t.as_str(),
                "` is not installed; upgrade does not install missing tools",
            ),
            TargetError::NotActionable(t) => concat3(
                "target `",
                t.as_str(),
                "` is not actionable or was not found",
            ),
        }
    }
}

/// The message shown for a refused target.
pub open spec fn target_error_message(e: TargetErrorView) -> Seq<char> {
    match e {
        TargetErrorView::NotInstalled(t) => "target `"@ + t
            + "` is not installed; upgrade does not install missing tools"@,
        TargetErrorView::NotActionable(t) => "target `"@ + t + "` is not actionable or was not found"@,
    }
}

/// The first refused target, checking targets in order: a target that names a missing tool is
/// not installed; a target that names no upgradeable report is not actionable.
pub open spec fn first_refusal(rs: Seq<ReportView>, targets: Seq<Seq<char>>, k: int) -> Option<
    TargetErrorView,
>
    decreases targets.len() - k,
{
    if k < 0 || k >= targets.len() {
        None
    } else if exists|i: int|
        0 <= i < rs.len() && names(rs[i], targets[k]) && rs[i].status == ToolStatus::Missing {
        Some(TargetErrorView::NotInstalled(targets[k]))
    } else if !(exists|i: int| 0 <= i < rs.len() && is_candidate(rs[i]) && names(rs[i], targets[k])) {
        Some(TargetErrorView::NotActionable(targets[k]))
    } else {
        first_refusal(rs, targets, k + 1)
    }
}

fn report_names(r: &ToolReport, target: &String) -> (b: bool)
    ensures
        b == names(r.deep_view(), target@),
{
    r.id == *target || r.name == *target
}

fn report_is_candidate(r: &ToolReport) -> (b: bool)
    ensures
        b == is_candidate(r.deep_view()),
{
    r.status == ToolStatus::Outdated && r.update.is_some()
}

/// The reports that are outdated and have an update action; missing, current, unmanaged and
/// failed reports never qualify.
pub fn upgrade_candidates(reports: &Vec<ToolReport>) -> (r: Vec<ToolReport>)
    ensures
        r.deep_view() == candidates(reports.deep_view()),
{
    let mut out: Vec<ToolReport> = Vec::new();
    let mut i: usize = 0;
    while i < reports.len()
        invariant
            i <= reports@.len(),
            out.deep_view() =~= candidates(reports.deep_view().subrange(0, i as int)),
        decreases reports.len() - i,
    {
        proof {
            assert(reports.deep_view().subrange(0, i + 1).drop_last() =~= reports.deep_view().subrange(
                0,
                i as int,
            ));
        }
        if report_is_candidate(&reports[i]) {
            out.push(reports[i].duplicate());
        }
        i = i + 1;
    }
    proof {
        assert(reports.deep_view().subrange(0, reports@.len() as int) =~= reports.deep_view());
    }
    out
}

fn some_target_names(r: &ToolReport, targets: &Vec<String>) -> (b: bool)
    ensures
        b == requested(r.deep_view(), targets.deep_view()),
{
    let mut i: usize = 0;
    while i < targets.len()
        invariant
            i <= targets@.len(),
            forall|k: int| 0 <= k < i ==> !names(r.deep_view(), targets.deep_view()[k]),
        decreases targets.len() - i,
    {
        if report_names(r, &targets[i]) {
            assert(names(r.deep_view(), targets.deep_view()[i as int]));
            return true;
        }
        i = i + 1;
    }
    false
}

/// The upgradeable reports that the targets name, or the first target that is refused.
///
/// Targets are checked in order. A target that names a missing tool is refused as not
/// installed, since upgrade never installs a tool; a target that names no upgradeable report
/// is refused as not actionable.
pub fn resolve_targets(reports: &Vec<ToolReport>, targets: &Vec<String>) -> (r: Result<
    Vec<ToolReport>,
    TargetError,
>)
    ensures
        match first_refusal(reports.deep_view(), targets.deep_view(), 0) {
            Some(e) => r matches Err(x) && x@ == e,
            None => r matches Ok(sel) && sel.deep_view() == selection(
                reports.deep_view(),
                targets.deep_view(),
            ),
        },
{
    let ghost rs = reports.deep_view();
    let ghost ts = targets.deep_view();
    let mut k: usize = 0;
    while k < targets.len()
        invariant
            rs == reports.deep_view(),
            ts == targets.deep_view(),
            k <= ts.len(),
            first_refusal(rs, ts, 0) == first_refusal(rs, ts, k as int),
        decreases targets.len() - k,
    {
        let target = &targets[k];
        let mut missing = false;
        let mut actionable = false;
        let mut i: usize = 0;
        while i < reports.len()
            invariant
                rs == reports.deep_view(),
                ts == targets.deep_view(),
                k < ts.len(),
                target@ == ts[k as int],
                i <= rs.len(),
                missing == exists|j: int|
                    0 <= j < i && names(rs[j], ts[k as int]) && rs[j].status == ToolStatus::Missing,
                actionable == exists|j: int|
                    0 <= j < i && is_candidate(rs[j]) && names(rs[j], ts[k as int]),
            decreases reports.len() - i,
        {
            let named = report_names(&reports[i], target);
            let ghost v = rs[i as int];
            assert(v == reports@[i as int].deep_view());
            let ghost old_missing = missing;
            let ghost old_actionable = actionable;
            if named && reports[i].status == ToolStatus::Missing {
                missing = true;
            }
            if named && report_is_candidate(&reports[i]) {
                actionable = true;
            }
            proof {
                let t = ts[k as int];
                assert(missing == ((exists|j: int|
                    0 <= j < i && names(rs[j], t) && rs[j].status == ToolStatus::Missing) || (names(
                    v,
                    t,
                ) && v.status == ToolStatus::Missing)));
                assert((exists|j: int|
                    0 <= j < i + 1 && names(rs[j], t) && rs[j].status == ToolStatus::Missing) == ((
                exists|j: int|
                    0 <= j < i && names(rs[j], t) && rs[j].status == ToolStatus::Missing) || (names(
                    v,
                    t,
                ) && v.status == ToolStatus::Missing))) by {
                    if names(v, t) && v.status == ToolStatus::Missing {
                        assert(0 <= i < i + 1 && names(rs[i as int], t) && rs[i as int].status
                            == ToolStatus::Missing);
                    }
                }
                assert((exists|j: int| 0 <= j < i + 1 && is_candidate(rs[j]) && names(rs[j], t)) == ((
                exists|j: int| 0 <= j < i && is_candidate(rs[j]) && names(rs[j], t)) || (
                is_candidate(v) && names(v, t)))) by {
                    if is_candidate(v) && names(v, t) {
                        assert(0 <= i < i + 1 && is_candidate(rs[i as int]) && names(
                            rs[i as int],
                            t,
                        ));
                    }
                }
            }
            i = i + 1;
        }
        if missing {
            return Err(TargetError::NotInstalled(target.clone()));
        }
        if !actionable {
            return Err(TargetError::NotActionable(target.clone()));
        }
        k = k + 1;
    }
    let mut selected: Vec<ToolReport> = Vec::new();
    let mut i: usize = 0;
    while i < reports.len()
        invariant
            rs == reports.deep_view(),
            ts == targets.deep_view(),
            i <= rs.len(),
            selected.deep_view() =~= selection(rs.subrange(0, i as int), ts),
        decreases reports.len() - i,
    {
        proof {
            assert(rs.subrange(0, i + 1).drop_last() =~= rs.subrange(0, i as int));
        }
        if report_is_candidate(&reports[i]) && some_target_names(&reports[i], targets) {
            selected.push(reports[i].duplicate());
        }
        i = i + 1;
    }
    proof {
        assert(rs.subrange(0, rs.len() as int) =~= rs);
    }
    Ok(selected)
}

/// Upgrade selection: what `resolve_targets` selects is exactly the reports that are outdated,
/// have an update action and are named by a target; in particular a missing tool is never
/// selected.
pub proof fn law_selection_is_exactly_requested_candidates(
    rs: Seq<ReportView>,
    ts: Seq<Seq<char>>,
)
    ensures
        forall|i: int|
            0 <= i < selection(rs, ts).len() ==> is_candidate(#[trigger] selection(rs, ts)[i])
                && requested(selection(rs, ts)[i], ts) && selection(rs, ts)[i].status
                != ToolStatus::Missing,
        forall|i: int|
            0 <= i < rs.len() && is_candidate(rs[i]) && requested(rs[i], ts) ==> selection(
                rs,
                ts,
            ).contains(#[trigger] rs[i]),
        forall|i: int|
            0 <= i < selection(rs, ts).len() ==> rs.contains(#[trigger] selection(rs, ts)[i]),
    decreases rs.len(),
{
    if rs.len() > 0 {
        let p = rs.drop_last();
        law_selection_is_exactly_requested_candidates(p, ts);
        let sp = selection(p, ts);
        assert forall|i: int| 0 <= i < rs.len() && is_candidate(rs[i]) && requested(
            rs[i],
            ts,
        ) implies selection(rs, ts).contains(#[trigger] rs[i]) by {
            if i < rs.len() - 1 {
                assert(rs[i] == p[i]);
                let j = choose|j: int| 0 <= j < sp.len() && sp[j] == p[i];
                if is_candidate(rs.last()) && requested(rs.last(), ts) {
                    assert(sp.push(rs.last())[j] == p[i]);
                }
            } else {
                assert(selection(rs, ts).last() == rs[i]);
            }
        }
        assert forall|i: int| 0 <= i < selection(rs, ts).len() implies rs.contains(
            #[trigger] selection(rs, ts)[i],
        ) by {
            if i < sp.len() {
                assert(selection(rs, ts)[i] == sp[i]);
                let j = choose|j: int| 0 <= j < p.len() && p[j] == sp[i];
                assert(rs[j] == p[j]);
            } else {
                assert(selection(rs, ts)[i] == rs[rs.len() - 1]);
            }
        }
    }
}

/// Upgrade targets are all honoured: when no target is refused, every target names some selected
/// report.
pub proof fn law_accepted_targets_are_covered(rs: Seq<ReportView>, ts: Seq<Seq<char>>)
    requires
        first_refusal(rs, ts, 0) is None,
    ensures
        forall|k: int|
            0 <= k < ts.len() ==> exists|j: int|
                0 <= j < selection(rs, ts).len() && names(selection(rs, ts)[j], #[trigger] ts[k]),
{
    assert forall|k: int| 0 <= k < ts.len() implies exists|j: int|
        0 <= j < selection(rs, ts).len() && names(selection(rs, ts)[j], #[trigger] ts[k]) by {
        lemma_refusal_none_from(rs, ts, 0, k);
        let i = choose|i: int| 0 <= i < rs.len() && is_candidate(rs[i]) && names(rs[i], ts[k]);
        assert(requested(rs[i], ts));
        law_selection_is_exactly_requested_candidates(rs, ts);
        assert(selection(rs, ts).contains(rs[i]));
        let j = choose|j: int| 0 <= j < selection(rs, ts).len() && selection(rs, ts)[j] == rs[i];
        assert(names(selection(rs, ts)[j], ts[k]));
    }
}

proof fn lemma_refusal_none_from(rs: Seq<ReportView>, ts: Seq<Seq<char>>, from: int, k: int)
    requires
        0 <= from <= k < ts.len(),
        first_refusal(rs, ts, from) is None,
    ensures
        exists|i: int| 0 <= i < rs.len() && is_candidate(rs[i]) && names(rs[i], ts[k]),
    decreases k - from,
{
    if from < k {
        lemma_refusal_none_from(rs, ts, from + 1, k);
    }
}


/// A report is among the upgradeable ones exactly when it is one of the reports and may be
/// upgraded.
proof fn lemma_candidates_contain(rs: Seq<ReportView>, v: ReportView)
    ensures
        candidates(rs).contains(v) <==> (is_candidate(v) && rs.contains(v)),
    decreases rs.len(),
{
    if rs.len() > 0 {
        let rest = rs.drop_last();
        lemma_candidates_contain(rest, v);
        assert(rs =~= rest.push(rs.last()));
        if is_candidate(rs.last()) {
            assert(candidates(rs) == candidates(rest).push(rs.last()));
            if candidates(rs).contains(v) && v != rs.last() {
                let j = choose|j: int| 0 <= j < candidates(rs).len() && candidates(rs)[j] == v;
                assert(candidates(rest)[j] == v);
            }
            if rs.contains(v) && v != rs.last() {
                let j = choose|j: int| 0 <= j < rs.len() && rs[j] == v;
                assert(rest[j] == v);
            }
            if rest.contains(v) {
                let j = choose|j: int| 0 <= j < rest.len() && rest[j] == v;
                assert(rs[j] == v);
            }
            if candidates(rest).contains(v) {
                let j = choose|j: int| 0 <= j < candidates(rest).len() && candidates(rest)[j] == v;
                assert(candidates(rs)[j] == v);
            }
            assert(candidates(rs)[candidates(rs).len() - 1] == rs.last());
            assert(rs[rs.len() - 1] == rs.last());
        } else {
            if rs.contains(v) && v != rs.last() {
                let j = choose|j: int| 0 <= j < rs.len() && rs[j] == v;
                assert(rest[j] == v);
            }
            if rest.contains(v) {
                let j = choose|j: int| 0 <= j < rest.len() && rest[j] == v;
                assert(rs[j] == v);
            }
        }
    }
}

/// The targets from index `k` on are all accepted exactly when none names a missing tool and
/// each names an upgradeable report.
proof fn lemma_no_refusal(rs: Seq<ReportView>, targets: Seq<Seq<char>>, k: int)
    requires
        0 <= k <= targets.len(),
    ensures
        first_refusal(rs, targets, k) is None <==> forall|t: int|
            k <= t < targets.len() ==> target_accepted(rs, #[trigger] targets[t]),
    decreases targets.len() - k,
{
    if k < targets.len() {
        lemma_no_refusal(rs, targets, k + 1);
        let t = targets[k];
        assert(target_accepted(rs, t) <==> (!(exists|i: int|
            0 <= i < rs.len() && names(rs[i], t) && rs[i].status == ToolStatus::Missing) && (exists|
            i: int,
        | 0 <= i < rs.len() && is_candidate(rs[i]) && names(rs[i], t)))) by {
            if exists|j: int| 0 <= j < candidates(rs).len() && names(candidates(rs)[j], t) {
                let j = choose|j: int| 0 <= j < candidates(rs).len() && names(candidates(rs)[j], t);
                lemma_candidates_contain(rs, candidates(rs)[j]);
                assert(candidates(rs).contains(candidates(rs)[j]));
                let i = choose|i: int| 0 <= i < rs.len() && rs[i] == candidates(rs)[j];
                assert(is_candidate(rs[i]) && names(rs[i], t));
            }
            if exists|i: int| 0 <= i < rs.len() && is_candidate(rs[i]) && names(rs[i], t) {
                let i = choose|i: int| 0 <= i < rs.len() && is_candidate(rs[i]) && names(rs[i], t);
                lemma_candidates_contain(rs, rs[i]);
                assert(rs.contains(rs[i]));
                let j = choose|j: int| 0 <= j < candidates(rs).len() && candidates(rs)[j] == rs[i];
                assert(names(candidates(rs)[j], t));
            }
        }
        if !target_accepted(rs, t) {
            assert(!(forall|u: int| k <= u < targets.len() ==> target_accepted(rs, #[trigger] targets[u])));
        }
    }
}

/// Whether a target is accepted: it names no missing tool and names an upgradeable report.
pub open spec fn target_accepted(rs: Seq<ReportView>, t: Seq<char>) -> bool {
    &&& !(exists|i: int| 0 <= i < rs.len() && names(rs[i], t) && rs[i].status == ToolStatus::Missing)
    &&& exists|j: int| 0 <= j < candidates(rs).len() && names(candidates(rs)[j], t)
}

/// The selection is the upgradeable reports, in order, filtered to those some target names.
proof fn lemma_selection_filters(rs: Seq<ReportView>, targets: Seq<Seq<char>>)
    ensures
        selection(rs, targets) == candidates(rs).filter(|c: ReportView| requested(c, targets)),
    decreases rs.len(),
{
    reveal(Seq::filter);
    if rs.len() > 0 {
        lemma_selection_filters(rs.drop_last(), targets);
        let c = candidates(rs.drop_last());
        if is_candidate(rs.last()) {
            assert(c.push(rs.last()).drop_last() =~= c);
        }
    }
}

/// Upgrade targets are accepted exactly when every target names no missing tool and names an
/// upgradeable report; the accepted selection is the upgradeable reports, in their order,
/// that some target names. A missing tool is never selected.
pub proof fn law_resolve_targets_filters_candidates(rs: Seq<ReportView>, targets: Seq<Seq<char>>)
    ensures
        first_refusal(rs, targets, 0) is None <==> forall|t: int|
            0 <= t < targets.len() ==> target_accepted(rs, #[trigger] targets[t]),
        selection(rs, targets) == candidates(rs).filter(|c: ReportView| requested(c, targets)),
        forall|j: int| 0 <= j < selection(rs, targets).len() ==> (#[trigger] selection(rs, targets)[j]).status
            != ToolStatus::Missing,
{
    lemma_no_refusal(rs, targets, 0);
    lemma_selection_filters(rs, targets);
    let sel = selection(rs, targets);
    assert forall|j: int| 0 <= j < sel.len() implies (#[trigger] sel[j]).status != ToolStatus::Missing by {
        reveal(Seq::filter);
        candidates(rs).lemma_filter_contains_rev(|c: ReportView| requested(c, targets), sel[j]);
        assert(sel.contains(sel[j]));
        lemma_candidates_contain(rs, sel[j]);
    }
}


/// The reports that some target names, in order.
pub open spec fn named_in(rs: Seq<ReportView>, targets: Seq<Seq<char>>) -> Seq<ReportView>
    decreases rs.len(),
{
    if rs.len() == 0 {
        Seq::empty()
    } else if requested(rs.last(), targets) {
        named_in(rs.drop_last(), targets).push(rs.last())
    } else {
        named_in(rs.drop_last(), targets)
    }
}

/// The reports a diagnosis shows: every report where no target is given, else the reports that
/// some target names by identifier or by name, in order.
pub fn doctor_reports(reports: &Vec<ToolReport>, targets: &Vec<String>) -> (r: Vec<ToolReport>)
    ensures
        targets@.len() == 0 ==> r.deep_view() == reports.deep_view(),
        targets@.len() > 0 ==> r.deep_view() == named_in(reports.deep_view(), targets.deep_view()),
{
    let mut out: Vec<ToolReport> = Vec::new();
    let mut i: usize = 0;
    while i < reports.len()
        invariant
            i <= reports@.len(),
            targets@.len() == 0 ==> out.deep_view() =~= reports.deep_view().subrange(0, i as int),
            targets@.len() > 0 ==> out.deep_view() =~= named_in(
                reports.deep_view().subrange(0, i as int),
                targets.deep_view(),
            ),
        decreases reports.len() - i,
    {
        proof {
            assert(reports.deep_view().subrange(0, i + 1).drop_last() =~= reports.deep_view().subrange(
                0,
                i as int,
            ));
        }
        if targets.len() == 0 || some_target_names(&reports[i], targets) {
            out.push(reports[i].duplicate());
        }
        i = i + 1;
    }
    proof {
        assert(reports.deep_view().subrange(0, reports@.len() as int) =~= reports.deep_view());
    }
    out
}

} // verus!
