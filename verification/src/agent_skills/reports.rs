//! The reports Beacon gives for Agent Skills, the commands that update them, and how an
//! update is confirmed.
use super::{identity_text, package_args, runner_name, Capability};
use crate::command::{owned, views, CommandSpec};
use crate::providers::managers::{components, path_under};
use crate::providers::snapshot::{join_path, path_join};
use crate::providers::{
    verify_versions, Comparison, ManagerId, TargetMode, ToolVersion, UpgradeAction,
};
use crate::redact::{opt_str_view, redact, redacted};
use crate::reports::{
    scope_name, InventoryChange, InventoryReport, InventoryRuntime, ResourceScope, ToolStatus,
};
use crate::sorting::{arrange, stable_order_by_text, stably_sorted_by_text};
use crate::text::{char_rows, chars_of, concat3, concat_str, str_eq, string_from_chars};
use vstd::prelude::*;

verus! {

/// The identifier of a skill's report: its scope and name.
pub open spec fn skill_id_text(scope: ResourceScope, name: Seq<char>) -> Seq<char> {
    "skill:"@ + scope_name(scope) + ":"@ + name
}

/// A skill name is unique only within its scope: two skill reports have the same identifier
/// only where both the scope and the name are the same.
pub proof fn law_skill_ids_distinguish_scopes(
    a: ResourceScope,
    name_a: Seq<char>,
    b: ResourceScope,
    name_b: Seq<char>,
)
    ensures
        skill_id_text(a, name_a) == skill_id_text(b, name_b) <==> (a == b && name_a == name_b),
{
    reveal_strlit("skill:");
    reveal_strlit(":");
    reveal_strlit("system");
    reveal_strlit("global");
    reveal_strlit("project");
    let x = skill_id_text(a, name_a);
    let y = skill_id_text(b, name_b);
    if x == y {
        assert(x[6] == y[6]);
        if a != b {
            assert(x[6] != y[6]);
        }
        let k: int = 7 + scope_name(a).len() as int;
        assert(name_a =~= x.subrange(k, x.len() as int));
        assert(name_b =~= y.subrange(k, y.len() as int));
    }
}

/// The identifier of a skill's report.
pub fn skill_id(scope: ResourceScope, name: &str) -> (r: String)
    ensures
        r@ == skill_id_text(scope, name@),
{
    let head = concat3("skill:", scope.as_str(), ":");
    concat_str(head.as_str(), name)
}

/// The text of an optional string.
pub open spec fn opt_text(o: Option<String>) -> Option<Seq<char>> {
    match o {
        Some(s) => Some(s@),
        None => None,
    }
}

/// A report with no versions, action, origin, changes or local facts.
pub open spec fn bare_report(r: InventoryReport) -> bool {
    &&& r.current is None
    &&& r.latest is None
    &&& r.action is None
    &&& r.installation_source is None
    &&& r.source_locator is None
    &&& r.changes@.len() == 0
    &&& r.runtime == InventoryRuntime::default_view()
}

impl InventoryRuntime {
    /// Local facts that say nothing.
    pub open spec fn default_view() -> InventoryRuntime {
        InventoryRuntime {
            canonical_path: None,
            receipt_path: None,
            project_root: None,
            manager_path: None,
            manager_version: None,
        }
    }
}

/// The report of a skill Beacon does not manage.
pub fn unmanaged_report(
    name: String,
    scope: ResourceScope,
    current: Option<ToolVersion>,
    detail: String,
) -> (r: InventoryReport)
    ensures
        r.id@ == skill_id_text(scope, name@),
        r.name == name,
        r.kind@ == "agent-skill"@,
        r.status == ToolStatus::Unmanaged,
        r.current == current,
        r.latest is None && r.action is None,
        r.detail == Some(detail),
        r.scope == scope,
        r.installation_source is None && r.source_locator is None && r.update_manager is None,
        r.changes@.len() == 0,
        r.runtime == InventoryRuntime::default_view(),
{
    InventoryReport {
        id: skill_id(scope, name.as_str()),
        name,
        kind: owned("agent-skill"),
        status: ToolStatus::Unmanaged,
        current,
        latest: None,
        action: None,
        detail: Some(detail),
        scope,
        installation_source: None,
        source_locator: None,
        update_manager: None,
        changes: Vec::new(),
        runtime: InventoryRuntime::default(),
    }
}

/// The single report given when no package runner can run the `skills` package.
pub fn manager_failure(detail: &str) -> (r: InventoryReport)
    ensures
        r.id@ == "skills"@,
        r.name@ == "Agent Skills"@,
        r.kind@ == "agent-skill-manager"@,
        r.status == ToolStatus::Failed,
        r.detail matches Some(d) && d@ == detail@
            + ". Install Node.js with npx or Bun with bunx, ensure the package runner can execute `skills@^1.5.18`, or disable the skills inventory"@,
        r.scope == ResourceScope::System,
        r.update_manager matches Some(m) && m@ == "skills"@,
        bare_report(r),
{
    InventoryReport {
        id: owned("skills"),
        name: owned("Agent Skills"),
        kind: owned("agent-skill-manager"),
        status: ToolStatus::Failed,
        current: None,
        latest: None,
        action: None,
        detail: Some(
            concat_str(
                detail,
                ". Install Node.js with npx or Bun with bunx, ensure the package runner can execute `skills@^1.5.18`, or disable the skills inventory",
            ),
        ),
        scope: ResourceScope::System,
        installation_source: None,
        source_locator: None,
        update_manager: Some(owned("skills")),
        changes: Vec::new(),
        runtime: InventoryRuntime::default(),
    }
}

/// The report given when a scope's skills or receipts cannot be read.
pub fn scope_failure(detail: String) -> (r: InventoryReport)
    ensures
        r.id@ == "skills:receipt"@,
        r.name@ == "Agent Skills receipt"@,
        r.kind@ == "agent-skill-manager"@,
        r.status == ToolStatus::Failed,
        r.detail == Some(detail),
        r.scope == ResourceScope::System,
        r.update_manager matches Some(m) && m@ == "skills"@,
        bare_report(r),
{
    InventoryReport {
        id: owned("skills:receipt"),
        name: owned("Agent Skills receipt"),
        kind: owned("agent-skill-manager"),
        status: ToolStatus::Failed,
        current: None,
        latest: None,
        action: None,
        detail: Some(detail),
        scope: ResourceScope::System,
        installation_source: None,
        source_locator: None,
        update_manager: Some(owned("skills")),
        changes: Vec::new(),
        runtime: InventoryRuntime::default(),
    }
}

/// A skill that may be checked for an update.
#[derive(Debug)]
pub struct Candidate {
    pub name: String,
    pub scope: ResourceScope,
    pub canonical_path: String,
    pub receipt_path: String,
    pub project_root: Option<String>,
    pub source: String,
    pub source_locator: Option<String>,
    pub current: ToolVersion,
    pub locally_modified: bool,
    pub local_detail: Option<String>,
}

/// The arguments of `skills update` for a skill in a scope.
pub open spec fn update_args_text(name: Seq<char>, scope: ResourceScope) -> Seq<Seq<char>> {
    seq![
        "update"@,
        name,
        if scope == ResourceScope::Global {
            "--global"@
        } else {
            "--project"@
        },
        "--yes"@,
    ]
}

/// The arguments of `skills update` for a skill in a global or project scope.
pub fn update_args(name: &str, scope: ResourceScope) -> (r: Vec<String>)
    requires
        scope != ResourceScope::System,
    ensures
        views(r@) == update_args_text(name@, scope),
{
    let mut out: Vec<String> = Vec::new();
    out.push(owned("update"));
    out.push(owned(name));
    if scope == ResourceScope::Global {
        out.push(owned("--global"));
    } else {
        out.push(owned("--project"));
    }
    out.push(owned("--yes"));
    assert(views(out@) =~= update_args_text(name@, scope));
    out
}

/// Whether `c` runs the update of a candidate through a capability, with telemetry disabled,
/// in the given directory where there is one, with the given environment.
pub open spec fn update_command(
    c: CommandSpec,
    cap: Capability,
    cand: Candidate,
    dir: Option<Seq<char>>,
) -> bool {
    &&& c.program@ == cap.runner_path@
    &&& views(c.args@) == package_args(cap.runner, update_args_text(cand.name@, cand.scope))
    &&& c.accepted_exit_codes@.len() == 0
    &&& opt_text(c.current_dir) == dir
    &&& c.removed_environment@.len() == 0
}

/// The update command for a candidate: run in its project root where it has one.
pub fn real_update_command(cand: &Candidate, cap: &Capability) -> (r: CommandSpec)
    requires
        cand.scope != ResourceScope::System,
    ensures
        update_command(r, *cap, *cand, opt_text(cand.project_root)),
        r.environment@.len() == 1,
        r.environment@[0].0@ == "DISABLE_TELEMETRY"@ && r.environment@[0].1@ == "1"@,
{
    let command = cap.command(&update_args(cand.name.as_str(), cand.scope));
    match &cand.project_root {
        Some(root) => command.in_directory(root.as_str()),
        None => command,
    }
}

/// The update command run against an isolated copy: the home and state directories point into
/// the copy, and a project skill is updated in the copied project.
pub fn sandbox_update_command(
    cand: &Candidate,
    cap: &Capability,
    temp_home: &str,
    temp_state: &str,
    temp_project: &str,
) -> (r: CommandSpec)
    requires
        cand.scope != ResourceScope::System,
    ensures
        update_command(
            r,
            *cap,
            *cand,
            if cand.scope == ResourceScope::Project {
                Some(temp_project@)
            } else {
                None
            },
        ),
        r.environment@.len() == 3,
        r.environment@[0].0@ == "DISABLE_TELEMETRY"@ && r.environment@[0].1@ == "1"@,
        r.environment@[1].0@ == "HOME"@ && r.environment@[1].1@ == temp_home@,
        r.environment@[2].0@ == "XDG_STATE_HOME"@ && r.environment@[2].1@ == temp_state@,
{
    let command = cap.command(&update_args(cand.name.as_str(), cand.scope));
    proof {
        reveal_strlit("DISABLE_TELEMETRY");
        reveal_strlit("HOME");
        reveal_strlit("XDG_STATE_HOME");
        let keys = crate::command::env_keys(command.environment@);
        assert(keys =~= seq!["DISABLE_TELEMETRY"@]);
        assert("DISABLE_TELEMETRY"@.len() != "HOME"@.len());
        assert(keys[0] != "HOME"@);
        assert(!keys.contains("HOME"@));
    }
    let ghost first = command.environment@;
    let command = command.with_environment("HOME", temp_home);
    proof {
        let env = command.environment@;
        assert(env[0] == first[0]);
        let keys = crate::command::env_keys(env);
        assert(keys =~= seq!["DISABLE_TELEMETRY"@, "HOME"@]);
        assert("DISABLE_TELEMETRY"@.len() != "XDG_STATE_HOME"@.len());
        assert("HOME"@.len() != "XDG_STATE_HOME"@.len());
        assert(keys[0] != "XDG_STATE_HOME"@);
        assert(keys[1] != "XDG_STATE_HOME"@);
        assert(!keys.contains("XDG_STATE_HOME"@));
    }
    let ghost second = command.environment@;
    let command = command.with_environment("XDG_STATE_HOME", temp_state);
    proof {
        assert(command.environment@[0] == second[0]);
        assert(command.environment@[1] == second[1]);
    }
    if cand.scope == ResourceScope::Project {
        command.in_directory(temp_project)
    } else {
        command
    }
}

/// The local facts a report of a checked candidate carries.
pub fn candidate_runtime(cand: &Candidate, cap: &Capability) -> (r: InventoryRuntime)
    ensures
        opt_text(r.canonical_path) == Some(cand.canonical_path@),
        opt_text(r.receipt_path) == Some(cand.receipt_path@),
        opt_text(r.project_root) == opt_text(cand.project_root),
        opt_text(r.manager_path) == Some(cap.runner_path@),
        opt_text(r.manager_version) == Some(identity_text(*cap)),
{
    InventoryRuntime {
        canonical_path: Some(cand.canonical_path.clone()),
        receipt_path: Some(cand.receipt_path.clone()),
        project_root: match &cand.project_root {
            Some(p) => Some(p.clone()),
            None => None,
        },
        manager_path: Some(cap.runner_path.clone()),
        manager_version: Some(cap.identity()),
    }
}

/// The report of a candidate with local changes, which Beacon leaves alone.
pub fn unmanaged_candidate(cand: Candidate) -> (r: InventoryReport)
    ensures
        r.id@ == skill_id_text(cand.scope, cand.name@),
        r.name == cand.name,
        r.kind@ == "agent-skill"@,
        r.status == ToolStatus::Unmanaged,
        r.current == Some(cand.current),
        r.latest is None && r.action is None,
        opt_text(r.detail) == Some(
            match cand.local_detail {
                Some(d) => d@,
                None => "Skill is not safely updateable"@,
            },
        ),
        r.scope == cand.scope,
        opt_text(r.installation_source) == Some(cand.source@),
        opt_text(r.source_locator) == opt_text(cand.source_locator),
        r.update_manager is None,
        r.changes@.len() == 0,
        r.runtime == InventoryRuntime::default_view(),
{
    let detail = match &cand.local_detail {
        Some(d) => d.clone(),
        None => owned("Skill is not safely updateable"),
    };
    let id = skill_id(cand.scope, cand.name.as_str());
    InventoryReport {
        id,
        name: cand.name,
        kind: owned("agent-skill"),
        status: ToolStatus::Unmanaged,
        current: Some(cand.current),
        latest: None,
        action: None,
        detail: Some(detail),
        scope: cand.scope,
        installation_source: Some(cand.source),
        source_locator: cand.source_locator,
        update_manager: None,
        changes: Vec::new(),
        runtime: InventoryRuntime::default(),
    }
}

/// The report of a candidate whose isolated check failed.
pub fn failed_candidate(cand: Candidate, detail: String, cap: &Capability) -> (r: InventoryReport)
    ensures
        r.id@ == skill_id_text(cand.scope, cand.name@),
        r.name == cand.name,
        r.kind@ == "agent-skill"@,
        r.status == ToolStatus::Failed,
        r.current == Some(cand.current),
        r.latest is None && r.action is None,
        r.detail == Some(detail),
        r.scope == cand.scope,
        opt_text(r.installation_source) == Some(cand.source@),
        opt_text(r.source_locator) == opt_text(cand.source_locator),
        opt_text(r.update_manager) == Some("skills"@),
        r.changes@.len() == 0,
        opt_text(r.runtime.canonical_path) == Some(cand.canonical_path@),
        opt_text(r.runtime.manager_version) == Some(identity_text(*cap)),
{
    let runtime = candidate_runtime(&cand, cap);
    let id = skill_id(cand.scope, cand.name.as_str());
    InventoryReport {
        id,
        name: cand.name,
        kind: owned("agent-skill"),
        status: ToolStatus::Failed,
        current: Some(cand.current),
        latest: None,
        action: None,
        detail: Some(detail),
        scope: cand.scope,
        installation_source: Some(cand.source),
        source_locator: cand.source_locator,
        update_manager: Some(owned("skills")),
        changes: Vec::new(),
        runtime,
    }
}

/// The report of a candidate whose isolated update ran: current where the update left the
/// content as it is, else outdated with a rolling update action of the real skill.
pub fn checked_candidate(
    cand: Candidate,
    cap: &Capability,
    latest: ToolVersion,
    changes: Vec<InventoryChange>,
) -> (r: InventoryReport)
    requires
        cand.scope != ResourceScope::System,
    ensures
        r.id@ == skill_id_text(cand.scope, cand.name@),
        r.name == cand.name,
        r.kind@ == "agent-skill"@,
        ({
            let same = latest.raw_view() == cand.current.raw_view() && latest.normalized_view()
                == cand.current.normalized_view();
            &&& r.status == if same {
                ToolStatus::Current
            } else {
                ToolStatus::Outdated
            }
            &&& same ==> r.action is None
            &&& !same ==> (r.action matches Some(a) && a.manager@ == "skills"@
                && a.expected_version == latest && a.target_mode == TargetMode::Rolling
                && update_command(a.command, *cap, cand, opt_text(cand.project_root)))
        }),
        r.current == Some(cand.current),
        r.latest == Some(latest),
        r.detail is None,
        r.scope == cand.scope,
        opt_text(r.installation_source) == Some(cand.source@),
        opt_text(r.source_locator) == opt_text(cand.source_locator),
        opt_text(r.update_manager) == Some("skills"@),
        r.changes == changes,
        opt_text(r.runtime.canonical_path) == Some(cand.canonical_path@),
        opt_text(r.runtime.receipt_path) == Some(cand.receipt_path@),
        opt_text(r.runtime.manager_path) == Some(cap.runner_path@),
        opt_text(r.runtime.manager_version) == Some(identity_text(*cap)),
{
    let same = latest.same_as(&cand.current);
    let action = if same {
        None
    } else {
        proof {
            reveal_strlit("skills");
        }
        match ManagerId::new("skills") {
            Ok(manager) => Some(
                UpgradeAction {
                    manager,
                    command: real_update_command(&cand, cap),
                    expected_version: latest.duplicate(),
                    target_mode: TargetMode::Rolling,
                },
            ),
            Err(_) => None,
        }
    };
    let runtime = candidate_runtime(&cand, cap);
    let id = skill_id(cand.scope, cand.name.as_str());
    InventoryReport {
        id,
        name: cand.name,
        kind: owned("agent-skill"),
        status: if same {
            ToolStatus::Current
        } else {
            ToolStatus::Outdated
        },
        current: Some(cand.current),
        latest: Some(latest),
        action,
        detail: None,
        scope: cand.scope,
        installation_source: Some(cand.source),
        source_locator: cand.source_locator,
        update_manager: Some(owned("skills")),
        changes,
        runtime,
    }
}

/// The reports sorted by identifier; reports with equal identifiers keep their order.
pub fn sort_reports(reports: Vec<InventoryReport>) -> (r: Vec<InventoryReport>)
    ensures
        ({
            let ids = reports@.map_values(|x: InventoryReport| x.id@);
            exists|order: Seq<int>|
                stably_sorted_by_text(ids, order) && r@.len() == order.len() && forall|k: int|
                    0 <= k < order.len() ==> #[trigger] r@[k] == reports@[order[k]]
        }),
{
    let ghost ids = reports@.map_values(|x: InventoryReport| x.id@);
    let mut keys: Vec<Vec<char>> = Vec::new();
    let mut i: usize = 0;
    while i < reports.len()
        invariant
            i <= reports@.len(),
            ids == reports@.map_values(|x: InventoryReport| x.id@),
            char_rows(keys@) == ids.subrange(0, i as int),
        decreases reports.len() - i,
    {
        let ghost before = char_rows(keys@);
        keys.push(chars_of(reports[i].id.as_str()));
        proof {
            assert(char_rows(keys@) =~= before.push(ids[i as int]));
            assert(ids.subrange(0, i + 1) =~= ids.subrange(0, i as int).push(ids[i as int]));
        }
        i = i + 1;
    }
    proof {
        assert(ids.subrange(0, i as int) =~= ids);
    }
    let order = stable_order_by_text(&keys);
    let ghost om = order@.map_values(|x: usize| x as int);
    let ghost all = reports@;
    let r = arrange(reports, &order);
    proof {
        assert forall|k: int| 0 <= k < om.len() implies #[trigger] r@[k] == all[om[k]] by {
            assert(om[k] == order@[k] as int);
        }
    }
    r
}

/// What confirming a skill update needs from its report.
#[derive(Debug)]
pub struct SkillTargets {
    pub old: ToolVersion,
    pub canonical_path: String,
    pub manager_path: String,
    pub manager_version: String,
}

/// Reads what confirming an update needs from a skill's report, refusing a report that lacks
/// its revision, path, runner path or runner identity.
pub fn verification_targets(report: &InventoryReport) -> (r: Result<SkillTargets, String>)
    ensures
        report.current is None ==> (r matches Err(m) && m@ == "Skill report has no current revision"@),
        report.current is Some && report.runtime.canonical_path is None ==> (r matches Err(m) && m@
            == "Skill report has no canonical path"@),
        report.current is Some && report.runtime.canonical_path is Some
            && report.runtime.manager_path is None ==> (r matches Err(m) && m@
            == "Skill report has no manager path"@),
        report.current is Some && report.runtime.canonical_path is Some
            && report.runtime.manager_path is Some && report.runtime.manager_version is None ==> (
        r matches Err(m) && m@ == "Skill report has no manager version"@),
        r matches Ok(t) ==> (Some(t.old) == report.current && Some(t.canonical_path@) == opt_text(
            report.runtime.canonical_path,
        ) && Some(t.manager_path@) == opt_text(report.runtime.manager_path)
            && Some(t.manager_version@) == opt_text(report.runtime.manager_version)),
        (report.current is Some && report.runtime.canonical_path is Some
            && report.runtime.manager_path is Some && report.runtime.manager_version is Some)
            ==> r is Ok,
{
    let old = match &report.current {
        Some(v) => v.duplicate(),
        None => {
            return Err(owned("Skill report has no current revision"));
        },
    };
    let canonical_path = match &report.runtime.canonical_path {
        Some(p) => p.clone(),
        None => {
            return Err(owned("Skill report has no canonical path"));
        },
    };
    let manager_path = match &report.runtime.manager_path {
        Some(p) => p.clone(),
        None => {
            return Err(owned("Skill report has no manager path"));
        },
    };
    let manager_version = match &report.runtime.manager_version {
        Some(p) => p.clone(),
        None => {
            return Err(owned("Skill report has no manager version"));
        },
    };
    Ok(SkillTargets { old, canonical_path, manager_path, manager_version })
}

/// Confirms a skill update: the runner and its identity are those recorded before the update,
/// and the content revision changed. Returns the new revision.
pub fn confirm_update(
    targets: &SkillTargets,
    runner_path: &str,
    identity: &str,
    actual_revision: &str,
) -> (r: Result<String, String>)
    ensures
        (runner_path@ != targets.manager_path@ || identity@ != targets.manager_version@) ==> (
        r matches Err(m) && m@ == "skills package runner or resolved version drifted during update"@),
        r matches Ok(v) ==> v@ == actual_revision@ && runner_path@ == targets.manager_path@
            && identity@ == targets.manager_version@ && !crate::text::all_space(actual_revision@)
            && actual_revision@ != targets.old.display_view(),
        (runner_path@ == targets.manager_path@ && identity@ == targets.manager_version@
            && !crate::text::all_space(actual_revision@) && actual_revision@
            != targets.old.display_view()) ==> r is Ok,
{
    if !str_eq(runner_path, targets.manager_path.as_str()) || !str_eq(
        identity,
        targets.manager_version.as_str(),
    ) {
        return Err(owned("skills package runner or resolved version drifted during update"));
    }
    let actual = match ToolVersion::exact(actual_revision) {
        Ok(v) => v,
        Err(e) => {
            return Err(e.message());
        },
    };
    match verify_versions(
        TargetMode::Rolling,
        &targets.old,
        &targets.old,
        &actual,
        Comparison::Textual,
    ) {
        Ok(()) => {
            proof {
                crate::sorting::lemma_text_order_equal(actual_revision@, targets.old.display_view());
            }
            Ok(owned(actual_revision))
        },
        Err(e) => {
            proof {
                crate::sorting::lemma_text_order_equal(actual_revision@, targets.old.display_view());
            }
            Err(e.message())
        },
    }
}

/// Where a recovery copy goes and what it holds.
#[derive(Debug)]
pub struct RecoveryPlan {
    /// The name of the copy's directory: the time stamp and the report's identifier.
    pub directory: String,
    pub canonical_path: String,
    pub receipt_path: String,
    /// The text of the copy's `RECOVERY.txt`.
    pub note: String,
}

/// A character of a report identifier as it appears in a directory name.
pub open spec fn safe_char(c: char) -> char {
    if ('a' <= c && c <= 'z') || ('A' <= c && c <= 'Z') || ('0' <= c && c <= '9') {
        c
    } else {
        '-'
    }
}

/// The recovery copy's plan for a skill report, at time stamp `stamp`.
pub open spec fn recovery_note(
    id: Seq<char>,
    scope: ResourceScope,
    canonical: Seq<char>,
    receipt: Seq<char>,
    home: Option<Seq<char>>,
) -> Seq<char> {
    "Beacon recovery copy for "@ + id + "\nscope="@ + scope_name(scope) + "\ncanonical="@
        + redacted(canonical, home) + "\nreceipt="@ + redacted(receipt, home) + "\n"@
}

/// Plans the recovery copy of a skill before it is updated: only Agent Skills with a path and
/// a receipt path have one.
pub fn recovery_plan(report: &InventoryReport, stamp: &str, home: Option<&str>) -> (r: Result<
    RecoveryPlan,
    String,
>)
    ensures
        report.kind@ != "agent-skill"@ ==> (r matches Err(m) && m@
            == "recovery copies are only supported for Agent Skills"@),
        report.kind@ == "agent-skill"@ && report.runtime.canonical_path is None ==> (r matches Err(
            m,
        ) && m@ == "Skill report has no canonical path"@),
        report.kind@ == "agent-skill"@ && report.runtime.canonical_path is Some
            && report.runtime.receipt_path is None ==> (r matches Err(m) && m@
            == "Skill report has no receipt path"@),
        report.kind@ == "agent-skill"@ && report.runtime.canonical_path is Some
            && report.runtime.receipt_path is Some ==> (r matches Ok(p) && p.directory@ == stamp@
            + "-"@ + report.id@.map_values(|c: char| safe_char(c)) && Some(p.canonical_path@)
            == opt_text(report.runtime.canonical_path) && Some(p.receipt_path@) == opt_text(
            report.runtime.receipt_path,
        ) && p.note@ == recovery_note(
            report.id@,
            report.scope,
            p.canonical_path@,
            p.receipt_path@,
            opt_str_view(home),
        )),
{
    if !str_eq(report.kind.as_str(), "agent-skill") {
        return Err(owned("recovery copies are only supported for Agent Skills"));
    }
    let canonical_path = match &report.runtime.canonical_path {
        Some(p) => p.clone(),
        None => {
            return Err(owned("Skill report has no canonical path"));
        },
    };
    let receipt_path = match &report.runtime.receipt_path {
        Some(p) => p.clone(),
        None => {
            return Err(owned("Skill report has no receipt path"));
        },
    };
    let id = chars_of(report.id.as_str());
    let mut safe: Vec<char> = Vec::new();
    let mut i: usize = 0;
    while i < id.len()
        invariant
            i <= id@.len(),
            safe@ == id@.subrange(0, i as int).map_values(|c: char| safe_char(c)),
        decreases id.len() - i,
    {
        let c = id[i];
        let s = if ('a' <= c && c <= 'z') || ('A' <= c && c <= 'Z') || ('0' <= c && c <= '9') {
            c
        } else {
            '-'
        };
        safe.push(s);
        proof {
            assert(id@.subrange(0, i + 1).map_values(|c: char| safe_char(c)) =~= id@.subrange(
                0,
                i as int,
            ).map_values(|c: char| safe_char(c)).push(safe_char(c)));
        }
        i = i + 1;
    }
    proof {
        assert(id@.subrange(0, i as int) =~= id@);
    }
    let safe_id = string_from_chars(&safe);
    let directory = concat3(stamp, "-", safe_id.as_str());
    let shown_canonical = redact(canonical_path.as_str(), home);
    let shown_receipt = redact(receipt_path.as_str(), home);
    let a = concat3("Beacon recovery copy for ", report.id.as_str(), "\nscope=");
    let b = concat3(a.as_str(), report.scope.as_str(), "\ncanonical=");
    let c = concat3(b.as_str(), shown_canonical.as_str(), "\nreceipt=");
    let note = concat3(c.as_str(), shown_receipt.as_str(), "\n");
    Ok(RecoveryPlan { directory, canonical_path, receipt_path, note })
}

/// A recovery copy of a skill made before an update.
#[derive(Debug)]
pub struct RecoveryCopy {
    root: String,
}

impl RecoveryCopy {
    /// The copy whose directory is `directory` under `recovery_root`.
    pub fn at(recovery_root: &str, directory: &str) -> (r: RecoveryCopy)
        ensures
            r.path_view() == path_join(recovery_root@, directory@),
    {
        RecoveryCopy {
            root: string_from_chars(&join_path(&chars_of(recovery_root), &chars_of(directory))),
        }
    }

    /// The directory of the copy.
    pub closed spec fn path_view(&self) -> Seq<char> {
        self.root@
    }

    /// The directory of the copy.
    pub fn path(&self) -> (r: &str)
        ensures
            r@ == self.path_view(),
    {
        self.root.as_str()
    }
}

/// What checking a candidate takes next.
#[derive(Debug)]
pub enum CandidateStep {
    /// The candidate has local changes: this report ends its handling.
    Report(InventoryReport),
    /// The candidate is to be updated in an isolated copy.
    Sandbox(Candidate),
}

/// Decides how a candidate is checked: one with local changes is left alone and reported
/// unmanaged; any other is updated in an isolated copy.
pub fn check_candidate(cand: Candidate) -> (r: CandidateStep)
    ensures
        cand.locally_modified ==> (r matches CandidateStep::Report(rep) && rep.status
            == ToolStatus::Unmanaged && rep.id@ == skill_id_text(cand.scope, cand.name@)
            && rep.current == Some(cand.current) && opt_text(rep.detail) == Some(
            match cand.local_detail {
                Some(d) => d@,
                None => "Skill is not safely updateable"@,
            },
        )),
        !cand.locally_modified ==> r == CandidateStep::Sandbox(cand),
{
    if cand.locally_modified {
        CandidateStep::Report(unmanaged_candidate(cand))
    } else {
        CandidateStep::Sandbox(cand)
    }
}

/// The text of what is left of `path` once the leading components of `base` are taken off.
pub uninterp spec fn path_remainder(path: Seq<char>, base: Seq<char>) -> Seq<char>;

/// The components of `path` that follow those of `base`.
pub open spec fn components_after(path: Seq<char>, base: Seq<char>) -> Seq<Seq<char>> {
    components(path).subrange(components(base).len() as int, components(path).len() as int)
}

/// `std::path::Path::strip_prefix`, the rest written as text. It claims, as the documentation
/// says, that it succeeds exactly where `base` is a prefix of `path` (`Path::starts_with`), and
/// that the rest, a function of the two paths, has as components those of `path` that follow
/// the components of `base` (the rest is `Components::as_path` of what is left). Which
/// separators and `.` segments the text keeps between them is not stated.
#[verifier::external_body]
fn strip_path_prefix(path: &str, base: &str) -> (r: Option<String>)
    ensures
        r is Some <==> path_under(path@, base@),
        r matches Some(rest) ==> rest@ == path_remainder(path@, base@) && components(rest@)
            == components_after(path@, base@),
{
    match std::path::Path::new(path).strip_prefix(base) {
        Ok(rest) => Some(rest.to_string_lossy().into_owned()),
        Err(_) => None,
    }
}

/// Where an isolated update of a candidate happens and what it runs.
#[derive(Debug)]
pub struct SandboxPlan {
    /// The home directory of the isolated update.
    pub home_dir: String,
    /// The state directory of the isolated update.
    pub state_dir: String,
    /// The project directory of the isolated update.
    pub project_dir: String,
    /// Where the skill is copied.
    pub target: String,
    /// Where the receipt holding only this skill is written.
    pub receipt_destination: String,
    /// The update command.
    pub command: CommandSpec,
}

/// Plans the isolated update of a candidate under `temp_root`: a global skill is copied to
/// the same place under the isolated home, a project skill to the same place under the
/// isolated project; `home` is the resolved home directory, or why it is unknown.
pub fn sandbox_plan(cand: &Candidate, cap: &Capability, temp_root: &str, home: &Result<
    String,
    String,
>) -> (r: Result<SandboxPlan, String>)
    ensures
        match cand.scope {
            ResourceScope::System => r matches Err(m) && m@
                == "system scope is not valid for Agent Skills"@,
            ResourceScope::Global => match home {
                Err(m) => r matches Err(e) && e == m,
                Ok(h) => if path_under(cand.canonical_path@, h@) {
                    r is Ok
                } else {
                    r matches Err(m) && m@ == "global Skill path is outside HOME"@
                },
            },
            ResourceScope::Project => match cand.project_root {
                None => r matches Err(m) && m@ == "project Skill has no project root"@,
                Some(root) => if path_under(
                    cand.canonical_path@,
                    root@,
                ) {
                    r is Ok
                } else {
                    r matches Err(m) && m@ == "project Skill path is outside its project root"@
                },
            },
        },
        r matches Ok(p) ==> ({
            &&& p.home_dir@ == path_join(temp_root@, "home"@)
            &&& p.state_dir@ == path_join(temp_root@, "state"@)
            &&& p.project_dir@ == path_join(temp_root@, "project"@)
            &&& p.receipt_destination@ == if cand.scope == ResourceScope::Global {
                path_join(p.state_dir@, "skills/.skill-lock.json"@)
            } else {
                path_join(p.project_dir@, "skills-lock.json"@)
            }
            &&& update_command(
                p.command,
                *cap,
                *cand,
                if cand.scope == ResourceScope::Project {
                    Some(p.project_dir@)
                } else {
                    None
                },
            )
            &&& p.target@ == match cand.scope {
                ResourceScope::Global => path_join(
                    p.home_dir@,
                    path_remainder(cand.canonical_path@, home->Ok_0@),
                ),
                _ => path_join(
                    p.project_dir@,
                    path_remainder(cand.canonical_path@, cand.project_root->Some_0@),
                ),
            }
            &&& cand.scope == ResourceScope::Global ==> components(
                path_remainder(cand.canonical_path@, home->Ok_0@),
            ) == components_after(cand.canonical_path@, home->Ok_0@)
            &&& cand.scope == ResourceScope::Project ==> components(
                path_remainder(cand.canonical_path@, cand.project_root->Some_0@),
            ) == components_after(cand.canonical_path@, cand.project_root->Some_0@)
            &&& p.command.environment@.len() == 3
            &&& p.command.environment@[0].0@ == "DISABLE_TELEMETRY"@
            &&& p.command.environment@[0].1@ == "1"@
            &&& p.command.environment@[1].0@ == "HOME"@
            &&& p.command.environment@[1].1@ == p.home_dir@
            &&& p.command.environment@[2].0@ == "XDG_STATE_HOME"@
            &&& p.command.environment@[2].1@ == p.state_dir@
        }),
{
    let root = chars_of(temp_root);
    let home_dir = string_from_chars(&join_path(&root, &chars_of("home")));
    let state_dir = string_from_chars(&join_path(&root, &chars_of("state")));
    let project_dir = string_from_chars(&join_path(&root, &chars_of("project")));
    let (target, receipt_destination) = match cand.scope {
        ResourceScope::System => {
            return Err(owned("system scope is not valid for Agent Skills"));
        },
        ResourceScope::Global => {
            let h = match home {
                Ok(h) => h,
                Err(m) => {
                    return Err(m.clone());
                },
            };
            let rest = match strip_path_prefix(cand.canonical_path.as_str(), h.as_str()) {
                Some(rest) => rest,
                None => {
                    return Err(owned("global Skill path is outside HOME"));
                },
            };
            (
                string_from_chars(&join_path(&chars_of(home_dir.as_str()), &chars_of(rest.as_str()))),
                string_from_chars(
                    &join_path(&chars_of(state_dir.as_str()), &chars_of("skills/.skill-lock.json")),
                ),
            )
        },
        ResourceScope::Project => {
            let project_root = match &cand.project_root {
                Some(p) => p,
                None => {
                    return Err(owned("project Skill has no project root"));
                },
            };
            let rest = match strip_path_prefix(cand.canonical_path.as_str(), project_root.as_str()) {
                Some(rest) => rest,
                None => {
                    return Err(owned("project Skill path is outside its project root"));
                },
            };
            (
                string_from_chars(&join_path(&chars_of(project_dir.as_str()), &chars_of(rest.as_str()))),
                string_from_chars(
                    &join_path(&chars_of(project_dir.as_str()), &chars_of("skills-lock.json")),
                ),
            )
        },
    };
    let command = sandbox_update_command(
        cand,
        cap,
        home_dir.as_str(),
        state_dir.as_str(),
        project_dir.as_str(),
    );
    Ok(SandboxPlan { home_dir, state_dir, project_dir, target, receipt_destination, command })
}

/// What an isolated update found: the revision the update would give and the files it would
/// change, or why the check failed.
pub fn sandbox_outcome(before: &crate::agent_skills::Manifest, after: &crate::agent_skills::Manifest, revision: &str) -> (r: Result<
    (ToolVersion, Vec<InventoryChange>),
    String,
>)
    requires
        before.wf(),
        after.wf(),
    ensures
        crate::text::all_space(revision@) ==> (r matches Err(m) && m@ == "tool version cannot be empty"@),
        !crate::text::all_space(revision@) ==> (r matches Ok((v, changes)) && v.raw_view()
            == revision@ && v.normalized_view() == Some(revision@)
            && crate::agent_skills::manifest::lists_changes(changes@, before.files(), after.files())),
{
    let latest = match ToolVersion::exact(revision) {
        Ok(v) => v,
        Err(e) => {
            return Err(e.message());
        },
    };
    Ok((latest, crate::agent_skills::compare_manifests(before, after)))
}

/// The report of a candidate after its isolated update ran or failed.
pub fn sandbox_report(
    cand: Candidate,
    cap: &Capability,
    outcome: Result<(ToolVersion, Vec<InventoryChange>), String>,
) -> (r: InventoryReport)
    requires
        cand.scope != ResourceScope::System,
    ensures
        r.id@ == skill_id_text(cand.scope, cand.name@),
        outcome matches Err(m) ==> (r.status == ToolStatus::Failed && r.detail == Some(m)),
        outcome matches Ok((v, changes)) ==> (r.latest == Some(v) && r.changes == changes
            && r.status == if v.raw_view() == cand.current.raw_view() && v.normalized_view()
            == cand.current.normalized_view() {
            ToolStatus::Current
        } else {
            ToolStatus::Outdated
        }),
{
    match outcome {
        Ok((latest, changes)) => checked_candidate(cand, cap, latest, changes),
        Err(detail) => failed_candidate(cand, detail, cap),
    }
}

} // verus!
