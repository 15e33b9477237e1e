//! How the claims of all managers about one tool are gathered, and how a tool report is put
//! together from what was observed.
use super::adapters::{shown_name, tool_name, tool_order, tool_registry, BuiltinToolAdapter, ToolKind};
use super::verification::{verification_outcome, verify_error_text, verify_versions};
use crate::sorting::{stable_order_by_key, stably_sorted_by_key};
use super::claims::{ClaimConfidence, ManagerClaims, ResolvedClaims, SourceClaim};
use super::managers::{
    claim_result, claims_source, claims_updater, evidence_pairs, install_manager_registry,
    kind_name, manager_error_text, manager_order, resolved, upgrade_plan, BuiltinInstallManager,
    HostFacts, ManagerKind, ManagerSnapshot,
};
use super::snapshot::empty_snapshot;
use super::verification::{compared, Comparison, VersionOrder};
use super::{DetectedTool, ManagerId, SourceId, ToolVersion};
use crate::command::{owned, plain_command};
use crate::copy::Duplicate;
use crate::reports::{
    AlternativeInstallation, Diagnostics, InstallationReport, ToolReport, ToolStatus, UpdateReport,
};
use crate::text::{chars_of, contains_chars, contains_seq, string_from_chars, to_lowercase, unicode_lowercase};
use vstd::prelude::*;

verus! {

/// The evidence of an optional snapshot: none where there is no snapshot.
pub open spec fn snapshot_evidence(s: Option<ManagerSnapshot>) -> Seq<(Seq<char>, Seq<char>)> {
    match s {
        Some(snap) => evidence_pairs(snap.evidence@),
        None => Seq::empty(),
    }
}

/// Whether a manager claims anything about the tool.
pub open spec fn claims_nonempty(
    kind: ManagerKind,
    tool: Seq<char>,
    exe: Seq<char>,
    ev: Seq<(Seq<char>, Seq<char>)>,
    facts: Seq<(Seq<char>, Seq<char>)>,
) -> bool {
    claims_source(kind, tool, exe, ev, facts) || claims_updater(kind, tool, exe, ev, facts)
}

/// The registry positions, among the first `n`, of the managers consulted for the tool: those
/// that claim something given the snapshot cached when they are reached.
pub open spec fn consulted(
    tool: Seq<char>,
    exe: Seq<char>,
    before: Seq<Option<ManagerSnapshot>>,
    facts: Seq<(Seq<char>, Seq<char>)>,
    n: int,
) -> Seq<int>
    decreases n,
{
    if n <= 0 {
        Seq::empty()
    } else {
        let prev = consulted(tool, exe, before, facts, n - 1);
        if claims_nonempty(
            manager_order()[n - 1],
            tool,
            exe,
            snapshot_evidence(before[n - 1]),
            facts,
        ) {
            prev.push(n - 1)
        } else {
            prev
        }
    }
}

/// The installation source diagnosed, but never updated, for uv installed through pipx, pip or
/// cargo.
pub open spec fn diagnostic_source(tool: Seq<char>, path: Seq<char>) -> Option<Seq<char>> {
    if tool == "uv"@ && contains_seq(path, "pipx"@) {
        Some("pipx"@)
    } else if tool == "uv"@ && (contains_seq(path, "site-packages"@) || contains_seq(
        path,
        ".venv"@,
    )) {
        Some("pip"@)
    } else if tool == "uv"@ && contains_seq(path, "/.cargo/"@) {
        Some("cargo"@)
    } else {
        None
    }
}

/// The diagnostic-only source claim for the tool, if any.
pub fn diagnostic_claim(tool: &DetectedTool, facts: &HostFacts) -> (r: Option<ManagerClaims>)
    ensures
        match diagnostic_source(
            tool.id@,
            unicode_lowercase(resolved(facts.entries(), tool.executable@)),
        ) {
            None => r is None,
            Some(src) => (r matches Some(c) && c.updater is None && (c.source matches Some(s)
                && s.source@ == src && s.confidence == ClaimConfidence::PathHeuristic
                && s.evidence@ == "diagnostic-only uv installation source"@)),
        },
{
    let exe = chars_of(tool.executable.as_str());
    let active = facts.resolve(&exe);
    let lower = to_lowercase(string_from_chars(&active).as_str());
    let path = chars_of(lower.as_str());
    let uv = crate::text::str_eq(tool.id.as_str(), "uv");
    let name = if uv && contains_chars(&path, &chars_of("pipx")) {
        "pipx"
    } else if uv && (contains_chars(&path, &chars_of("site-packages")) || contains_chars(
        &path,
        &chars_of(".venv"),
    )) {
        "pip"
    } else if uv && contains_chars(&path, &chars_of("/.cargo/")) {
        "cargo"
    } else {
        return None;
    };
    proof {
        reveal_strlit("pipx");
        reveal_strlit("pip");
        reveal_strlit("cargo");
    }
    match SourceId::new(name) {
        Ok(source) => Some(
            ManagerClaims {
                source: Some(
                    SourceClaim {
                        source,
                        confidence: ClaimConfidence::PathHeuristic,
                        evidence: owned("diagnostic-only uv installation source"),
                    },
                ),
                updater: None,
            },
        ),
        Err(_) => {
            proof {
                assert(false);
            }
            None
        },
    }
}

/// Whether the manager is consulted for the tool, given the snapshot cached when it is reached.
pub fn manager_consulted(
    manager: &BuiltinInstallManager,
    tool: &DetectedTool,
    cached: &Option<ManagerSnapshot>,
    facts: &HostFacts,
) -> (r: bool)
    ensures
        r == claims_nonempty(
            manager.kind,
            tool.id@,
            tool.executable@,
            snapshot_evidence(*cached),
            facts.entries(),
        ),
{
    let claims = match cached {
        Some(s) => manager.claim_in(tool, s, facts),
        None => {
            let e = empty_snapshot(manager);
            assert(evidence_pairs(e.evidence@) =~= Seq::<(Seq<char>, Seq<char>)>::empty());
            manager.claim_in(tool, &e, facts)
        },
    };
    claims.source.is_some() || claims.updater.is_some()
}

/// The claims of the managers consulted for the tool, in registry order, then the
/// diagnostic-only source claim where there is one. `before[k]` is the snapshot cached for
/// the `k`-th manager when it was reached, `after[k]` the one obtained for a consulted manager.
pub fn path_claims(
    tool: &DetectedTool,
    before: &Vec<Option<ManagerSnapshot>>,
    after: &Vec<Option<ManagerSnapshot>>,
    facts: &HostFacts,
) -> (r: Vec<ManagerClaims>)
    requires
        before@.len() == manager_order().len(),
        after@.len() == manager_order().len(),
    ensures
        ({
            let idx = consulted(
                tool.id@,
                tool.executable@,
                before@,
                facts.entries(),
                manager_order().len() as int,
            );
            let diag = diagnostic_source(
                tool.id@,
                unicode_lowercase(resolved(facts.entries(), tool.executable@)),
            );
            &&& r@.len() == idx.len() + (if diag is Some {
                1int
            } else {
                0int
            })
            &&& forall|i: int|
                0 <= i < idx.len() ==> claim_result(
                    manager_order()[idx[i]],
                    tool.id@,
                    tool.executable@,
                    snapshot_evidence(after@[idx[i]]),
                    facts.entries(),
                    facts.home_view(),
                    #[trigger] r@[i],
                )
            &&& diag matches Some(src) ==> r@.last().updater is None && (r@.last().source matches Some(
                s,
            ) && s.source@ == src && s.confidence == ClaimConfidence::PathHeuristic)
        }),
{
    let managers = install_manager_registry();
    let ghost n = manager_order().len() as int;
    let mut out: Vec<ManagerClaims> = Vec::new();
    let mut k: usize = 0;
    while k < managers.len()
        invariant
            managers@.len() == manager_order().len(),
            forall|j: int| 0 <= j < managers@.len() ==> (#[trigger] managers@[j]).kind == manager_order()[j],
            before@.len() == manager_order().len(),
            after@.len() == manager_order().len(),
            k <= managers@.len(),
            ({
                let idx = consulted(tool.id@, tool.executable@, before@, facts.entries(), k as int);
                &&& out@.len() == idx.len()
                &&& forall|i: int|
                    0 <= i < idx.len() ==> claim_result(
                        manager_order()[idx[i]],
                        tool.id@,
                        tool.executable@,
                        snapshot_evidence(after@[idx[i]]),
                        facts.entries(),
                        facts.home_view(),
                        #[trigger] out@[i],
                    )
            }),
        decreases managers.len() - k,
    {
        let manager = &managers[k];
        if manager_consulted(manager, tool, &before[k], facts) {
            let c = match &after[k] {
                Some(s) => manager.claim_in(tool, s, facts),
                None => {
                    let e = empty_snapshot(manager);
                    assert(evidence_pairs(e.evidence@) =~= Seq::<(Seq<char>, Seq<char>)>::empty());
                    manager.claim_in(tool, &e, facts)
                },
            };
            out.push(c);
        }
        k = k + 1;
    }
    match diagnostic_claim(tool, facts) {
        Some(c) => out.push(c),
        None => {},
    }
    out
}

/// Whether a detection failure means the tool is not on `PATH`.
pub open spec fn means_missing(message: Seq<char>) -> bool {
    contains_seq(message, "not available on PATH"@)
}

/// The report of a tool whose detection failed: missing where the failure says the tool is not
/// on `PATH`, else failed with the failure's message.
pub fn detection_failure_report(adapter: &BuiltinToolAdapter, message: String) -> (r: ToolReport)
    ensures
        r.id@ == tool_name(adapter.kind),
        r.name@ == shown_name(adapter.kind),
        means_missing(message@) ==> r.status == ToolStatus::Missing && (r.detail matches Some(d)
            && d@ == "tool is not available on PATH"@),
        !means_missing(message@) ==> r.status == ToolStatus::Failed && (r.detail matches Some(d)
            && d@ == message@),
        r.installation is None,
        r.update is None,
        r.diagnostics.evidence@.len() == 0,
        r.diagnostics.conflicts@.len() == 0,
{
    let missing = contains_chars(&chars_of(message.as_str()), &chars_of("not available on PATH"));
    ToolReport {
        id: owned(adapter.id_text()),
        name: owned(adapter.display_name()),
        status: if missing {
            ToolStatus::Missing
        } else {
            ToolStatus::Failed
        },
        detail: Some(
            if missing {
                owned("tool is not available on PATH")
            } else {
                message
            },
        ),
        installation: None,
        update: None,
        diagnostics: Diagnostics::default(),
    }
}

/// The first step of checking a tool, once detection has answered: a failed detection ends
/// the check with its failure report, so no snapshot, latest-version query or update is asked
/// for; a detected tool goes on to claim resolution.
pub fn after_detection(adapter: &BuiltinToolAdapter, detected: Result<DetectedTool, String>) -> (r:
    Result<DetectedTool, ToolReport>)
    ensures
        detected matches Ok(t) ==> (r matches Ok(u) && u == t),
        detected matches Err(m) ==> (r matches Err(rep) && rep.id@ == tool_name(adapter.kind)
            && rep.name@ == shown_name(adapter.kind) && rep.installation is None && rep.update is None
            && (means_missing(m@) ==> rep.status == ToolStatus::Missing && (rep.detail matches Some(d)
            && d@ == "tool is not available on PATH"@)) && (!means_missing(m@) ==> rep.status
            == ToolStatus::Failed && (rep.detail matches Some(d) && d@ == m@))),
{
    match detected {
        Ok(tool) => Ok(tool),
        Err(message) => Err(detection_failure_report(adapter, message)),
    }
}

/// The manager to ask for the latest version of a detected tool: the built-in manager of the
/// resolved updater. Without a resolved updater no latest version is asked for.
pub fn latest_query_manager(claims: &ResolvedClaims) -> (r: Option<BuiltinInstallManager>)
    ensures
        claims.updater is None ==> r is None,
        claims.updater matches Some(u) ==> (r is Some <==> kind_named(u.manager@) is Some),
        claims.updater matches Some(u) ==> (r matches Some(m) ==> kind_name(m.kind) == u.manager@),
{
    match &claims.updater {
        Some(u) => manager_named(&u.manager),
        None => None,
    }
}

/// The kind of manager with the given identifier.
pub open spec fn kind_named(id: Seq<char>) -> Option<ManagerKind> {
    if exists|k: int| 0 <= k < manager_order().len() && kind_name(manager_order()[k]) == id {
        Some(
            manager_order()[choose|k: int|
                0 <= k < manager_order().len() && kind_name(manager_order()[k]) == id],
        )
    } else {
        None
    }
}

/// The built-in manager with the given identifier.
pub fn manager_named(id: &ManagerId) -> (r: Option<BuiltinInstallManager>)
    ensures
        r is Some <==> exists|k: int| 0 <= k < manager_order().len() && kind_name(manager_order()[k]) == id@,
        r matches Some(m) ==> kind_name(m.kind) == id@,
{
    let managers = install_manager_registry();
    let mut k: usize = 0;
    while k < managers.len()
        invariant
            managers@.len() == manager_order().len(),
            forall|j: int| 0 <= j < managers@.len() ==> (#[trigger] managers@[j]).kind == manager_order()[j],
            k <= managers@.len(),
            forall|j: int| 0 <= j < k ==> kind_name(manager_order()[j]) != id@,
        decreases managers.len() - k,
    {
        if crate::text::str_eq(super::managers::kind_id(managers[k].kind), id.as_str()) {
            return Some(managers[k]);
        }
        k = k + 1;
    }
    None
}

/// Whether two kinds with the same name are the same kind.
proof fn lemma_kind_name_unique(a: ManagerKind, b: ManagerKind)
    requires
        kind_name(a) == kind_name(b),
    ensures
        a == b,
{
    reveal_strlit("homebrew");
    reveal_strlit("mise");
    reveal_strlit("rustup");
    reveal_strlit("npm");
    reveal_strlit("corepack");
    reveal_strlit("bun-official");
    reveal_strlit("deno-official");
    reveal_strlit("uv-standalone");
    assert(kind_name(a)[0] == kind_name(b)[0]);
    assert(kind_name(a)[0] == kind_initial(a));
    assert(kind_name(b)[0] == kind_initial(b));
}

spec fn kind_initial(k: ManagerKind) -> char {
    match k {
        ManagerKind::Homebrew => 'h',
        ManagerKind::Mise => 'm',
        ManagerKind::Rustup => 'r',
        ManagerKind::Npm => 'n',
        ManagerKind::Corepack => 'c',
        ManagerKind::BunOfficial => 'b',
        ManagerKind::DenoOfficial => 'd',
        ManagerKind::UvStandalone => 'u',
    }
}

/// The detail of an unmanaged tool.
pub open spec fn unmanaged_detail(conflicted: bool) -> Seq<char> {
    if conflicted {
        "manager claims conflict at equal confidence"@
    } else {
        "no safe update manager claimed the active installation"@
    }
}

/// The report of a detected tool, from its resolved claims, its alternative installations,
/// the snapshot of the updater's manager and the latest version that manager reported.
///
/// Without an updater the tool is unmanaged. With one, a failed latest query, a failed
/// comparison or a refused update makes the report failed with that message; otherwise the
/// tool is outdated where the installed version is lower than the latest, else current.
/// Diagnostics keep the claim evidence and conflicts except in a refreshing check.
pub fn tool_report(
    adapter: &BuiltinToolAdapter,
    tool: &DetectedTool,
    claims: &ResolvedClaims,
    refresh: bool,
    alternatives: Vec<AlternativeInstallation>,
    snapshot: &ManagerSnapshot,
    latest: &Option<Result<ToolVersion, String>>,
    facts: &HostFacts,
) -> (r: ToolReport)
    requires
        claims.updater matches Some(u) ==> kind_named(u.manager@) is Some && latest is Some,
    ensures
        r.id@ == tool_name(adapter.kind),
        r.name@ == shown_name(adapter.kind),
        r.installation matches Some(i) && i.current == tool.version && i.executable@
            == tool.executable@ && i.source == (match claims.source {
            Some(s) => Some(s.source),
            None => None,
        }) && i.alternatives.deep_view() == alternatives.deep_view(),
        refresh ==> r.diagnostics.evidence@.len() == 0 && r.diagnostics.conflicts@.len() == 0,
        !refresh ==> r.diagnostics.evidence.deep_view() == claims.evidence.deep_view()
            && r.diagnostics.conflicts.deep_view() == claims.conflicts.deep_view(),
        claims.updater is None ==> r.status == ToolStatus::Unmanaged && r.update is None
            && (r.detail matches Some(d) && d@ == unmanaged_detail(claims.conflicts@.len() > 0)),
        claims.updater matches Some(u) ==> match latest->0 {
            Err(m) => r.status == ToolStatus::Failed && r.update is None && (r.detail matches Some(d)
                && d@ == m@),
            Ok(v) => match compared(Comparison::Semantic, tool.version.display_view(), v.display_view()) {
                Err(m) => r.status == ToolStatus::Failed && r.update is None && (r.detail matches Some(
                    d,
                ) && d@ == m),
                Ok(order) => match upgrade_plan(
                    kind_named(u.manager@)->0,
                    tool.id@,
                    tool.executable@,
                    v.display_view(),
                    evidence_pairs(snapshot.evidence@),
                    facts.entries(),
                ) {
                    Err(e) => r.status == ToolStatus::Failed && r.update is None && (r.detail matches Some(
                        d,
                    ) && d@ == manager_error_text(e)),
                    Ok(plan) => r.status == (if order == VersionOrder::Less {
                        ToolStatus::Outdated
                    } else {
                        ToolStatus::Current
                    }) && r.detail is None && (r.update matches Some(up) && up.manager == u.manager
                        && up.latest == v && up.action.manager@ == u.manager@
                        && up.action.expected_version == v && up.action.target_mode == plan.2
                        && plain_command(up.action.command, plan.0, plan.1)),
                },
            },
        },
{
    let diagnostics = if refresh {
        Diagnostics::default()
    } else {
        Diagnostics { evidence: claims.evidence.duplicate(), conflicts: claims.conflicts.duplicate() }
    };
    let installation = InstallationReport {
        current: tool.version.duplicate(),
        executable: tool.executable.clone(),
        source: match &claims.source {
            Some(s) => Some(s.source.duplicate()),
            None => None,
        },
        alternatives,
    };
    let id = owned(adapter.id_text());
    let name = owned(adapter.display_name());
    let updater = match &claims.updater {
        Some(u) => u,
        None => {
            let detail = if claims.conflicts.len() == 0 {
                owned("no safe update manager claimed the active installation")
            } else {
                owned("manager claims conflict at equal confidence")
            };
            return ToolReport {
                id,
                name,
                status: ToolStatus::Unmanaged,
                detail: Some(detail),
                installation: Some(installation),
                update: None,
                diagnostics,
            };
        },
    };
    let manager = match manager_named(&updater.manager) {
        Some(m) => m,
        None => {
            proof {
                assert(false);
            }
            return ToolReport {
                id,
                name,
                status: ToolStatus::Failed,
                detail: None,
                installation: Some(installation),
                update: None,
                diagnostics,
            };
        },
    };
    proof {
        let k = choose|k: int|
            0 <= k < manager_order().len() && kind_name(manager_order()[k]) == updater.manager@;
        lemma_kind_name_unique(manager.kind, manager_order()[k]);
    }
    let latest_version = match latest {
        Some(Ok(v)) => v,
        Some(Err(m)) => {
            return ToolReport {
                id,
                name,
                status: ToolStatus::Failed,
                detail: Some(m.clone()),
                installation: Some(installation),
                update: None,
                diagnostics,
            };
        },
        None => {
            proof {
                assert(false);
            }
            return ToolReport {
                id,
                name,
                status: ToolStatus::Failed,
                detail: None,
                installation: Some(installation),
                update: None,
                diagnostics,
            };
        },
    };
    let order = match adapter.compare(&tool.version, latest_version) {
        Ok(o) => o,
        Err(m) => {
            return ToolReport {
                id,
                name,
                status: ToolStatus::Failed,
                detail: Some(m),
                installation: Some(installation),
                update: None,
                diagnostics,
            };
        },
    };
    let action = match manager.upgrade_in(tool, latest_version, snapshot, facts) {
        Ok(a) => a,
        Err(e) => {
            return ToolReport {
                id,
                name,
                status: ToolStatus::Failed,
                detail: Some(e.message()),
                installation: Some(installation),
                update: None,
                diagnostics,
            };
        },
    };
    ToolReport {
        id,
        name,
        status: if order == VersionOrder::Less {
            ToolStatus::Outdated
        } else {
            ToolStatus::Current
        },
        detail: None,
        installation: Some(installation),
        update: Some(
            UpdateReport {
                manager: updater.manager.duplicate(),
                latest: latest_version.duplicate(),
                action,
            },
        ),
        diagnostics,
    }
}


/// How many tools are detected at the same time.
pub const MAX_INDEPENDENT_DETECTION_CONCURRENCY: usize = 4;

/// Whether a list of texts holds `id`.
pub open spec fn lists(ids: Seq<String>, id: Seq<char>) -> bool {
    exists|i: int| 0 <= i < ids.len() && ids[i]@ == id
}

fn listed(ids: &Vec<String>, id: &str) -> (r: bool)
    ensures
        r == lists(ids@, id@),
{
    let mut i: usize = 0;
    while i < ids.len()
        invariant
            i <= ids@.len(),
            forall|k: int| 0 <= k < i ==> ids@[k]@ != id@,
        decreases ids.len() - i,
    {
        if crate::text::str_eq(ids[i].as_str(), id) {
            return true;
        }
        i = i + 1;
    }
    false
}

/// The enabled tools among the first `n` built-in tools, in registry order.
pub open spec fn enabled_kinds(enabled: Seq<String>, n: int) -> Seq<ToolKind>
    decreases n,
{
    if n <= 0 {
        Seq::empty()
    } else if lists(enabled, tool_name(tool_order()[n - 1])) {
        enabled_kinds(enabled, n - 1).push(tool_order()[n - 1])
    } else {
        enabled_kinds(enabled, n - 1)
    }
}

/// The adapters of the enabled tools, in registry order.
pub fn enabled_adapters(enabled_tools: &Vec<String>) -> (r: Vec<BuiltinToolAdapter>)
    ensures
        r@.map_values(|a: BuiltinToolAdapter| a.kind) == enabled_kinds(
            enabled_tools@,
            tool_order().len() as int,
        ),
{
    let all = tool_registry();
    let mut out: Vec<BuiltinToolAdapter> = Vec::new();
    let mut k: usize = 0;
    while k < all.len()
        invariant
            all@.len() == tool_order().len(),
            forall|j: int| 0 <= j < all@.len() ==> (#[trigger] all@[j]).kind == tool_order()[j],
            k <= all@.len(),
            out@.map_values(|a: BuiltinToolAdapter| a.kind) == enabled_kinds(enabled_tools@, k as int),
        decreases all.len() - k,
    {
        let ghost before = out@;
        if listed(enabled_tools, all[k].id_text()) {
            out.push(all[k]);
            proof {
                assert(out@.map_values(|a: BuiltinToolAdapter| a.kind) =~= before.map_values(
                    |a: BuiltinToolAdapter| a.kind,
                ).push(all@[k as int].kind));
            }
        }
        k = k + 1;
    }
    out
}

/// Whether the Homebrew inventory is enabled.
pub fn homebrew_inventory_enabled(enabled_inventories: &Vec<String>) -> (r: bool)
    ensures
        r == lists(enabled_inventories@, "homebrew"@),
{
    listed(enabled_inventories, "homebrew")
}

/// The registry position of a tool identifier, or the largest number for an unknown one.
pub open spec fn registry_position(id: Seq<char>) -> u64 {
    if exists|k: int| 0 <= k < tool_order().len() && tool_name(tool_order()[k]) == id {
        (choose|k: int| 0 <= k < tool_order().len() && tool_name(tool_order()[k]) == id) as u64
    } else {
        u64::MAX
    }
}

fn position_of(id: &String) -> (r: u64)
    ensures
        r == registry_position(id@),
{
    let all = tool_registry();
    let mut k: usize = 0;
    while k < all.len()
        invariant
            all@.len() == tool_order().len(),
            forall|j: int| 0 <= j < all@.len() ==> (#[trigger] all@[j]).kind == tool_order()[j],
            k <= all@.len(),
            forall|j: int| 0 <= j < k ==> tool_name(tool_order()[j]) != id@,
        decreases all.len() - k,
    {
        if crate::text::str_eq(all[k].id_text(), id.as_str()) {
            proof {
                let c = choose|c: int| 0 <= c < tool_order().len() && tool_name(tool_order()[c]) == id@;
                lemma_tool_name_unique(tool_order()[c], tool_order()[k as int]);
                assert(c == k) by {
                    reveal_with_fuel(tool_order, 1);
                }
            }
            return k as u64;
        }
        k = k + 1;
    }
    u64::MAX
}

proof fn lemma_tool_name_unique(a: ToolKind, b: ToolKind)
    requires
        tool_name(a) == tool_name(b),
    ensures
        a == b,
{
    reveal_strlit("rust");
    reveal_strlit("node");
    reveal_strlit("npm");
    reveal_strlit("pnpm");
    reveal_strlit("go");
    reveal_strlit("bun");
    reveal_strlit("deno");
    reveal_strlit("uv");
    assert(tool_name(a)[0] == tool_name(b)[0]);
    assert(tool_name(a)[1] == tool_name(b)[1]);
    assert(tool_name(a)[0] == tool_initials(a).0 && tool_name(a)[1] == tool_initials(a).1);
    assert(tool_name(b)[0] == tool_initials(b).0 && tool_name(b)[1] == tool_initials(b).1);
}

spec fn tool_initials(k: ToolKind) -> (char, char) {
    match k {
        ToolKind::Rust => ('r', 'u'),
        ToolKind::Node => ('n', 'o'),
        ToolKind::Npm => ('n', 'p'),
        ToolKind::Pnpm => ('p', 'n'),
        ToolKind::Go => ('g', 'o'),
        ToolKind::Bun => ('b', 'u'),
        ToolKind::Deno => ('d', 'e'),
        ToolKind::Uv => ('u', 'v'),
    }
}

/// The registry positions of reports.
pub open spec fn report_positions(reports: Seq<ToolReport>) -> Seq<u64> {
    reports.map_values(|t: ToolReport| registry_position(t.id@))
}

/// The tool reports in registry order (a stable sort by registry position; unknown tools
/// last).
pub fn order_tool_reports(reports: &Vec<ToolReport>) -> (r: Vec<ToolReport>)
    ensures
        exists|order: Seq<int>|
            #[trigger] stably_sorted_by_key(report_positions(reports@), order) && r@.len() == order.len() && forall|k: int|
                0 <= k < order.len() ==> (#[trigger] r@[k]).deep_view() == reports@[order[k]].deep_view(),
{
    let mut keys: Vec<u64> = Vec::new();
    let mut i: usize = 0;
    while i < reports.len()
        invariant
            i <= reports@.len(),
            keys@ == reports@.subrange(0, i as int).map_values(|t: ToolReport| registry_position(t.id@)),
        decreases reports.len() - i,
    {
        let p = position_of(&reports[i].id);
        keys.push(p);
        proof {
            assert(reports@.subrange(0, i + 1).map_values(|t: ToolReport| registry_position(t.id@))
                =~= reports@.subrange(0, i as int).map_values(|t: ToolReport| registry_position(t.id@)).push(p));
        }
        i = i + 1;
    }
    proof {
        assert(reports@.subrange(0, reports@.len() as int) =~= reports@);
    }
    let order = stable_order_by_key(&keys);
    let ghost om = order@.map_values(|i: usize| i as int);
    let mut out: Vec<ToolReport> = Vec::new();
    let mut j: usize = 0;
    while j < order.len()
        invariant
            keys@ == report_positions(reports@),
            om == order@.map_values(|i: usize| i as int),
            stably_sorted_by_key(keys@, om),
            j <= order@.len(),
            out@.len() == j,
            forall|m: int| 0 <= m < j ==> (#[trigger] out@[m]).deep_view() == reports@[om[m]].deep_view(),
        decreases order.len() - j,
    {
        let x = order[j];
        assert(om[j as int] == x as int);
        out.push(reports[x].duplicate());
        j = j + 1;
    }
    out
}

/// Why a report cannot be verified before anything runs.
pub open spec fn verification_precheck(report: ToolReport) -> Result<ToolKind, Seq<char>> {
    if report.installation is None {
        Err("report has no installation"@)
    } else if exists|k: int| 0 <= k < tool_order().len() && tool_name(tool_order()[k]) == report.id@ {
        Ok(
            tool_order()[choose|k: int|
                0 <= k < tool_order().len() && tool_name(tool_order()[k]) == report.id@],
        )
    } else {
        Err("tool adapter not found"@)
    }
}

/// The adapter that detects the reported tool again for verification; refused where the
/// report has no installation or names no built-in tool.
pub fn verification_adapter(report: &ToolReport) -> (r: Result<BuiltinToolAdapter, String>)
    ensures
        match verification_precheck(*report) {
            Ok(k) => r matches Ok(a) && a.kind == k,
            Err(m) => r matches Err(x) && x@ == m,
        },
{
    if report.installation.is_none() {
        return Err(owned("report has no installation"));
    }
    let all = tool_registry();
    let mut k: usize = 0;
    while k < all.len()
        invariant
            all@.len() == tool_order().len(),
            forall|j: int| 0 <= j < all@.len() ==> (#[trigger] all@[j]).kind == tool_order()[j],
            k <= all@.len(),
            forall|j: int| 0 <= j < k ==> tool_name(tool_order()[j]) != report.id@,
            report.installation is Some,
        decreases all.len() - k,
    {
        if crate::text::str_eq(all[k].id_text(), report.id.as_str()) {
            proof {
                assert(tool_name(tool_order()[k as int]) == report.id@);
                let c = choose|c: int| 0 <= c < tool_order().len() && tool_name(tool_order()[c]) == report.id@;
                lemma_tool_name_unique(tool_order()[c], tool_order()[k as int]);
            }
            return Ok(all[k]);
        }
        k = k + 1;
    }
    Err(owned("tool adapter not found"))
}

/// The outcome of verifying a report against the tool detected after its update: refused
/// where the active executable changed, or where the planned update's target is not met;
/// otherwise the version now shown.
pub fn verified_version(report: &ToolReport, detected: &DetectedTool) -> (r: Result<String, String>)
    requires
        report.installation is Some,
    ensures
        ({
            let inst = report.installation->0;
            if detected.executable@ != inst.executable@ {
                r matches Err(m) && m@ == "active executable changed during verification"@
            } else {
                match report.update {
                    None => r matches Ok(v) && v@ == detected.version.display_view(),
                    Some(u) => match verification_outcome(
                        u.action.target_mode,
                        inst.current.display_view(),
                        u.action.expected_version.display_view(),
                        detected.version.display_view(),
                        Comparison::Semantic,
                    ) {
                        Ok(_) => r matches Ok(v) && v@ == detected.version.display_view(),
                        Err(e) => r matches Err(m) && m@ == verify_error_text(e),
                    },
                }
            }
        }),
{
    let inst = match &report.installation {
        Some(i) => i,
        None => {
            return Err(owned("report has no installation"));
        },
    };
    if !crate::text::str_eq(detected.executable.as_str(), inst.executable.as_str()) {
        return Err(owned("active executable changed during verification"));
    }
    match &report.update {
        Some(u) => {
            match verify_versions(
                u.action.target_mode,
                &inst.current,
                &u.action.expected_version,
                &detected.version,
                Comparison::Semantic,
            ) {
                Ok(_) => {},
                Err(e) => {
                    return Err(e.message());
                },
            }
        },
        None => {},
    }
    Ok(owned(detected.version.display()))
}

/// The recovery advice for a failed update, by the manager that was to run it.
pub open spec fn recovery_text(manager: Option<Seq<char>>) -> Seq<char> {
    match manager {
        Some(m) => if m == "homebrew"@ {
            "Run `brew doctor` and inspect the qualified formula or cask."@
        } else if m == "rustup"@ {
            "Run `rustup show` and `rustup check`."@
        } else if m == "mise"@ {
            "Run `mise doctor` and `mise current`."@
        } else if m == "npm"@ || m == "corepack"@ {
            "Run `npm doctor` and inspect Corepack/global prefix state."@
        } else {
            "Inspect PATH and reinstall the tool with its original manager."@
        },
        None => "Inspect PATH and reinstall the tool with its original manager."@,
    }
}

/// The recovery advice for a failed update of the reported tool.
pub fn recovery_hint(report: &ToolReport) -> (r: String)
    ensures
        r@ == recovery_text(
            match report.update {
                Some(u) => Some(u.manager@),
                None => None,
            },
        ),
{
    match &report.update {
        Some(u) => {
            let m = u.manager.as_str();
            if crate::text::str_eq(m, "homebrew") {
                owned("Run `brew doctor` and inspect the qualified formula or cask.")
            } else if crate::text::str_eq(m, "rustup") {
                owned("Run `rustup show` and `rustup check`.")
            } else if crate::text::str_eq(m, "mise") {
                owned("Run `mise doctor` and `mise current`.")
            } else if crate::text::str_eq(m, "npm") || crate::text::str_eq(m, "corepack") {
                owned("Run `npm doctor` and inspect Corepack/global prefix state.")
            } else {
                owned("Inspect PATH and reinstall the tool with its original manager.")
            }
        },
        None => owned("Inspect PATH and reinstall the tool with its original manager."),
    }
}

} // verus!
