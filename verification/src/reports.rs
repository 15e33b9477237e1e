//! The reports Beacon produces for tools and inventories.
use crate::copy::Duplicate;
use crate::providers::{
    ActionView, ClaimEvidence, ManagerId, SourceId, ToolVersion, UpgradeAction,
};
use vstd::prelude::*;

verus! {

/// The state of a tool or inventory item.
#[derive(Debug, Clone, Copy, PartialEq, Eq, Structural)]
pub enum ToolStatus {
    Current,
    Outdated,
    Missing,
    Unmanaged,
    Failed,
}

impl ToolStatus {
    /// The lower-case name used in reports.
    pub fn as_str(&self) -> (r: &'static str)
        ensures
            r@ == status_name(*self),
    {
        match self {
            ToolStatus::Current => "current",
            ToolStatus::Outdated => "outdated",
            ToolStatus::Missing => "missing",
            ToolStatus::Unmanaged => "unmanaged",
            ToolStatus::Failed => "failed",
        }
    }
}

/// The lower-case name of a status.
pub open spec fn status_name(s: ToolStatus) -> Seq<char> {
    match s {
        ToolStatus::Current => "current"@,
        ToolStatus::Outdated => "outdated"@,
        ToolStatus::Missing => "missing"@,
        ToolStatus::Unmanaged => "unmanaged"@,
        ToolStatus::Failed => "failed"@,
    }
}

/// Another installation of the same tool that is not the active one.
#[derive(Debug, PartialEq, Eq)]
pub struct AlternativeInstallation {
    pub source: SourceId,
    pub versions: Vec<ToolVersion>,
    pub paths: Vec<String>,
}

/// The active installation of a tool.
#[derive(Debug, PartialEq, Eq)]
pub struct InstallationReport {
    pub current: ToolVersion,
    pub executable: String,
    pub source: Option<SourceId>,
    pub alternatives: Vec<AlternativeInstallation>,
}

/// The update manager, latest version and update action of a tool.
#[derive(Debug, PartialEq, Eq)]
pub struct UpdateReport {
    pub manager: ManagerId,
    pub latest: ToolVersion,
    pub action: UpgradeAction,
}

/// Claim evidence and conflicts, kept for diagnosis.
#[derive(Debug, PartialEq, Eq)]
pub struct Diagnostics {
    pub evidence: Vec<ClaimEvidence>,
    pub conflicts: Vec<ClaimEvidence>,
}

impl Default for Diagnostics {
    fn default() -> (r: Diagnostics)
        ensures
            r.evidence@.len() == 0,
            r.conflicts@.len() == 0,
    {
        Diagnostics { evidence: Vec::new(), conflicts: Vec::new() }
    }
}

/// What Beacon knows about one tool.
#[derive(Debug, PartialEq, Eq)]
pub struct ToolReport {
    pub id: String,
    pub name: String,
    pub status: ToolStatus,
    pub detail: Option<String>,
    pub installation: Option<InstallationReport>,
    pub update: Option<UpdateReport>,
    pub diagnostics: Diagnostics,
}

/// The boundary an installed resource belongs to.
#[derive(Debug, Clone, Copy, PartialEq, Eq, Structural)]
pub enum ResourceScope {
    System,
    Global,
    Project,
}

impl Default for ResourceScope {
    fn default() -> (r: ResourceScope)
        ensures
            r == ResourceScope::System,
    {
        ResourceScope::System
    }
}

/// The lower-case name of a scope.
pub open spec fn scope_name(s: ResourceScope) -> Seq<char> {
    match s {
        ResourceScope::System => "system"@,
        ResourceScope::Global => "global"@,
        ResourceScope::Project => "project"@,
    }
}

impl ResourceScope {
    /// The lower-case name of this scope.
    pub fn as_str(self) -> (r: &'static str)
        ensures
            r@ == scope_name(self),
    {
        match self {
            ResourceScope::System => "system",
            ResourceScope::Global => "global",
            ResourceScope::Project => "project",
        }
    }
}

/// How a file of an inventory item changes in an update.
#[derive(Debug, Clone, Copy, PartialEq, Eq, Structural)]
pub enum InventoryChangeKind {
    Added,
    Modified,
    Removed,
}

/// One changed file of an inventory item.
#[derive(Debug, PartialEq, Eq)]
pub struct InventoryChange {
    pub path: String,
    pub kind: InventoryChangeKind,
}

/// Local facts about an inventory item that are needed to update and verify it.
#[derive(Debug, PartialEq, Eq)]
pub struct InventoryRuntime {
    pub canonical_path: Option<String>,
    pub receipt_path: Option<String>,
    pub project_root: Option<String>,
    pub manager_path: Option<String>,
    pub manager_version: Option<String>,
}

impl Default for InventoryRuntime {
    fn default() -> (r: InventoryRuntime)
        ensures
            r.canonical_path is None,
            r.receipt_path is None,
            r.project_root is None,
            r.manager_path is None,
            r.manager_version is None,
    {
        InventoryRuntime {
            canonical_path: None,
            receipt_path: None,
            project_root: None,
            manager_path: None,
            manager_version: None,
        }
    }
}

/// What Beacon knows about one inventory item.
#[derive(Debug, PartialEq, Eq)]
pub struct InventoryReport {
    pub id: String,
    pub name: String,
    pub kind: String,
    pub status: ToolStatus,
    pub current: Option<ToolVersion>,
    pub latest: Option<ToolVersion>,
    pub action: Option<UpgradeAction>,
    pub detail: Option<String>,
    pub scope: ResourceScope,
    pub installation_source: Option<String>,
    pub source_locator: Option<String>,
    pub update_manager: Option<String>,
    pub changes: Vec<InventoryChange>,
    pub runtime: InventoryRuntime,
}

/// The outcome of a check: tool reports and inventory reports, kept apart.
#[derive(Debug, PartialEq, Eq)]
pub struct CheckData {
    pub tools: Vec<ToolReport>,
    pub inventories: Vec<InventoryReport>,
}

impl Default for CheckData {
    fn default() -> (r: CheckData)
        ensures
            r.tools@.len() == 0,
            r.inventories@.len() == 0,
    {
        CheckData { tools: Vec::new(), inventories: Vec::new() }
    }
}

/// An alternative installation as plain values.
pub struct AlternativeView {
    pub source: SourceId,
    pub versions: Seq<ToolVersion>,
    pub paths: Seq<Seq<char>>,
}

impl DeepView for AlternativeInstallation {
    type V = AlternativeView;

    open spec fn deep_view(&self) -> AlternativeView {
        AlternativeView {
            source: self.source,
            versions: self.versions.deep_view(),
            paths: self.paths.deep_view(),
        }
    }
}

impl Duplicate for AlternativeInstallation {
    fn duplicate(&self) -> (r: AlternativeInstallation) {
        AlternativeInstallation {
            source: self.source.duplicate(),
            versions: self.versions.duplicate(),
            paths: self.paths.duplicate(),
        }
    }
}

/// An installation report as plain values.
pub struct InstallationView {
    pub current: ToolVersion,
    pub executable: Seq<char>,
    pub source: Option<SourceId>,
    pub alternatives: Seq<AlternativeView>,
}

impl DeepView for InstallationReport {
    type V = InstallationView;

    open spec fn deep_view(&self) -> InstallationView {
        InstallationView {
            current: self.current,
            executable: self.executable@,
            source: self.source,
            alternatives: self.alternatives.deep_view(),
        }
    }
}

impl Duplicate for InstallationReport {
    fn duplicate(&self) -> (r: InstallationReport) {
        InstallationReport {
            current: self.current.duplicate(),
            executable: self.executable.clone(),
            source: match &self.source {
                Some(s) => Some(s.duplicate()),
                None => None,
            },
            alternatives: self.alternatives.duplicate(),
        }
    }
}

/// An update report as plain values.
pub struct UpdateView {
    pub manager: ManagerId,
    pub latest: ToolVersion,
    pub action: ActionView,
}

impl DeepView for UpdateReport {
    type V = UpdateView;

    open spec fn deep_view(&self) -> UpdateView {
        UpdateView {
            manager: self.manager,
            latest: self.latest,
            action: self.action.deep_view(),
        }
    }
}

impl Duplicate for UpdateReport {
    fn duplicate(&self) -> (r: UpdateReport) {
        UpdateReport {
            manager: self.manager.duplicate(),
            latest: self.latest.duplicate(),
            action: self.action.duplicate(),
        }
    }
}

/// Diagnostics as plain values.
pub struct DiagnosticsView {
    pub evidence: Seq<ClaimEvidence>,
    pub conflicts: Seq<ClaimEvidence>,
}

impl DeepView for Diagnostics {
    type V = DiagnosticsView;

    open spec fn deep_view(&self) -> DiagnosticsView {
        DiagnosticsView {
            evidence: self.evidence.deep_view(),
            conflicts: self.conflicts.deep_view(),
        }
    }
}

impl Duplicate for Diagnostics {
    fn duplicate(&self) -> (r: Diagnostics) {
        Diagnostics { evidence: self.evidence.duplicate(), conflicts: self.conflicts.duplicate() }
    }
}

/// A tool report as plain values.
pub struct ReportView {
    pub id: Seq<char>,
    pub name: Seq<char>,
    pub status: ToolStatus,
    pub detail: Option<Seq<char>>,
    pub installation: Option<InstallationView>,
    pub update: Option<UpdateView>,
    pub diagnostics: DiagnosticsView,
}

impl DeepView for ToolReport {
    type V = ReportView;

    open spec fn deep_view(&self) -> ReportView {
        ReportView {
            id: self.id@,
            name: self.name@,
            status: self.status,
            detail: self.detail.deep_view(),
            installation: self.installation.deep_view(),
            update: self.update.deep_view(),
            diagnostics: self.diagnostics.deep_view(),
        }
    }
}

impl Duplicate for ToolReport {
    fn duplicate(&self) -> (r: ToolReport) {
        ToolReport {
            id: self.id.clone(),
            name: self.name.clone(),
            status: self.status,
            detail: self.detail.duplicate(),
            installation: self.installation.duplicate(),
            update: self.update.duplicate(),
            diagnostics: self.diagnostics.duplicate(),
        }
    }
}


/// The source and the update manager a history record names for a report: the installation's
/// source and the update's manager, each `unknown` where the report has none.
pub open spec fn ownership_names(v: ReportView) -> (Seq<char>, Seq<char>) {
    (
        match v.installation {
            Some(i) => match i.source {
                Some(s) => s@,
                None => "unknown"@,
            },
            None => "unknown"@,
        },
        match v.update {
            Some(u) => u.manager@,
            None => "unknown"@,
        },
    )
}

impl ToolReport {
    /// The source and the update manager named for this report, `unknown` where missing.
    pub fn ownership(&self) -> (r: (String, String))
        ensures
            (r.0@, r.1@) == ownership_names(self.deep_view()),
    {
        let source = match &self.installation {
            Some(i) => match &i.source {
                Some(s) => crate::command::owned(s.as_str()),
                None => crate::command::owned("unknown"),
            },
            None => crate::command::owned("unknown"),
        };
        let manager = match &self.update {
            Some(u) => crate::command::owned(u.manager.as_str()),
            None => crate::command::owned("unknown"),
        };
        (source, manager)
    }
}

} // verus!
