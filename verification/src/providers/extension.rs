//! The interfaces a tool adapter and an install manager offer, and their built-in
//! implementations. Detection, snapshots and latest-version queries run commands; their
//! commands and the decisions on their outputs are methods of the built-in types.
use super::adapters::BuiltinToolAdapter;
use super::claims::ManagerClaims;
use super::managers::{BuiltinInstallManager, ManagerError};
use super::verification::VersionOrder;
use super::{DetectedTool, ManagerId, ManagerSnapshot, ToolId, ToolVersion, UpgradeAction};
use vstd::prelude::*;

verus! {

/// What Beacon asks of a tool adapter once a tool has been detected.
pub trait ToolAdapter {
    /// The tool's identifier.
    fn id(&self) -> ToolId;

    /// The tool's display name.
    fn display_name(&self) -> &'static str;

    /// The version in the output of the tool's version command.
    fn parse_version(&self, output: &str) -> Result<ToolVersion, String>;

    /// The order of an installed and a latest version.
    fn compare(&self, current: &ToolVersion, latest: &ToolVersion) -> Result<VersionOrder, String>;
}

/// What Beacon asks of an install manager once its snapshot has been taken.
pub trait InstallManager {
    /// The manager's identifier.
    fn id(&self) -> ManagerId;

    /// What the manager claims about a detected tool.
    fn claim(&self, tool: &DetectedTool, snapshot: &ManagerSnapshot) -> ManagerClaims;

    /// The action that upgrades a detected tool to a latest version.
    fn upgrade(&self, tool: &DetectedTool, latest: &ToolVersion, snapshot: &ManagerSnapshot) -> Result<
        UpgradeAction,
        ManagerError,
    >;
}

impl ToolAdapter for BuiltinToolAdapter {
    fn id(&self) -> ToolId {
        BuiltinToolAdapter::id(self)
    }

    fn display_name(&self) -> &'static str {
        BuiltinToolAdapter::display_name(self)
    }

    fn parse_version(&self, output: &str) -> Result<ToolVersion, String> {
        BuiltinToolAdapter::parse_version(self, output)
    }

    fn compare(&self, current: &ToolVersion, latest: &ToolVersion) -> Result<VersionOrder, String> {
        BuiltinToolAdapter::compare(self, current, latest)
    }
}

impl InstallManager for BuiltinInstallManager {
    fn id(&self) -> ManagerId {
        BuiltinInstallManager::id(self)
    }

    fn claim(&self, tool: &DetectedTool, snapshot: &ManagerSnapshot) -> ManagerClaims {
        BuiltinInstallManager::claim(self, tool, snapshot)
    }

    fn upgrade(&self, tool: &DetectedTool, latest: &ToolVersion, snapshot: &ManagerSnapshot) -> Result<
        UpgradeAction,
        ManagerError,
    > {
        BuiltinInstallManager::upgrade(self, tool, latest, snapshot)
    }
}

} // verus!
