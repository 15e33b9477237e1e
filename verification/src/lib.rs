//! Beacon: the decision logic of a conservative development-toolchain manager.
//!
//! The library holds the parts of Beacon that decide: which executable claims win,
//! which reports may be upgraded, how a result is verified, how text is redacted,
//! how configuration is selected and migrated. The command-line program around it
//! performs the process, file and database work and hands plain values in and out.
pub mod agent_skills;
pub mod command;
pub mod config;
pub mod copy;
pub mod envelope;
pub mod orchestrator;
pub mod providers;
pub mod redact;
pub mod reports;
pub mod runner;
pub mod sorting;
pub mod store;
pub mod text;
pub mod ui;
pub mod upgrade;
pub mod versions;

pub use reports::{
    AlternativeInstallation, CheckData, Diagnostics, InstallationReport, InventoryChange,
    InventoryChangeKind, InventoryReport, InventoryRuntime, ResourceScope, ToolReport, ToolStatus,
    UpdateReport,
};
