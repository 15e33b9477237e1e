use beacon::command::CommandSpec;
use beacon::providers::{ManagerId, SourceId, TargetMode, ToolVersion, UpgradeAction};
use beacon::runner::sanitize_verbose_line;
use beacon::ui::{spinner_template, status_text, FeedbackMode, ProgressState, StageDisplay};
use beacon::upgrade::{resolve_targets, upgrade_candidates};
use beacon::{Diagnostics, InstallationReport, ToolReport, ToolStatus, UpdateReport};

fn report(id: &str, status: ToolStatus) -> ToolReport {
    let current = ToolVersion::new("1.0.0", Some("1.0.0".into())).unwrap();
    let latest = ToolVersion::new("2.0.0", Some("2.0.0".into())).unwrap();
    let manager = ManagerId::new("homebrew").unwrap();
    let installation = if status != ToolStatus::Missing {
        Some(InstallationReport {
            current,
            executable: format!("/opt/homebrew/bin/{id}"),
            source: Some(SourceId::new("homebrew").unwrap()),
            alternatives: vec![],
        })
    } else {
        None
    };
    ToolReport {
        id: id.into(),
        name: id.into(),
        status,
        detail: None,
        installation,
        update: Some(UpdateReport {
            manager: manager.clone(),
            latest: latest.clone(),
            action: UpgradeAction {
                manager,
                command: CommandSpec::new("brew", &["upgrade", "--formula", id]),
                expected_version: latest,
                target_mode: TargetMode::Floating,
            },
        }),
        diagnostics: Diagnostics::default(),
    }
}

#[test]
fn missing_tools_are_not_upgrade_candidates() {
    let reports = vec![report("node", ToolStatus::Outdated), report("pnpm", ToolStatus::Missing)];

    let candidates = upgrade_candidates(&reports);

    assert_eq!(candidates.iter().map(|item| item.id.as_str()).collect::<Vec<_>>(), ["node"]);
}

#[test]
fn explicitly_upgrading_a_missing_tool_explains_the_boundary() {
    let reports = vec![report("pnpm", ToolStatus::Missing)];

    let error = resolve_targets(&reports, &vec!["pnpm".to_string()]).unwrap_err();

    assert!(error.message().contains("not installed"));
    assert!(error.message().contains("does not install"));
}

#[test]
fn current_and_missing_tools_cannot_enter_upgrade_selection() {
    let mut current = report("deno", ToolStatus::Current);
    current.update = None;
    let mut missing = report("bun", ToolStatus::Missing);
    missing.update = None;
    let reports = vec![current, missing];

    let missing_error = resolve_targets(&reports, &vec!["bun".to_string()]).unwrap_err();
    assert!(
        missing_error.message().contains("not installed")
            || missing_error.message().contains("not actionable")
    );

    let current_error = resolve_targets(&reports, &vec!["deno".to_string()]).unwrap_err();
    assert!(current_error.message().contains("not actionable"));
}

#[test]
fn an_outdated_tool_is_selected_by_identifier_or_name() {
    let reports = vec![report("node", ToolStatus::Outdated), report("go", ToolStatus::Current)];
    let selected = resolve_targets(&reports, &vec!["node".to_string()]).unwrap();
    assert_eq!(selected.len(), 1);
    assert_eq!(selected[0].id, "node");
    let unknown = resolve_targets(&reports, &vec!["brew:missing".to_string()]).unwrap_err();
    assert!(unknown.message().contains("not actionable"));
}

#[test]
fn status_colors_can_be_disabled() {
    let plain = status_text(ToolStatus::Outdated, false, 8);
    let colored = status_text(ToolStatus::Outdated, true, 8);

    assert_eq!(plain, "outdated");
    assert!(!plain.contains("\u{1b}["));
    assert!(colored.contains("\u{1b}["));
}

#[test]
fn status_text_is_padded_to_the_width() {
    assert_eq!(status_text(ToolStatus::Current, false, 12), "current     ");
    assert_eq!(status_text(ToolStatus::Failed, false, 2), "failed");
}

#[test]
fn feedback_mode_preserves_machine_output() {
    assert_eq!(FeedbackMode::select(true, false, false), FeedbackMode::Spinner);
    assert_eq!(FeedbackMode::select(false, false, false), FeedbackMode::Plain);
    assert_eq!(FeedbackMode::select(true, true, false), FeedbackMode::Silent);
    assert_eq!(FeedbackMode::select(true, true, true), FeedbackMode::Verbose);
}

#[test]
fn no_color_spinner_template_has_no_ansi_style_directive() {
    assert!(!spinner_template(false).contains(".cyan"));
    assert!(spinner_template(true).contains(".cyan"));
}

#[test]
fn verbose_lines_are_redacted_before_streaming() {
    let line = "token=secret /Users/alice/private\n";
    let safe = sanitize_verbose_line(line, Some("/Users/alice"));

    assert!(!safe.contains("secret"));
    assert!(!safe.contains("/Users/alice"));
    assert!(safe.ends_with('\n'));
}

#[test]
fn one_spinner_serves_overlapping_stages() {
    let mut progress = ProgressState::new();
    assert_eq!(progress.start(FeedbackMode::Spinner), StageDisplay::NewSpinner);
    assert_eq!(progress.start(FeedbackMode::Spinner), StageDisplay::Relabel);
    assert!(!progress.finish());
    assert!(progress.finish());
    assert!(!progress.finish());
    assert_eq!(progress.start(FeedbackMode::Plain), StageDisplay::Line);
    assert_eq!(progress.start(FeedbackMode::Silent), StageDisplay::Nothing);
    assert!(!progress.finish());
}

#[test]
fn the_selection_keeps_report_order_and_only_named_candidates() {
    let mut named = report("rg", ToolStatus::Outdated);
    named.name = "ripgrep".into();
    let reports = vec![
        report("node", ToolStatus::Outdated),
        report("go", ToolStatus::Outdated),
        named,
        report("deno", ToolStatus::Current),
    ];
    let targets = vec!["ripgrep".to_string(), "node".to_string(), "node".to_string()];
    let selected = resolve_targets(&reports, &targets).unwrap();
    let ids: Vec<&str> = selected.iter().map(|r| r.id.as_str()).collect();
    assert_eq!(ids, ["node", "rg"]);
}

#[test]
fn doctor_shows_every_report_or_the_named_ones_in_order() {
    let reports = vec![
        report("node", ToolStatus::Outdated),
        report("go", ToolStatus::Current),
        report("bun", ToolStatus::Missing),
    ];
    assert_eq!(beacon::upgrade::doctor_reports(&reports, &vec![]).len(), 3);
    let named = beacon::upgrade::doctor_reports(&reports, &vec!["bun".to_string(), "node".to_string()]);
    let ids: Vec<&str> = named.iter().map(|r| r.id.as_str()).collect();
    assert_eq!(ids, ["node", "bun"]);
}

#[test]
fn ownership_names_unknown_where_a_report_lacks_it() {
    let outdated = report("node", ToolStatus::Outdated);
    assert_eq!(outdated.ownership(), ("homebrew".to_string(), "homebrew".to_string()));
    let mut missing = report("bun", ToolStatus::Missing);
    missing.update = None;
    assert_eq!(missing.ownership(), ("unknown".to_string(), "unknown".to_string()));
}
