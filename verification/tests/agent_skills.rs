use beacon::agent_skills::manifest::{directory_revision, path_key};
use beacon::agent_skills::receipts::{
    check_receipt, listed_scope, prepare_candidate, project_state, sanitize_locator,
    BaselineLookup, Prepared, ReceiptEntry, ReceiptFacts, ReceiptRead, ReceiptVerdict,
    SkillFacts,
};
use beacon::agent_skills::reports::{
    check_candidate, recovery_plan, sandbox_plan, skill_id, update_args, Candidate, CandidateStep,
};
use beacon::agent_skills::Capability;
use beacon::providers::ToolVersion;
use beacon::agent_skills::{
    compare_manifests, package_command, parse_version, probe_failure, Manifest, PackageRunner,
};
use beacon::store::SkillBaseline;
use beacon::{InventoryChangeKind, ResourceScope, ToolStatus};

fn manifest(pairs: &[(&str, &str)]) -> Manifest {
    Manifest::from_pairs(pairs.iter().map(|(p, d)| (p.to_string(), d.to_string())).collect())
}

fn entry(source_type: Option<&str>) -> ReceiptEntry {
    ReceiptEntry {
        source_type: source_type.map(|s| s.to_string()),
        source_url: Some("https://user:pw@github.com/acme/skills?ref=main".to_string()),
        source: None,
        computed_hash: Some("abc".to_string()),
        skill_folder_hash: None,
    }
}

#[test]
fn parses_cli_version() {
    assert_eq!(parse_version("skills 1.5.18", "skills").unwrap().display(), "1.5.18");
}

#[test]
fn version_reading_skips_words_and_leading_v() {
    assert_eq!(parse_version("npx version v10.2.4", "npx").unwrap().display(), "10.2.4");
    assert_eq!(
        parse_version("no version here", "bunx").err().unwrap(),
        "bunx --version returned no semantic version"
    );
    assert_eq!(
        parse_version("skills 1.5", "skills").err().unwrap(),
        "invalid skills semantic version"
    );
}

#[test]
fn strips_url_credentials_and_query() {
    assert_eq!(
        sanitize_locator("https://token@example.com/org/repo?token=secret", None),
        "https://example.com/org/repo"
    );
}

#[test]
fn locators_without_a_scheme_keep_their_at_sign() {
    assert_eq!(sanitize_locator("git@github.com:org/repo#main", None), "git@github.com:org/repo");
}

#[test]
fn reports_manifest_changes_without_contents() {
    let before = manifest(&[("a", "1"), ("b", "2")]);
    let after = manifest(&[("b", "3"), ("c", "4")]);
    let changes = compare_manifests(&before, &after);
    assert_eq!(changes.len(), 3);
    assert_eq!(changes[0].kind, InventoryChangeKind::Removed);
    assert_eq!(changes[1].kind, InventoryChangeKind::Modified);
    assert_eq!(changes[2].kind, InventoryChangeKind::Added);
}

#[test]
fn an_unchanged_manifest_reports_nothing() {
    let before = manifest(&[("z", "1"), ("a", "2"), ("a", "3")]);
    assert_eq!(before.entries().len(), 2);
    assert_eq!(before.entries()[0], ("a".to_string(), "3".to_string()));
    assert!(compare_manifests(&before, &before).is_empty());
}

#[test]
fn manifest_keys_refuse_parent_components() {
    assert_eq!(path_key("dir\\file.md").unwrap(), "dir/file.md");
    assert!(path_key("../escape").is_err());
    assert!(path_key("a/../b").is_err());
    assert_eq!(path_key("a/..b").unwrap(), "a/..b");
}

#[test]
fn revisions_hash_keys_and_contents() {
    let empty = directory_revision(&vec![]);
    assert_eq!(
        empty,
        "sha256:e3b0c44298fc1c149afbf4c8996fb92427ae41e4649b934ca495991b7852b855"
    );
    let one = directory_revision(&vec![("a".to_string(), b"bc".to_vec())]);
    let joined = directory_revision(&vec![("abc".to_string(), vec![])]);
    assert_eq!(one, joined);
    assert_ne!(one, empty);
}

#[test]
fn npx_installs_the_package_without_asking() {
    let command = package_command("/usr/bin/npx", PackageRunner::Npx, &vec!["list".to_string()]);
    assert_eq!(command.program, "/usr/bin/npx");
    assert_eq!(command.args, ["--yes", "skills@^1.5.18", "list"]);
    assert_eq!(command.environment, [("DISABLE_TELEMETRY".to_string(), "1".to_string())]);
    let bunx = package_command("/bin/bunx", PackageRunner::Bunx, &vec![]);
    assert_eq!(bunx.args, ["skills@^1.5.18"]);
}

#[test]
fn probe_failures_are_joined() {
    let message = probe_failure(&vec!["npx: missing".to_string(), "bunx: missing".to_string()]);
    assert_eq!(message, "no usable package runner for `skills@^1.5.18`; npx: missing; bunx: missing");
}

#[test]
fn skill_identifiers_and_update_arguments_name_the_scope() {
    assert_eq!(skill_id(ResourceScope::Global, "writer"), "skill:global:writer");
    assert_eq!(update_args("writer", ResourceScope::Project), ["update", "writer", "--project", "--yes"]);
    assert_eq!(listed_scope("global"), Some(ResourceScope::Global));
    assert_eq!(listed_scope("system"), None);
}

#[test]
fn receipts_of_another_version_or_source_are_refused_or_unmanaged() {
    let refused = check_receipt(
        ResourceScope::Global,
        &ReceiptFacts { version: Some(2), entry: Some(entry(Some("github"))) },
        None,
    );
    match refused {
        ReceiptVerdict::Refused(message) => {
            assert_eq!(message, "unsupported global receipt version 2; expected 3")
        }
        other => panic!("unexpected verdict {other:?}"),
    }
    let missing = check_receipt(ResourceScope::Project, &ReceiptFacts { version: None, entry: None }, None);
    match missing {
        ReceiptVerdict::Refused(message) => {
            assert_eq!(message, "unsupported project receipt version missing; expected 1")
        }
        other => panic!("unexpected verdict {other:?}"),
    }
    let local = check_receipt(
        ResourceScope::Global,
        &ReceiptFacts { version: Some(3), entry: Some(entry(Some("local"))) },
        None,
    );
    match local {
        ReceiptVerdict::Unmanaged(detail) => {
            assert_eq!(detail, "source type `local` is not safely updateable")
        }
        other => panic!("unexpected verdict {other:?}"),
    }
    let accepted = check_receipt(
        ResourceScope::Global,
        &ReceiptFacts { version: Some(3), entry: Some(entry(Some("github"))) },
        None,
    );
    match accepted {
        ReceiptVerdict::Accepted { source, locator } => {
            assert_eq!(source, "github");
            assert_eq!(locator.as_deref(), Some("https://github.com/acme/skills"));
        }
        other => panic!("unexpected verdict {other:?}"),
    }
}

#[test]
fn project_skills_with_another_hash_are_modified() {
    let same = project_state(&entry(Some("github")), "sha256:abc", false);
    assert!(!same.modified);
    assert!(same.detail.is_none());
    let changed = project_state(&entry(Some("github")), "sha256:abd", false);
    assert!(changed.modified);
    let overlap = project_state(&entry(Some("github")), "sha256:abc", true);
    assert!(overlap.modified);
}

fn facts(receipt: ReceiptRead, baseline: Option<BaselineLookup>) -> SkillFacts {
    SkillFacts {
        canonical_path: "/Users/alice/.agents/skills/writer".to_string(),
        receipt_path: "/Users/alice/.agents/.skill-lock.json".to_string(),
        receipt,
        scope_base: Ok("/Users/alice".to_string()),
        revision: Ok("sha256:new".to_string()),
        git_overlap: false,
        baseline,
    }
}

#[test]
fn a_global_content_change_without_a_receipt_change_is_unmanaged() {
    let read = ReceiptRead::Read(ReceiptFacts { version: Some(3), entry: Some(entry(Some("github"))) });
    let lookup = BaselineLookup {
        stored: Some(SkillBaseline {
            receipt_fingerprint: "sha256:f".to_string(),
            content_revision: "sha256:old".to_string(),
        }),
        fingerprint: Ok("sha256:f".to_string()),
    };
    let prepared = prepare_candidate(
        "writer".to_string(),
        ResourceScope::Global,
        None,
        facts(read, Some(lookup)),
        Some("/Users/alice"),
    )
    .unwrap();
    let candidate = match prepared {
        Prepared::Candidate { candidate, record_baseline } => {
            assert!(!record_baseline);
            candidate
        }
        Prepared::Report(report) => panic!("unexpected report {report:?}"),
    };
    assert!(candidate.locally_modified);
    assert_eq!(
        candidate.local_detail.as_deref(),
        Some("global Skill content changed without a receipt change")
    );
    match check_candidate(candidate) {
        CandidateStep::Report(report) => {
            assert_eq!(report.status, ToolStatus::Unmanaged);
            assert_eq!(report.id, "skill:global:writer");
        }
        CandidateStep::Sandbox(_) => panic!("a modified skill must not be updated"),
    }
}

#[test]
fn a_missing_receipt_leaves_the_skill_unmanaged() {
    let prepared = prepare_candidate(
        "writer".to_string(),
        ResourceScope::Global,
        None,
        facts(ReceiptRead::Missing, None),
        Some("/Users/alice"),
    )
    .unwrap();
    match prepared {
        Prepared::Report(report) => {
            assert_eq!(report.status, ToolStatus::Unmanaged);
            assert_eq!(
                report.detail.as_deref(),
                Some("manager receipt is missing at ~/.agents/.skill-lock.json")
            );
            assert_eq!(report.current.unwrap().display(), "sha256:new");
        }
        Prepared::Candidate { .. } => panic!("a skill without a receipt is not a candidate"),
    }
}

#[test]
fn a_skill_outside_its_scope_fails() {
    let read = ReceiptRead::Read(ReceiptFacts { version: Some(3), entry: Some(entry(Some("git"))) });
    let mut outside = facts(read, None);
    outside.scope_base = Ok("/Users/bob".to_string());
    let error = prepare_candidate("writer".to_string(), ResourceScope::Global, None, outside, None)
        .err()
        .unwrap();
    assert_eq!(error, "Skill path is outside its declared global scope");
}

#[test]
fn recovery_copies_are_only_for_agent_skills() {
    let mut report = beacon::agent_skills::reports::scope_failure("x".to_string());
    let error = recovery_plan(&report, "20260101T000000Z", None).err().unwrap();
    assert_eq!(error, "recovery copies are only supported for Agent Skills");
    report.kind = "agent-skill".to_string();
    report.id = "skill:global:writer".to_string();
    report.runtime.canonical_path = Some("/Users/alice/.agents/skills/writer".to_string());
    report.runtime.receipt_path = Some("/Users/alice/.agents/.skill-lock.json".to_string());
    let plan = recovery_plan(&report, "20260101T000000Z", Some("/Users/alice")).unwrap();
    assert_eq!(plan.directory, "20260101T000000Z-skill-global-writer");
    assert_eq!(
        plan.note,
        "Beacon recovery copy for skill:global:writer\nscope=system\ncanonical=~/.agents/skills/writer\nreceipt=~/.agents/.skill-lock.json\n"
    );
}

#[test]
fn only_supported_skills_versions_are_accepted() {
    let supported = parse_version("skills 1.5.18", "skills").unwrap();
    assert!(beacon::agent_skills::check_skills_version(&supported).is_ok());
    let newer = parse_version("skills 2.0.0", "skills").unwrap();
    assert_eq!(
        beacon::agent_skills::check_skills_version(&newer).err().unwrap(),
        "unsupported skills version 2.0.0; Beacon requires >=1.5.18,<2.0.0"
    );
    let older = parse_version("skills 1.5.17", "skills").unwrap();
    assert!(beacon::agent_skills::check_skills_version(&older).is_err());
}

#[test]
fn an_isolated_update_mirrors_the_skill_under_the_temporary_home() {
    let candidate = Candidate {
        name: "writer".to_string(),
        scope: ResourceScope::Global,
        canonical_path: "/Users/alice/.agents/skills/writer".to_string(),
        receipt_path: "/Users/alice/.agents/.skill-lock.json".to_string(),
        project_root: None,
        source: "github".to_string(),
        source_locator: None,
        current: ToolVersion::exact("sha256:abc").unwrap(),
        locally_modified: false,
        local_detail: None,
    };
    let capability = Capability {
        runner_path: "/usr/bin/npx".to_string(),
        runner: PackageRunner::Npx,
        runner_version: parse_version("10.0.0", "npx").unwrap(),
        skills_version: parse_version("1.5.18", "skills").unwrap(),
    };
    let plan = sandbox_plan(&candidate, &capability, "/tmp/mirror", &Ok("/Users/alice".to_string())).unwrap();
    assert_eq!(plan.home_dir, "/tmp/mirror/home");
    assert_eq!(plan.target, "/tmp/mirror/home/.agents/skills/writer");
    assert_eq!(plan.receipt_destination, "/tmp/mirror/state/skills/.skill-lock.json");
    assert_eq!(plan.command.args, ["--yes", "skills@^1.5.18", "update", "writer", "--global", "--yes"]);
    assert_eq!(capability.identity(), "npx 10.0.0; skills 1.5.18; skills@^1.5.18");
    let keys: Vec<&str> = plan.command.environment.iter().map(|(k, _)| k.as_str()).collect();
    assert_eq!(keys, ["DISABLE_TELEMETRY", "HOME", "XDG_STATE_HOME"]);
    assert_eq!(plan.command.environment[1].1, "/tmp/mirror/home");
    assert_eq!(plan.command.environment[2].1, "/tmp/mirror/state");
    let outside = sandbox_plan(&candidate, &capability, "/tmp/mirror", &Ok("/Users/bob".to_string()));
    assert_eq!(outside.err().unwrap(), "global Skill path is outside HOME");
}

#[test]
fn an_isolated_project_update_mirrors_the_skill_under_the_temporary_project() {
    let candidate = Candidate {
        name: "writer".to_string(),
        scope: ResourceScope::Project,
        canonical_path: "/work/app//.agents/./skills/writer/".to_string(),
        receipt_path: "/work/app/skills-lock.json".to_string(),
        project_root: Some("/work/app".to_string()),
        source: "github".to_string(),
        source_locator: None,
        current: ToolVersion::exact("sha256:abc").unwrap(),
        locally_modified: false,
        local_detail: None,
    };
    let capability = Capability {
        runner_path: "/usr/bin/npx".to_string(),
        runner: PackageRunner::Npx,
        runner_version: parse_version("10.0.0", "npx").unwrap(),
        skills_version: parse_version("1.5.18", "skills").unwrap(),
    };
    let plan = sandbox_plan(&candidate, &capability, "/tmp/mirror", &Err("no home".to_string())).unwrap();
    assert_eq!(plan.project_dir, "/tmp/mirror/project");
    assert_eq!(plan.target, "/tmp/mirror/project/.agents/./skills/writer");
    assert_eq!(plan.receipt_destination, "/tmp/mirror/project/skills-lock.json");
    let elsewhere = Candidate { project_root: Some("/work/other".to_string()), ..candidate };
    let refused = sandbox_plan(&elsewhere, &capability, "/tmp/mirror", &Err("no home".to_string()));
    assert_eq!(refused.err().unwrap(), "project Skill path is outside its project root");
}

#[test]
fn a_refused_version_carries_the_semver_message() {
    let refused = beacon::providers::verification::SemVer::parse("1.x");
    assert!(refused.err().unwrap().contains("unexpected character"));
    let requirement = beacon::providers::verification::SemVerReq::parse(">=1.0, <");
    assert!(requirement.is_err());
}

#[test]
fn skill_identifiers_differ_across_scopes() {
    assert_ne!(skill_id(ResourceScope::Global, "writer"), skill_id(ResourceScope::Project, "writer"));
    assert_eq!(skill_id(ResourceScope::Project, "writer"), "skill:project:writer");
}

#[test]
fn a_first_observation_records_the_baseline() {
    use_baseline_state();
}

fn use_baseline_state() {
    let first = beacon::agent_skills::receipts::global_baseline_state(None, "sha256:f", "sha256:r");
    assert!(first.record);
    assert!(!first.state.modified);
    let stored = SkillBaseline {
        receipt_fingerprint: "sha256:f".to_string(),
        content_revision: "sha256:r".to_string(),
    };
    let same = beacon::agent_skills::receipts::global_baseline_state(Some(&stored), "sha256:f", "sha256:r");
    assert!(!same.record);
    assert!(!same.state.modified);
    let new_receipt = beacon::agent_skills::receipts::global_baseline_state(Some(&stored), "sha256:g", "sha256:x");
    assert!(new_receipt.record);
    assert!(!new_receipt.state.modified);
}

#[test]
fn reversing_a_comparison_swaps_added_and_removed() {
    let before = manifest(&[("a", "1"), ("b", "2")]);
    let after = manifest(&[("b", "3"), ("c", "4")]);
    let changes = compare_manifests(&after, &before);
    assert_eq!(changes.len(), 3);
    assert_eq!(changes[0].kind, InventoryChangeKind::Added);
    assert_eq!(changes[1].kind, InventoryChangeKind::Modified);
    assert_eq!(changes[2].kind, InventoryChangeKind::Removed);
}
