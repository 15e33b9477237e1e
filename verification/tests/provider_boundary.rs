use beacon::providers::{InstallManager, ToolAdapter};
use beacon::command::CommandSpec;
use beacon::providers::{
    install_manager_registry, resolve_claims, tool_registry, verify_versions, ClaimConfidence,
    Comparison, DetectedTool, ManagerClaims, ManagerEvidence, ManagerId, ManagerSnapshot,
    SourceClaim, SourceId, TargetMode, ToolId, ToolVersion, UpdaterClaim, UpgradeAction,
    VersionOrder,
};

fn evidence(kind: &str, value: &str) -> ManagerEvidence {
    ManagerEvidence { kind: kind.to_string(), value: value.to_string() }
}

fn version(text: &str) -> ToolVersion {
    ToolVersion::new(text, Some(text.to_string())).unwrap()
}

#[test]
fn homebrew_go_action_always_targets_the_formula() {
    let registry = install_manager_registry();
    let manager = registry.iter().find(|manager| manager.id().as_str() == "homebrew").unwrap();
    let tool = DetectedTool {
        id: ToolId::new("go").unwrap(),
        executable: "/opt/homebrew/bin/go".into(),
        version: ToolVersion::new("go1.22.0", Some("1.22.0".into())).unwrap(),
    };
    let snapshot = ManagerSnapshot {
        manager: ManagerId::new("homebrew").unwrap(),
        evidence: vec![evidence(
            "receipt:formula",
            "go 1.22.0 /opt/homebrew/bin/go /opt/homebrew/opt/go",
        )],
    };
    let latest = version("1.23.0");

    let claims = manager.claim(&tool, &snapshot);
    let action = manager.upgrade(&tool, &latest, &snapshot).unwrap();

    assert_eq!(claims.updater.unwrap().manager.as_str(), "homebrew");
    assert_eq!(action.command, CommandSpec::new("brew", &["upgrade", "--formula", "go"]));
}

#[test]
fn provider_contract_ids_and_upgrade_actions_are_validated_and_typed() {
    assert!(ToolId::new("Node JS").is_err());
    assert!(SourceId::new("").is_err());
    assert!(ManagerId::new("npm/global").is_err());

    let expected = ToolVersion::new("v2.0.0", Some("2.0.0".into())).unwrap();
    let action = UpgradeAction {
        manager: ManagerId::new("npm").unwrap(),
        command: CommandSpec::new("npm", &["install", "--global", "npm@2.0.0"]),
        expected_version: expected.clone(),
        target_mode: TargetMode::Exact,
    };

    assert_eq!(expected.display(), "2.0.0");
    assert_eq!(action.expected_version, expected);
    assert_eq!(action.target_mode, TargetMode::Exact);
}

#[test]
fn provider_registries_are_compile_time_built_ins() {
    let tools = tool_registry().iter().map(|adapter| adapter.id().to_string()).collect::<Vec<_>>();
    let managers = install_manager_registry()
        .iter()
        .map(|manager| manager.id().to_string())
        .collect::<Vec<_>>();

    assert_eq!(tools, ["rust", "node", "npm", "pnpm", "go", "bun", "deno", "uv"]);
    assert_eq!(
        managers,
        [
            "homebrew",
            "mise",
            "rustup",
            "npm",
            "corepack",
            "bun-official",
            "deno-official",
            "uv-standalone",
        ]
    );
}

#[test]
fn uv_adapter_parses_and_compares_versions() {
    let registry = tool_registry();
    let adapter = registry.iter().find(|adapter| adapter.id().as_str() == "uv").unwrap();
    let current = adapter.parse_version("uv 0.6.0 (fixture 2026-01-01)").unwrap();
    let latest = adapter.parse_version("uv 0.7.0").unwrap();

    assert_eq!(current.raw(), "0.6.0");
    assert_eq!(current.display(), "0.6.0");
    assert_eq!(adapter.compare(&current, &latest).unwrap(), VersionOrder::Less);
}

#[test]
fn project_mise_uv_is_diagnostic_only() {
    let registry = install_manager_registry();
    let manager = registry.iter().find(|manager| manager.id().as_str() == "mise").unwrap();
    let executable = "/Users/alice/.local/share/mise/installs/uv/0.6/bin/uv";
    let tool = DetectedTool {
        id: ToolId::new("uv").unwrap(),
        executable: executable.into(),
        version: version("0.6.0"),
    };
    let claims = manager.claim(
        &tool,
        &ManagerSnapshot {
            manager: manager.id(),
            evidence: vec![
                evidence("receipt", &format!("uv {executable}")),
                evidence("project-policy:uv", "project mise selection"),
            ],
        },
    );

    assert_eq!(claims.source.unwrap().source.as_str(), "mise");
    assert!(claims.updater.is_none());
}

#[test]
fn conflicting_uv_receipts_produce_no_update_claim() {
    let tool = DetectedTool {
        id: ToolId::new("uv").unwrap(),
        executable: "/custom/bin/uv".into(),
        version: version("0.6.0"),
    };
    let registry = install_manager_registry();
    let claims = ["homebrew", "mise"]
        .iter()
        .map(|manager_id| {
            let manager = registry.iter().find(|manager| manager.id().as_str() == *manager_id).unwrap();
            let kind = if *manager_id == "homebrew" { "receipt:formula" } else { "receipt" };
            manager.claim(
                &tool,
                &ManagerSnapshot {
                    manager: manager.id(),
                    evidence: vec![evidence(kind, "uv /custom/bin/uv")],
                },
            )
        })
        .collect::<Vec<_>>();

    let resolved = resolve_claims(claims);
    assert!(resolved.source.is_none());
    assert!(resolved.updater.is_none());
    assert_eq!(resolved.conflicts.len(), 4);
}

#[test]
fn pnpm_supported_channels_choose_matching_source_updater_and_action() {
    struct Case {
        manager: &'static str,
        executable: &'static str,
        evidence: Vec<ManagerEvidence>,
        source: &'static str,
        command: CommandSpec,
        mode: TargetMode,
    }

    let cases = vec![
        Case {
            manager: "homebrew",
            executable: "/opt/homebrew/bin/pnpm",
            evidence: vec![evidence(
                "receipt:formula",
                "pnpm 10.0.0 /opt/homebrew/bin/pnpm /opt/homebrew/opt/pnpm",
            )],
            source: "homebrew",
            command: CommandSpec::new("brew", &["upgrade", "--formula", "pnpm"]),
            mode: TargetMode::Floating,
        },
        Case {
            manager: "mise",
            executable: "/Users/alice/.local/share/mise/installs/pnpm/10/bin/pnpm",
            evidence: vec![
                evidence("receipt", "pnpm /Users/alice/.local/share/mise/installs/pnpm/10/bin/pnpm"),
                evidence("selector:pnpm", "lts"),
            ],
            source: "mise",
            command: CommandSpec::new("mise", &["use", "-g", "pnpm@lts"]),
            mode: TargetMode::Floating,
        },
        Case {
            manager: "npm",
            executable: "/Users/alice/.npm-global/lib/node_modules/pnpm/bin/pnpm.cjs",
            evidence: vec![],
            source: "npm-global",
            command: CommandSpec::new("npm", &["install", "--global", "pnpm@10.1.0"]),
            mode: TargetMode::Exact,
        },
        Case {
            manager: "corepack",
            executable: "/Users/alice/.cache/node/corepack/shims/pnpm",
            evidence: vec![],
            source: "corepack",
            command: CommandSpec::new("corepack", &["prepare", "pnpm@10.1.0", "--activate"]),
            mode: TargetMode::Exact,
        },
    ];

    let registry = install_manager_registry();
    for case in cases {
        let manager = registry.iter().find(|manager| manager.id().as_str() == case.manager).unwrap();
        let tool = DetectedTool {
            id: ToolId::new("pnpm").unwrap(),
            executable: case.executable.into(),
            version: version("10.0.0"),
        };
        let snapshot = ManagerSnapshot { manager: manager.id(), evidence: case.evidence };
        let claims = manager.claim(&tool, &snapshot);
        let action = manager.upgrade(&tool, &version("10.1.0"), &snapshot).unwrap();

        assert_eq!(claims.source.unwrap().source.as_str(), case.source);
        assert_eq!(claims.updater.unwrap().manager.as_str(), case.manager);
        assert_eq!(action.command, case.command);
        assert_eq!(action.target_mode, case.mode);
    }
}

#[test]
fn project_policy_evidence_makes_node_ecosystem_claims_unmanaged() {
    let registry = install_manager_registry();
    for manager_id in ["mise", "npm", "corepack"] {
        let manager = registry.iter().find(|manager| manager.id().as_str() == manager_id).unwrap();
        let executable = match manager_id {
            "mise" => "/Users/alice/.local/share/mise/installs/pnpm/10/bin/pnpm",
            "npm" => "/Users/alice/.npm-global/lib/node_modules/pnpm/bin/pnpm.cjs",
            "corepack" => "/Users/alice/.cache/node/corepack/shims/pnpm",
            _ => unreachable!(),
        };
        let tool = DetectedTool {
            id: ToolId::new("pnpm").unwrap(),
            executable: executable.into(),
            version: version("10.0.0"),
        };
        let mut found = vec![evidence(
            "project-policy:pnpm",
            "project configuration owns pnpm selection",
        )];
        if manager_id == "mise" {
            found.push(evidence("receipt", &format!("pnpm {executable}")));
        }
        let snapshot = ManagerSnapshot { manager: manager.id(), evidence: found };

        let claims = manager.claim(&tool, &snapshot);

        assert!(claims.source.is_some(), "{manager_id} should remain diagnostic");
        assert!(claims.updater.is_none(), "{manager_id} must not edit project policy");
    }
}

#[test]
fn corepack_pnpm_inside_a_mise_node_runtime_is_not_claimed_as_mise_pnpm() {
    let tool = DetectedTool {
        id: ToolId::new("pnpm").unwrap(),
        executable:
            "/Users/alice/.local/share/mise/installs/node/22/lib/node_modules/corepack/dist/pnpm.js"
                .into(),
        version: version("10.0.0"),
    };
    let mut claims = Vec::new();
    for manager in install_manager_registry().iter() {
        let found = if manager.id().as_str() == "mise" {
            vec![evidence("receipt", "node /Users/alice/.local/share/mise/installs/node/22/bin/node")]
        } else {
            vec![]
        };
        let claim = manager.claim(&tool, &ManagerSnapshot { manager: manager.id(), evidence: found });
        if claim.source.is_some() || claim.updater.is_some() {
            claims.push(claim);
        }
    }

    let resolved = resolve_claims(claims);

    assert_eq!(resolved.source.unwrap().source.as_str(), "corepack");
    assert_eq!(resolved.updater.unwrap().manager.as_str(), "corepack");
    assert!(resolved.conflicts.is_empty());
}

#[test]
fn claim_resolution_ranks_evidence_and_refuses_equal_top_claims() {
    let path = ManagerClaims {
        source: Some(SourceClaim {
            source: SourceId::new("mise").unwrap(),
            confidence: ClaimConfidence::PathHeuristic,
            evidence: "path contains mise".into(),
        }),
        updater: None,
    };
    let receipt = ManagerClaims {
        source: Some(SourceClaim {
            source: SourceId::new("homebrew").unwrap(),
            confidence: ClaimConfidence::Receipt,
            evidence: "brew receipt".into(),
        }),
        updater: Some(UpdaterClaim {
            manager: ManagerId::new("homebrew").unwrap(),
            confidence: ClaimConfidence::Receipt,
            evidence: "brew receipt".into(),
        }),
    };

    let resolved = resolve_claims(vec![path.clone(), receipt.clone()]);
    assert_eq!(resolved.source.unwrap().source.as_str(), "homebrew");
    assert_eq!(resolved.updater.unwrap().manager.as_str(), "homebrew");
    assert!(resolved.conflicts.is_empty());

    let tied = resolve_claims(vec![receipt.clone(), receipt]);
    assert!(tied.source.is_none());
    assert!(tied.updater.is_none());
    assert_eq!(tied.conflicts.len(), 4);
}

#[test]
fn ambiguous_source_does_not_block_a_unique_reliable_updater() {
    let updater = UpdaterClaim {
        manager: ManagerId::new("npm").unwrap(),
        confidence: ClaimConfidence::Receipt,
        evidence: "npm global receipt".into(),
    };
    let resolved = resolve_claims(vec![
        ManagerClaims {
            source: Some(SourceClaim {
                source: SourceId::new("mise").unwrap(),
                confidence: ClaimConfidence::CanonicalPath,
                evidence: "mise path".into(),
            }),
            updater: Some(updater),
        },
        ManagerClaims {
            source: Some(SourceClaim {
                source: SourceId::new("homebrew").unwrap(),
                confidence: ClaimConfidence::CanonicalPath,
                evidence: "brew path".into(),
            }),
            updater: None,
        },
    ]);

    assert!(resolved.source.is_none());
    assert_eq!(resolved.updater.unwrap().manager.as_str(), "npm");
}

#[test]
fn path_linked_receipt_outranks_heuristics_and_selects_the_exact_brew_kind() {
    let registry = install_manager_registry();
    let manager = registry.iter().find(|manager| manager.id().as_str() == "homebrew").unwrap();
    let tool = DetectedTool {
        id: ToolId::new("node").unwrap(),
        executable: "/custom/bin/node".into(),
        version: version("20.0.0"),
    };
    let snapshot = ManagerSnapshot {
        manager: ManagerId::new("homebrew").unwrap(),
        evidence: vec![
            evidence("receipt:formula", "node /custom/bin/node"),
            evidence("receipt:cask", "node /other/bin/node"),
        ],
    };

    let claims = manager.claim(&tool, &snapshot);
    let action = manager.upgrade(&tool, &version("20.1.0"), &snapshot).unwrap();

    assert_eq!(claims.source.unwrap().confidence, ClaimConfidence::Receipt);
    assert_eq!(action.command, CommandSpec::new("brew", &["upgrade", "--formula", "node"]));
}

#[test]
fn exact_and_floating_verification_follow_confirmed_versions() {
    let old = version("1.0.0");
    let expected = version("2.0.0");
    let exact_wrong = version("2.0.1");
    let floating_ok = version("2.1.0");
    let compare = Comparison::Semantic;

    assert!(verify_versions(TargetMode::Exact, &old, &expected, &expected, compare).is_ok());
    assert!(verify_versions(TargetMode::Exact, &old, &expected, &exact_wrong, compare).is_err());
    assert!(verify_versions(TargetMode::Floating, &old, &expected, &floating_ok, compare).is_ok());
    assert!(verify_versions(TargetMode::Floating, &old, &expected, &old, compare).is_err());
}

#[test]
fn rolling_verification_requires_a_changed_revision() {
    let old = version("sha256:aaa");
    let same = version("sha256:aaa");
    let changed = version("sha256:bbb");
    assert!(verify_versions(TargetMode::Rolling, &old, &old, &same, Comparison::Textual).is_err());
    assert!(verify_versions(TargetMode::Rolling, &old, &old, &changed, Comparison::Textual).is_ok());
}

#[test]
fn homebrew_refuses_an_ambiguous_formula_and_cask_ownership() {
    let registry = install_manager_registry();
    let manager = registry.iter().find(|manager| manager.id().as_str() == "homebrew").unwrap();
    let tool = DetectedTool {
        id: ToolId::new("node").unwrap(),
        executable: "/usr/local/bin/node".into(),
        version: version("20.0.0"),
    };
    let snapshot = ManagerSnapshot {
        manager: ManagerId::new("homebrew").unwrap(),
        evidence: vec![
            evidence("receipt:formula", "node /x/node"),
            evidence("receipt:cask", "node /y/node"),
        ],
    };
    let error = manager.upgrade(&tool, &version("20.1.0"), &snapshot).unwrap_err();
    assert!(error.message().contains("is ambiguous"));
}

#[test]
fn a_caskroom_installation_is_upgraded_as_a_cask() {
    let registry = install_manager_registry();
    let manager = registry.iter().find(|manager| manager.id().as_str() == "homebrew").unwrap();
    let tool = DetectedTool {
        id: ToolId::new("node").unwrap(),
        executable: "/opt/homebrew/Caskroom/node/bin/node".into(),
        version: version("20.0.0"),
    };
    let snapshot = ManagerSnapshot {
        manager: ManagerId::new("homebrew").unwrap(),
        evidence: vec![
            evidence("receipt:formula", "node /x/node"),
            evidence("receipt:cask", "node /y/node"),
        ],
    };
    let action = manager.upgrade(&tool, &version("20.1.0"), &snapshot).unwrap();
    assert_eq!(action.command, CommandSpec::new("brew", &["upgrade", "--cask", "node"]));
}

#[test]
fn a_failed_detection_ends_the_check_before_any_query() {
    let registry = tool_registry();
    let adapter = registry.iter().find(|adapter| adapter.id().as_str() == "pnpm").unwrap();
    let report = beacon::providers::check::after_detection(
        adapter,
        Err("pnpm is not available on PATH".to_string()),
    )
    .unwrap_err();
    assert_eq!(report.status, beacon::ToolStatus::Missing);
    assert_eq!(report.detail.as_deref(), Some("tool is not available on PATH"));
    assert!(report.installation.is_none());
    assert!(report.update.is_none());
    let failed = beacon::providers::check::after_detection(adapter, Err("pnpm crashed".to_string()))
        .unwrap_err();
    assert_eq!(failed.status, beacon::ToolStatus::Failed);
    assert_eq!(failed.detail.as_deref(), Some("pnpm crashed"));
    let tool = DetectedTool {
        id: ToolId::new("pnpm").unwrap(),
        executable: "/usr/bin/pnpm".to_string(),
        version: version("9.0.0"),
    };
    let kept = beacon::providers::check::after_detection(adapter, Ok(tool)).unwrap();
    assert_eq!(kept.executable, "/usr/bin/pnpm");
}

#[test]
fn only_a_resolved_updater_is_asked_for_the_latest_version() {
    let unclaimed = resolve_claims(vec![ManagerClaims::default()]);
    assert!(beacon::providers::check::latest_query_manager(&unclaimed).is_none());
    let claimed = resolve_claims(vec![ManagerClaims {
        source: None,
        updater: Some(UpdaterClaim {
            manager: ManagerId::new("mise").unwrap(),
            confidence: ClaimConfidence::Receipt,
            evidence: "mise receipt".to_string(),
        }),
    }]);
    let manager = beacon::providers::check::latest_query_manager(&claimed).unwrap();
    assert_eq!(manager.id().as_str(), "mise");
}

#[test]
fn claims_resolve_by_their_highest_confidence() {
    let source = |id: &str, confidence: ClaimConfidence| SourceClaim {
        source: SourceId::new(id).unwrap(),
        confidence,
        evidence: format!("{id} evidence"),
    };
    let updater = |id: &str, confidence: ClaimConfidence| UpdaterClaim {
        manager: ManagerId::new(id).unwrap(),
        confidence,
        evidence: format!("{id} evidence"),
    };
    let resolved = resolve_claims(vec![
        ManagerClaims {
            source: Some(source("homebrew", ClaimConfidence::Receipt)),
            updater: Some(updater("homebrew", ClaimConfidence::PathHeuristic)),
        },
        ManagerClaims {
            source: Some(source("mise", ClaimConfidence::Receipt)),
            updater: Some(updater("mise", ClaimConfidence::CanonicalPath)),
        },
        ManagerClaims { source: Some(source("npm", ClaimConfidence::PathHeuristic)), updater: None },
    ]);
    assert!(resolved.source.is_none());
    assert_eq!(resolved.updater.unwrap().manager.as_str(), "mise");
    assert_eq!(resolved.evidence.len(), 5);
    let kinds: Vec<&str> = resolved.evidence.iter().map(|e| e.claim.as_str()).collect();
    assert_eq!(kinds, ["source", "updater", "source", "updater", "source"]);
    let conflicts: Vec<&str> = resolved.conflicts.iter().map(|e| e.id.as_str()).collect();
    assert_eq!(conflicts, ["homebrew", "mise"]);
}

#[test]
fn built_in_adapters_and_managers_serve_through_their_interfaces() {
    let adapters = tool_registry();
    let adapters: Vec<&dyn ToolAdapter> = adapters.iter().map(|a| a as &dyn ToolAdapter).collect();
    let uv = adapters.iter().find(|a| a.id().as_str() == "uv").unwrap();
    let current = uv.parse_version("uv 0.6.0").unwrap();
    let latest = uv.parse_version("uv 0.7.0").unwrap();
    assert_eq!(uv.compare(&current, &latest).unwrap(), VersionOrder::Less);
    let managers = install_manager_registry();
    let ids: Vec<String> =
        managers.iter().map(|m| InstallManager::id(m).to_string()).collect();
    assert!(ids.iter().any(|id| id == "homebrew"));
}
