use qmp_mcp::config::EnvMap;
use qmp_mcp::policy::{
    build_policy, decide_command, entries_to_overrides, ignored_overrides, is_hard_denied, load_policy_file,
    normalize_command_name, policy_overrides, resolve_command_policy, CommandPolicyError,
    CommandVerdict, PolicyError, PolicyOverrides, ResolvedPolicy, DEFAULT_ALLOWLIST, HARD_DENYLIST,
};

fn defaults() -> ResolvedPolicy {
    ResolvedPolicy::default()
}

/// An environment with the given bindings.
fn env(pairs: &[(&str, &str)]) -> EnvMap {
    let mut map = EnvMap::new();
    for (name, value) in pairs {
        map.insert(name.to_string(), value.to_string());
    }
    map
}

/// The policy of an environment that names no policy file.
fn resolve(env: &EnvMap) -> Result<ResolvedPolicy, PolicyError> {
    resolve_command_policy(env, |path: &str| Err(format!("unexpected read of {path}")))
}

/// The policy of a policy file with the given text.
fn resolve_file(text: &str) -> Result<ResolvedPolicy, PolicyError> {
    resolve_command_policy(
        &env(&[("QMP_MCP_POLICY_FILE", "/etc/policy.yaml")]),
        |_: &str| Ok(text.to_string()),
    )
}

#[test]
fn hard_denylist_and_default_allowlist_are_disjoint() {
    for cmd in DEFAULT_ALLOWLIST {
        assert!(!is_hard_denied(cmd), "{cmd} is in both lists");
    }
}

#[test]
fn every_hard_denylist_entry_is_already_normalised() {
    for cmd in HARD_DENYLIST {
        assert_eq!(cmd, normalize_command_name(cmd));
    }
}

#[test]
fn every_default_allowlist_entry_is_already_normalised() {
    for cmd in DEFAULT_ALLOWLIST {
        assert_eq!(cmd, normalize_command_name(cmd));
    }
}

#[test]
fn includes_every_required_command_in_the_hard_set() {
    for cmd in [
        "human-monitor-command",
        "migrate",
        "migrate-incoming",
        "migrate-set-parameters",
        "dump-guest-memory",
        "pmemsave",
        "memsave",
        "object-add",
        "blockdev-add",
        "device_add",
        "netdev_add",
        "chardev-add",
        "chardev-change",
        "getfd",
        "add-fd",
    ] {
        assert!(is_hard_denied(cmd), "{cmd} must be hard-denied");
    }
}

#[test]
fn also_hard_denies_the_widened_host_file_backstop_set() {
    for cmd in [
        "xen-save-devices-state",
        "xen-load-devices-state",
        "qom-set",
        "block-commit",
        "block-stream",
        "block_resize",
        "blockdev-snapshot",
        "blockdev-snapshot-sync",
        "blockdev-snapshot-internal-sync",
        "migrate-recover",
        "migrate-continue",
        "migrate-pause",
        "migrate-start-postcopy",
    ] {
        assert!(is_hard_denied(cmd), "{cmd} must be hard-denied");
    }
}

#[test]
fn refuses_every_hard_denied_command_under_the_default_policy() {
    for cmd in HARD_DENYLIST {
        match decide_command(&defaults(), cmd) {
            CommandVerdict::Denied { hard_denied, .. } => assert!(hard_denied, "{cmd}"),
            other => panic!("{cmd} should be denied, got {other:?}"),
        }
    }
}

#[test]
fn still_refuses_every_hard_denied_command_when_an_allow_override_tries_to_enable_it() {
    for cmd in HARD_DENYLIST {
        let policy = build_policy(&PolicyOverrides {
            allow: vec![cmd.to_string()],
            deny: vec![],
        });
        match decide_command(&policy, cmd) {
            CommandVerdict::Denied {
                hard_denied,
                reason,
                ..
            } => {
                assert!(hard_denied, "{cmd}");
                assert!(reason.contains("hard denylist"), "{cmd}: {reason}");
            }
            other => panic!("{cmd} should stay denied, got {other:?}"),
        }
    }
}

#[test]
fn still_refuses_a_hard_denied_command_when_qmp_mcp_allow_tries_to_enable_it() {
    let env = env(&[("QMP_MCP_ALLOW", "human-monitor-command, migrate")]);
    let policy = resolve(&env).unwrap();
    for cmd in ["human-monitor-command", "migrate"] {
        match decide_command(&policy, cmd) {
            CommandVerdict::Denied { hard_denied, .. } => assert!(hard_denied),
            other => panic!("{cmd} should stay denied, got {other:?}"),
        }
    }
}

#[test]
fn allows_a_default_allowlisted_command() {
    assert_eq!(
        decide_command(&defaults(), "query-status"),
        CommandVerdict::Allowed {
            command: "query-status".to_string()
        }
    );
}

#[test]
fn denies_an_unknown_command_by_default_not_as_a_hard_denial() {
    match decide_command(&defaults(), "totally-made-up-command") {
        CommandVerdict::Denied {
            hard_denied,
            reason,
            ..
        } => {
            assert!(!hard_denied);
            assert!(reason.contains("not in the Command Policy allowlist"));
        }
        other => panic!("unexpected {other:?}"),
    }
}

#[test]
fn screendump_is_absent_from_the_default_allowlist() {
    assert!(!DEFAULT_ALLOWLIST.contains(&"screendump"));
}

#[test]
fn denies_screendump_under_the_default_policy_default_deny_not_hard() {
    match decide_command(&defaults(), "screendump") {
        CommandVerdict::Denied {
            hard_denied,
            reason,
            ..
        } => {
            assert!(!hard_denied);
            assert!(reason.contains("not in the Command Policy allowlist"));
        }
        other => panic!("unexpected {other:?}"),
    }
}

#[test]
fn treats_case_and_whitespace_variants_as_the_hard_denied_canonical_command() {
    for evasion in [
        " migrate ",
        "MIGRATE",
        "Migrate",
        "  Human-Monitor-Command  ",
        "HUMAN-MONITOR-COMMAND",
        "Device_Add",
    ] {
        match decide_command(&defaults(), evasion) {
            CommandVerdict::Denied { hard_denied, .. } => assert!(hard_denied, "{evasion}"),
            other => panic!("{evasion} should be denied, got {other:?}"),
        }
    }
}

#[test]
fn normalises_an_allowlisted_command_with_stray_case_space_and_forwards_canonical_name() {
    assert_eq!(
        decide_command(&defaults(), "  Query-Status  "),
        CommandVerdict::Allowed {
            command: "query-status".to_string()
        }
    );
}

#[test]
fn qmp_mcp_allow_adds_a_safe_command_that_was_previously_default_denied() {
    assert!(!decide_command(&defaults(), "query-rocker").is_allowed());
    let env = env(&[("QMP_MCP_ALLOW", "query-rocker")]);
    let policy = resolve(&env).unwrap();
    assert_eq!(
        decide_command(&policy, "query-rocker"),
        CommandVerdict::Allowed {
            command: "query-rocker".to_string()
        }
    );
}

#[test]
fn qmp_mcp_deny_removes_a_command_from_the_allowlist() {
    assert!(decide_command(&defaults(), "system_reset").is_allowed());
    let env = env(&[("QMP_MCP_DENY", "system_reset")]);
    let policy = resolve(&env).unwrap();
    match decide_command(&policy, "system_reset") {
        CommandVerdict::Denied {
            hard_denied,
            reason,
            ..
        } => {
            assert!(!hard_denied);
            assert!(reason.contains("denied by the Command Policy"));
        }
        other => panic!("unexpected {other:?}"),
    }
}

#[test]
fn deny_wins_over_allow_when_a_command_is_in_both() {
    let env = env(&[("QMP_MCP_ALLOW", "query-rocker"), ("QMP_MCP_DENY", "query-rocker")]);
    let policy = resolve(&env).unwrap();
    assert!(!decide_command(&policy, "query-rocker").is_allowed());
}

#[test]
fn honours_the_file_allow_and_deny_lists() {
    let text = "allow:\n  - query-rocker\ndeny:\n  - system_reset\n";
    let policy = resolve_file(text).unwrap();
    assert!(decide_command(&policy, "query-rocker").is_allowed());
    assert!(!decide_command(&policy, "system_reset").is_allowed());
}

#[test]
fn keeps_a_hard_denied_command_denied_even_when_the_file_allows_it() {
    let text = "allow:\n  - migrate\n  - human-monitor-command\n";
    let policy = resolve_file(text).unwrap();
    for cmd in ["migrate", "human-monitor-command"] {
        match decide_command(&policy, cmd) {
            CommandVerdict::Denied { hard_denied, .. } => assert!(hard_denied, "{cmd}"),
            other => panic!("{cmd} should stay denied, got {other:?}"),
        }
    }
}

#[test]
fn merges_file_and_env_overrides_deny_still_wins() {
    let env = env(&[
        ("QMP_MCP_POLICY_FILE", "/etc/policy.yaml"),
        ("QMP_MCP_DENY", "query-rocker"),
    ]);
    let policy =
        resolve_command_policy(&env, |_: &str| Ok("allow:\n  - query-rocker\n".to_string()))
            .unwrap();
    assert!(!decide_command(&policy, "query-rocker").is_allowed());
}

#[test]
fn treats_an_empty_file_as_a_defaults_only_policy() {
    let text = "";
    let policy = resolve_file(text).unwrap();
    assert!(decide_command(&policy, "query-status").is_allowed());
    assert!(!decide_command(&policy, "query-rocker").is_allowed());
}

#[test]
fn fails_closed_on_a_missing_policy_file_naming_the_variable() {
    let err = resolve_command_policy(
        &env(&[("QMP_MCP_POLICY_FILE", "/nowhere/qmp-policy-does-not-exist-xyz.yaml")]),
        |_: &str| Err("No such file or directory (os error 2)".to_string()),
    )
    .unwrap_err();
    assert!(
        err.0.contains("QMP_MCP_POLICY_FILE could not be read"),
        "{}",
        err.0
    );
}

#[test]
fn fails_closed_on_malformed_yaml_naming_the_variable() {
    let text = "allow: \"unterminated\n";
    let err = resolve_file(text).unwrap_err();
    assert!(
        err.0.contains("QMP_MCP_POLICY_FILE is not valid YAML"),
        "{}",
        err.0
    );
}

#[test]
fn fails_closed_on_a_wrong_shaped_file_allow_is_not_a_list() {
    let text = "allow: query-status\n";
    let err = resolve_file(text).unwrap_err();
    assert!(
        err.0.contains("QMP_MCP_POLICY_FILE has the wrong shape"),
        "{}",
        err.0
    );
}

#[test]
fn fails_closed_on_an_unknown_top_level_key_typo_guard() {
    let text = "allows:\n  - query-pci\n";
    let err = resolve_file(text).unwrap_err();
    assert!(
        err.0.contains("QMP_MCP_POLICY_FILE has the wrong shape"),
        "{}",
        err.0
    );
}

#[test]
fn command_policy_error_carries_the_hard_denied_flag() {
    let verdict = decide_command(&defaults(), "migrate");
    let err = CommandPolicyError::from_verdict(&verdict).unwrap();
    assert!(err.hard_denied);
    assert!(err.message.contains("hard denylist"));
}

#[test]
fn an_ignored_allow_override_is_reported_as_it_was_written() {
    let overrides = PolicyOverrides {
        allow: vec![
            " Migrate ".to_string(),
            "query-rocker".to_string(),
            "getfd".to_string(),
        ],
        deny: vec!["migrate".to_string()],
    };
    assert_eq!(ignored_overrides(&overrides), vec!["Migrate", "getfd"]);
}

#[test]
fn a_policy_file_is_read_in_both_its_lists() {
    let overrides = load_policy_file(
        "/etc/policy.yaml",
        Ok("deny: [a]\nallow:\n  - b\n  - c\n".to_string()),
    )
    .unwrap();
    assert_eq!(overrides.0, vec!["b", "c"]);
    assert_eq!(overrides.1, vec!["a"]);
}

#[test]
fn the_environment_comes_before_the_file() {
    let overrides = policy_overrides(
        &env(&[
            ("QMP_MCP_ALLOW", " x , ,y"),
            ("QMP_MCP_POLICY_FILE", "  /etc/policy.yaml "),
        ]),
        |path: &str| {
            assert_eq!(path, "/etc/policy.yaml");
            Ok("allow: [z]\n".to_string())
        },
    )
    .unwrap();
    assert_eq!(overrides.allow, vec!["x", "y", "z"]);
    assert!(overrides.deny.is_empty());
}

#[test]
fn names_outside_ascii_are_lowercased_by_the_unicode_rules() {
    assert_eq!(normalize_command_name("  ÄÖ-Query "), "äö-query");
}

/// The message for a policy file with the given text.
fn refusal(text: &str) -> String {
    load_policy_file("/etc/p.yaml", Ok(text.to_string())).unwrap_err().0
}

#[test]
fn an_unknown_key_is_named_whatever_it_holds() {
    for text in ["bogus: true\n", "bogus: [x]\nallow: 5\n", "allow: [x]\nbogus: 5\nafter: 6\n"] {
        let message = refusal(text);
        assert!(
            message.ends_with("(unknown field `bogus`, expected `allow` or `deny`)"),
            "{message}"
        );
    }
}

#[test]
fn the_first_entry_that_is_wrong_is_reported() {
    let message = refusal("deny: [1]\nbogus: [x]\n");
    assert!(message.ends_with("(invalid type: integer `1`, expected a string)"), "{message}");
    let message = refusal("allow: yes please\n");
    assert!(message.ends_with("expected a sequence)"), "{message}");
    let message = refusal("- a\n- b\n");
    assert!(message.contains("invalid type: sequence"), "{message}");
}

#[test]
fn a_key_that_comes_twice_is_refused() {
    let message = refusal("allow: [x]\n!again allow: [y]\n");
    assert!(message.ends_with("(duplicate field `allow`)"), "{message}");
    let entry = |key: &str, list: &[&str]| {
        let names = list.iter().map(|n| n.to_string()).collect::<Vec<String>>();
        (Ok(key.to_string()), Ok(names))
    };
    let twice = vec![entry("deny", &["a"]), entry("allow", &[]), entry("deny", &["b"])];
    let message = entries_to_overrides("p", twice).unwrap_err().0;
    assert!(message.ends_with("(duplicate field `deny`)"), "{message}");
    let wrong = vec![entry("allow", &[]), (Ok("allow".to_string()), Err("no list".to_string()))];
    let message = entries_to_overrides("p", wrong).unwrap_err().0;
    assert!(message.ends_with("(duplicate field `allow`)"), "{message}");
}

#[test]
fn a_list_that_is_left_blank_is_empty() {
    let overrides = load_policy_file("/etc/p.yaml", Ok("allow:\ndeny: [x]\n".to_string()));
    assert_eq!(overrides, Ok((vec![], vec!["x".to_string()])));
    let overrides = load_policy_file("/etc/p.yaml", Ok("# nothing\n".to_string()));
    assert_eq!(overrides, Ok((vec![], vec![])));
}

#[test]
fn entries_are_taken_in_the_order_in_which_they_stand() {
    let list = |names: &[&str]| Ok(names.iter().map(|n| n.to_string()).collect::<Vec<String>>());
    let entries = vec![(Ok("deny".to_string()), list(&["a"])), (Ok("allow".to_string()), list(&["b", "c"]))];
    let (allow, deny) = entries_to_overrides("p", entries).unwrap();
    assert_eq!((allow, deny), (vec!["b".to_string(), "c".to_string()], vec!["a".to_string()]));
    let entries = vec![(Err("no string".to_string()), list(&["a"]))];
    assert!(entries_to_overrides("p", entries).unwrap_err().0.ends_with("(no string)"));
}

#[test]
fn normalising_twice_changes_nothing() {
    for raw in ["  Query-Status\t", "STOP", "", " \n ", "x-Y z", "\u{3000}Migrate\u{3000}"] {
        let once = normalize_command_name(raw);
        assert_eq!(normalize_command_name(&once), once);
        assert_eq!(once.trim(), once);
    }
    for entry in HARD_DENYLIST.iter().chain(DEFAULT_ALLOWLIST.iter()) {
        assert_eq!(normalize_command_name(entry), *entry);
    }
}

#[test]
fn override_lists_count_by_the_names_in_them() {
    let list = |names: &[&str]| names.iter().map(|n| n.to_string()).collect::<Vec<String>>();
    let tidy = build_policy(&PolicyOverrides {
        allow: list(&["query-fdsets", "ringbuf-read", "migrate"]),
        deny: list(&["stop", "cont"]),
    });
    let untidy = build_policy(&PolicyOverrides {
        allow: list(&["MIGRATE", " Ringbuf-Read ", "", "ringbuf-read", "\tQUERY-fdsets"]),
        deny: list(&["Cont", "  ", "STOP\n", "stop"]),
    });
    for command in ["query-fdsets", "RINGBUF-read", "migrate", "stop", " cont", "quit", "query-pci", ""] {
        assert_eq!(decide_command(&tidy, command), decide_command(&untidy, command));
    }
    assert!(decide_command(&untidy, "ringbuf-read").is_allowed());
    assert!(!decide_command(&untidy, "cont").is_allowed());
}
