use qmp_mcp::config::{
    load_config, resolve_image_dir, resolve_iso_dir, AuthMode, Config, EnvMap, LogLevel, PortRange,
    TransportMode,
};

/// An environment with the given bindings.
fn env(pairs: &[(&str, &str)]) -> EnvMap {
    let mut map = EnvMap::new();
    for (name, value) in pairs {
        map.insert(name.to_string(), value.to_string());
    }
    map
}

/// The default store directories for an empty environment.
const DEFAULT_IMAGE_DIR: &str = "/tmp/qmp-mcp/images";
const DEFAULT_ISO_DIR: &str = "/tmp/qmp-mcp/isos";

/// The configuration for an empty environment.
fn defaults() -> Config {
    Config {
        transport: TransportMode::Stdio,
        log_level: LogLevel::Info,
        http_host: "127.0.0.1".into(),
        http_port: 8080,
        http_endpoint: "/mcp".into(),
        allowed_origins: vec![
            "http://localhost:8080".into(),
            "http://127.0.0.1:8080".into(),
        ],
        auth_mode: AuthMode::ApiKey,
        api_keys: vec![],
        jwt_secret: None,
        allow_insecure: false,
        image_dir: DEFAULT_IMAGE_DIR.into(),
        iso_dir: DEFAULT_ISO_DIR.into(),
        qemu_binary_override: None,
        max_disk_gb: 64,
        max_memory_mb: 4096,
        max_vcpus: 2,
        hostfwd_port_range: PortRange {
            low: 1024,
            high: 65535,
        },
        allow_host_net: false,
        auto_start: false,
        event_buffer_size: 256,
        allow_raw_args: false,
        viewer_password: None,
        viewer_host: "127.0.0.1".into(),
        viewer_port: 6080,
    }
}

#[test]
fn defaults_to_stdio_no_auth_when_env_empty() {
    assert_eq!(load_config(&env(&[])).unwrap(), defaults());
}

#[test]
fn reads_valid_values_and_normalises_case() {
    let cfg = load_config(&env(&[
        ("QMP_MCP_TRANSPORT", "HTTP"),
        ("QMP_MCP_LOG_LEVEL", "Debug"),
        ("QMP_MCP_AUTH", "ApiKey"),
        ("QMP_MCP_API_KEYS", "k1"),
    ]))
    .unwrap();
    assert_eq!(cfg.transport, TransportMode::Http);
    assert_eq!(cfg.log_level, LogLevel::Debug);
    assert_eq!(cfg.auth_mode, AuthMode::ApiKey);
}

#[test]
fn treats_empty_string_as_unset() {
    assert_eq!(
        load_config(&env(&[("QMP_MCP_TRANSPORT", "")])).unwrap(),
        defaults()
    );
}

#[test]
fn rejects_invalid_transport_naming_variable_and_allowed_values() {
    let err = load_config(&env(&[("QMP_MCP_TRANSPORT", "ftp")])).unwrap_err();
    assert!(err
        .0
        .contains("QMP_MCP_TRANSPORT must be one of: stdio, http, both"));
}

#[test]
fn rejects_invalid_log_level_naming_variable() {
    let err = load_config(&env(&[("QMP_MCP_LOG_LEVEL", "verbose")])).unwrap_err();
    assert!(err.0.contains("QMP_MCP_LOG_LEVEL"));
    assert!(err.0.contains("debug, info, warning, error"));
}

#[test]
fn http_host_port_endpoint_defaults_and_overrides() {
    let cfg = load_config(&env(&[
        ("QMP_MCP_TRANSPORT", "http"),
        ("QMP_MCP_API_KEYS", "k"),
    ]))
    .unwrap();
    assert_eq!(cfg.http_host, "127.0.0.1");
    assert_eq!(cfg.http_port, 8080);
    assert_eq!(cfg.http_endpoint, "/mcp");

    let cfg = load_config(&env(&[
        ("QMP_MCP_TRANSPORT", "http"),
        ("QMP_MCP_API_KEYS", "k"),
        ("QMP_MCP_HTTP_HOST", " 0.0.0.0 "),
        ("QMP_MCP_HTTP_PORT", "9000"),
        ("QMP_MCP_HTTP_ENDPOINT", " /rpc "),
    ]))
    .unwrap();
    assert_eq!(cfg.http_host, "0.0.0.0");
    assert_eq!(cfg.http_port, 9000);
    assert_eq!(cfg.http_endpoint, "/rpc");
}

#[test]
fn derives_default_allowed_origins_from_port() {
    let cfg = load_config(&env(&[
        ("QMP_MCP_TRANSPORT", "http"),
        ("QMP_MCP_API_KEYS", "k"),
        ("QMP_MCP_HTTP_PORT", "9000"),
    ]))
    .unwrap();
    assert_eq!(
        cfg.allowed_origins,
        vec![
            "http://localhost:9000".to_string(),
            "http://127.0.0.1:9000".to_string()
        ]
    );
}

#[test]
fn explicit_allowed_origins_override_default() {
    let cfg = load_config(&env(&[
        ("QMP_MCP_TRANSPORT", "http"),
        ("QMP_MCP_API_KEYS", "k"),
        (
            "QMP_MCP_HTTP_ALLOWED_ORIGINS",
            "https://app.example.com, https://admin.example.com ",
        ),
    ]))
    .unwrap();
    assert_eq!(
        cfg.allowed_origins,
        vec![
            "https://app.example.com".to_string(),
            "https://admin.example.com".to_string()
        ]
    );
}

#[test]
fn fails_closed_on_invalid_ports() {
    for port in ["abc", "8080x", "0", "70000", "-1", "80.5"] {
        let err = load_config(&env(&[
            ("QMP_MCP_TRANSPORT", "http"),
            ("QMP_MCP_API_KEYS", "k"),
            ("QMP_MCP_HTTP_PORT", port),
        ]))
        .unwrap_err();
        assert!(
            err.0
                .contains("QMP_MCP_HTTP_PORT must be an integer port in 1..65535"),
            "port {port:?} gave {:?}",
            err.0
        );
    }
}

#[test]
fn apikey_fail_closed_names_keys_and_insecure() {
    let err = load_config(&env(&[("QMP_MCP_TRANSPORT", "http")])).unwrap_err();
    assert!(err.0.contains("QMP_MCP_API_KEYS"));
    assert!(err.0.contains("QMP_MCP_ALLOW_INSECURE"));
}

#[test]
fn both_transport_fails_closed_with_no_keys() {
    assert!(load_config(&env(&[("QMP_MCP_TRANSPORT", "both")])).is_err());
}

#[test]
fn keys_of_only_commas_and_whitespace_are_empty_and_fail_closed() {
    assert!(load_config(&env(&[
        ("QMP_MCP_TRANSPORT", "http"),
        ("QMP_MCP_API_KEYS", " , ,, "),
    ]))
    .is_err());
}

#[test]
fn accepts_http_with_keys_trimmed() {
    let cfg = load_config(&env(&[
        ("QMP_MCP_TRANSPORT", "http"),
        ("QMP_MCP_API_KEYS", "k1, k2 ,, k3 "),
    ]))
    .unwrap();
    assert_eq!(cfg.api_keys, vec!["k1", "k2", "k3"]);
    assert_eq!(cfg.auth_mode, AuthMode::ApiKey);
}

#[test]
fn permits_insecure_http_with_no_keys() {
    let cfg = load_config(&env(&[
        ("QMP_MCP_TRANSPORT", "http"),
        ("QMP_MCP_ALLOW_INSECURE", "true"),
    ]))
    .unwrap();
    assert!(cfg.allow_insecure);
    assert!(cfg.api_keys.is_empty());
}

#[test]
fn jwt_fail_closed_names_secret() {
    let err = load_config(&env(&[
        ("QMP_MCP_TRANSPORT", "http"),
        ("QMP_MCP_AUTH", "jwt"),
    ]))
    .unwrap_err();
    assert!(err.0.contains("QMP_MCP_JWT_SECRET"));
}

#[test]
fn jwt_whitespace_only_secret_is_unset_and_fails_closed() {
    let err = load_config(&env(&[
        ("QMP_MCP_TRANSPORT", "http"),
        ("QMP_MCP_AUTH", "jwt"),
        ("QMP_MCP_JWT_SECRET", "   "),
    ]))
    .unwrap_err();
    assert!(err.0.contains("QMP_MCP_JWT_SECRET"));
}

#[test]
fn accepts_http_jwt_with_secret() {
    let cfg = load_config(&env(&[
        ("QMP_MCP_TRANSPORT", "http"),
        ("QMP_MCP_AUTH", "jwt"),
        ("QMP_MCP_JWT_SECRET", "s3cr3t"),
    ]))
    .unwrap();
    assert_eq!(cfg.auth_mode, AuthMode::Jwt);
    assert_eq!(cfg.jwt_secret.as_deref(), Some("s3cr3t"));
}

#[test]
fn rejects_non_boolean_allow_insecure() {
    let err = load_config(&env(&[
        ("QMP_MCP_TRANSPORT", "http"),
        ("QMP_MCP_ALLOW_INSECURE", "yes"),
    ]))
    .unwrap_err();
    assert!(err
        .0
        .contains("QMP_MCP_ALLOW_INSECURE must be \"true\" or \"false\""));
}

#[test]
fn image_store_defaults_and_overrides() {
    let cfg = load_config(&env(&[])).unwrap();
    assert_eq!(cfg.image_dir, DEFAULT_IMAGE_DIR);
    assert_eq!(cfg.max_disk_gb, 64);

    assert_eq!(
        load_config(&env(&[("QMP_MCP_IMAGE_DIR", " /srv/images ")]))
            .unwrap()
            .image_dir,
        "/srv/images"
    );
    assert_eq!(
        load_config(&env(&[("XDG_DATA_HOME", "/x/data")]))
            .unwrap()
            .image_dir,
        "/x/data/qmp-mcp/images"
    );
    assert_eq!(
        load_config(&env(&[("HOME", "/home/u")])).unwrap().image_dir,
        "/home/u/.local/share/qmp-mcp/images"
    );
}

#[test]
fn max_disk_gb_reads_and_fails_closed() {
    assert_eq!(
        load_config(&env(&[("QMP_MCP_MAX_DISK_GB", "128")]))
            .unwrap()
            .max_disk_gb,
        128
    );
    assert!(load_config(&env(&[("QMP_MCP_MAX_DISK_GB", "big")]))
        .unwrap_err()
        .0
        .contains("QMP_MCP_MAX_DISK_GB must be a positive integer"));
    assert!(load_config(&env(&[("QMP_MCP_MAX_DISK_GB", "0")])).is_err());
}

#[test]
fn resource_caps_defaults_and_fail_closed() {
    let cfg = load_config(&env(&[])).unwrap();
    assert_eq!(cfg.max_memory_mb, 4096);
    assert_eq!(cfg.max_vcpus, 2);
    assert_eq!(cfg.event_buffer_size, 256);

    assert_eq!(
        load_config(&env(&[("QMP_MCP_MAX_MEMORY_MB", "32768")]))
            .unwrap()
            .max_memory_mb,
        32768
    );
    assert!(load_config(&env(&[("QMP_MCP_MAX_MEMORY_MB", "lots")]))
        .unwrap_err()
        .0
        .contains("QMP_MCP_MAX_MEMORY_MB must be a positive integer"));
    assert!(load_config(&env(&[("QMP_MCP_MAX_MEMORY_MB", "0")])).is_err());

    assert_eq!(
        load_config(&env(&[("QMP_MCP_MAX_VCPUS", "16")]))
            .unwrap()
            .max_vcpus,
        16
    );
    assert!(load_config(&env(&[("QMP_MCP_MAX_VCPUS", "many")]))
        .unwrap_err()
        .0
        .contains("QMP_MCP_MAX_VCPUS must be a positive integer"));

    assert_eq!(
        load_config(&env(&[("QMP_MCP_EVENT_BUFFER_SIZE", "1024")]))
            .unwrap()
            .event_buffer_size,
        1024
    );
    assert!(load_config(&env(&[("QMP_MCP_EVENT_BUFFER_SIZE", "big")]))
        .unwrap_err()
        .0
        .contains("QMP_MCP_EVENT_BUFFER_SIZE must be a positive integer"));
}

#[test]
fn allow_raw_args_defaults_closed_and_fails_closed() {
    assert!(!load_config(&env(&[])).unwrap().allow_raw_args);
    assert!(
        load_config(&env(&[("QMP_MCP_ALLOW_RAW_ARGS", "true")]))
            .unwrap()
            .allow_raw_args
    );
    assert!(
        !load_config(&env(&[("QMP_MCP_ALLOW_RAW_ARGS", "false")]))
            .unwrap()
            .allow_raw_args
    );
    assert!(load_config(&env(&[("QMP_MCP_ALLOW_RAW_ARGS", "yes")]))
        .unwrap_err()
        .0
        .contains("QMP_MCP_ALLOW_RAW_ARGS must be \"true\" or \"false\""));
}

#[test]
fn iso_store_defaults_separate_and_overrides() {
    let cfg = load_config(&env(&[])).unwrap();
    assert_eq!(cfg.iso_dir, DEFAULT_ISO_DIR);
    assert_ne!(cfg.iso_dir, cfg.image_dir);

    assert_eq!(
        load_config(&env(&[("QMP_MCP_ISO_DIR", " /srv/isos ")]))
            .unwrap()
            .iso_dir,
        "/srv/isos"
    );
    assert_eq!(
        load_config(&env(&[("XDG_DATA_HOME", "/x/data")]))
            .unwrap()
            .iso_dir,
        "/x/data/qmp-mcp/isos"
    );
    assert_eq!(
        load_config(&env(&[("HOME", "/home/u")])).unwrap().iso_dir,
        "/home/u/.local/share/qmp-mcp/isos"
    );
}

#[test]
fn qemu_binary_override_is_none_when_unset_or_blank() {
    assert_eq!(load_config(&env(&[])).unwrap().qemu_binary_override, None);
    assert_eq!(
        load_config(&env(&[("QMP_MCP_QEMU_BINARY", "")]))
            .unwrap()
            .qemu_binary_override,
        None
    );
    assert_eq!(
        load_config(&env(&[("QMP_MCP_QEMU_BINARY", "   ")]))
            .unwrap()
            .qemu_binary_override,
        None
    );
}

#[test]
fn qemu_binary_explicit_override_is_honored() {
    assert_eq!(
        load_config(&env(&[("QMP_MCP_QEMU_BINARY", "qemu-system-aarch64")]))
            .unwrap()
            .qemu_binary_override,
        Some("qemu-system-aarch64".to_string())
    );
    assert_eq!(
        load_config(&env(&[(
            "QMP_MCP_QEMU_BINARY",
            " /usr/bin/qemu-system-riscv64 "
        )]))
        .unwrap()
        .qemu_binary_override,
        Some("/usr/bin/qemu-system-riscv64".to_string())
    );
}

#[test]
fn qemu_binary_fails_closed_on_unsafe_values() {
    for value in [
        "qemu; rm -rf",
        "qemu-system-x86_64 --enable-kvm",
        "qemu\tsystem",
        "$(rm -rf /)",
        "qemu|nc",
        "../bin/qemu-system-aarch64",
        "./qemu",
        "build/qemu-system-aarch64",
    ] {
        let err = load_config(&env(&[("QMP_MCP_QEMU_BINARY", value)])).unwrap_err();
        assert!(
            err.0.contains("QMP_MCP_QEMU_BINARY"),
            "value {value:?} gave {:?}",
            err.0
        );
    }
}

#[test]
fn guest_networking_defaults_and_range_parsing() {
    let cfg = load_config(&env(&[])).unwrap();
    assert_eq!(
        cfg.hostfwd_port_range,
        PortRange {
            low: 1024,
            high: 65535
        }
    );
    assert!(!cfg.allow_host_net);

    assert_eq!(
        load_config(&env(&[("QMP_MCP_HOSTFWD_PORT_RANGE", "2000-3000")]))
            .unwrap()
            .hostfwd_port_range,
        PortRange {
            low: 2000,
            high: 3000
        }
    );
    assert_eq!(
        load_config(&env(&[("QMP_MCP_HOSTFWD_PORT_RANGE", "8080-8080")]))
            .unwrap()
            .hostfwd_port_range,
        PortRange {
            low: 8080,
            high: 8080
        }
    );
}

#[test]
fn hostfwd_range_fails_closed_naming_variable() {
    for range in [
        "abc",
        "1024",
        "1024-",
        "-65535",
        "0-65535",
        "1024-70000",
        "3000-2000",
        "1024-65535-2",
        " 1024 - 2048 ",
    ] {
        let err = load_config(&env(&[("QMP_MCP_HOSTFWD_PORT_RANGE", range)])).unwrap_err();
        assert!(
            err.0.contains("QMP_MCP_HOSTFWD_PORT_RANGE"),
            "range {range:?} gave {:?}",
            err.0
        );
    }
}

#[test]
fn allow_host_net_boolean_fails_closed() {
    assert!(
        load_config(&env(&[("QMP_MCP_ALLOW_HOST_NET", "true")]))
            .unwrap()
            .allow_host_net
    );
    assert!(
        !load_config(&env(&[("QMP_MCP_ALLOW_HOST_NET", "False")]))
            .unwrap()
            .allow_host_net
    );
    assert!(load_config(&env(&[("QMP_MCP_ALLOW_HOST_NET", "yes")]))
        .unwrap_err()
        .0
        .contains("QMP_MCP_ALLOW_HOST_NET must be \"true\" or \"false\""));
}

#[test]
fn auto_start_defaults_false_and_reads_true() {
    assert!(!load_config(&env(&[])).unwrap().auto_start);
    assert!(
        load_config(&env(&[("QMP_MCP_AUTO_START", "true")]))
            .unwrap()
            .auto_start
    );
}

#[test]
fn viewer_defaults_and_reads() {
    let cfg = load_config(&env(&[])).unwrap();
    assert_eq!(cfg.viewer_host, "127.0.0.1");
    assert_eq!(cfg.viewer_port, 6080);
    assert_eq!(cfg.viewer_password, None);

    let cfg = load_config(&env(&[
        ("QMP_MCP_VIEWER_PASSWORD", "view-secret"),
        ("QMP_MCP_VIEWER_HOST", "0.0.0.0"),
        ("QMP_MCP_VIEWER_PORT", "7000"),
    ]))
    .unwrap();
    assert_eq!(cfg.viewer_password.as_deref(), Some("view-secret"));
    assert_eq!(cfg.viewer_host, "0.0.0.0");
    assert_eq!(cfg.viewer_port, 7000);
}

#[test]
fn viewer_whitespace_password_is_unset() {
    assert_eq!(
        load_config(&env(&[("QMP_MCP_VIEWER_PASSWORD", "   ")]))
            .unwrap()
            .viewer_password,
        None
    );
}

#[test]
fn viewer_port_fails_closed() {
    assert!(load_config(&env(&[("QMP_MCP_VIEWER_PORT", "abc")]))
        .unwrap_err()
        .0
        .contains("QMP_MCP_VIEWER_PORT must be an integer port in 1..65535"));
}

#[test]
fn stdio_does_not_require_http_auth() {
    assert!(load_config(&env(&[("QMP_MCP_TRANSPORT", "stdio")])).is_ok());
    assert_eq!(
        load_config(&env(&[("QMP_MCP_AUTH", "jwt")]))
            .unwrap()
            .auth_mode,
        AuthMode::Jwt
    );
}

#[test]
fn a_temp_dir_that_is_the_root_gives_absolute_stores() {
    for root in ["/", "//", " / "] {
        let env = env(&[("TMPDIR", root)]);
        assert_eq!(resolve_image_dir(&env), "/qmp-mcp/images");
        assert_eq!(resolve_iso_dir(&env), "/qmp-mcp/isos");
    }
    let env = env(&[("TMPDIR", "/var/tmp//")]);
    assert_eq!(resolve_image_dir(&env), "/var/tmp/qmp-mcp/images");
}

#[test]
fn spaces_around_a_host_port_range_are_refused() {
    for range in [" 2000-3000 ", " 2000-3000", "2000-3000 ", "2000-3000\n"] {
        let err = load_config(&env(&[("QMP_MCP_HOSTFWD_PORT_RANGE", range)])).unwrap_err();
        assert_eq!(
            err.0,
            format!(
                "QMP_MCP_HOSTFWD_PORT_RANGE must be a host-port range \"LOW-HIGH\" with 1 <= LOW <= \
                 HIGH <= 65535 (got \"{range}\")."
            )
        );
    }
    let blank = load_config(&env(&[("QMP_MCP_HOSTFWD_PORT_RANGE", "  ")])).unwrap();
    assert_eq!((blank.hostfwd_port_range.low, blank.hostfwd_port_range.high), (1024, 65535));
}
