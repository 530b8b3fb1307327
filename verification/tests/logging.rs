use qmp_mcp::config::LogLevel;
use qmp_mcp::logging::{
    check_log_file, enabled, min_severity, severity, subsystem_for_target, Level, Parent,
};

#[test]
fn targets_map_onto_the_shared_subsystem_vocabulary() {
    assert_eq!(subsystem_for_target("qmp_mcp"), Some("server"));
    assert_eq!(
        subsystem_for_target("qmp_mcp::instance::orchestrator"),
        Some("orchestrator")
    );
    assert_eq!(
        subsystem_for_target("qmp_mcp::instance::download"),
        Some("download")
    );
    assert_eq!(
        subsystem_for_target("qmp_mcp::instance::catalog"),
        Some("download")
    );
    assert_eq!(
        subsystem_for_target("qmp_mcp::qemu::real_driver"),
        Some("qmp")
    );
    assert_eq!(subsystem_for_target("qmp_mcp::viewer"), Some("viewer"));
    assert_eq!(subsystem_for_target("qmp_mcp::policy"), Some("policy"));
    assert_eq!(subsystem_for_target("hyper::proto"), None);
    assert_eq!(subsystem_for_target("rmcp"), None);
}

#[test]
fn severities_mirror_the_ts_ordering() {
    assert!(severity(Level::Error) > severity(Level::Warn));
    assert!(severity(Level::Warn) > severity(Level::Info));
    assert!(severity(Level::Info) > severity(Level::Debug));
    assert_eq!(severity(Level::Trace), severity(Level::Debug));
    assert_eq!(min_severity(LogLevel::Warning), severity(Level::Warn));
}

#[test]
fn open_log_file_fails_closed_on_a_missing_directory() {
    let err = check_log_file("/missing/server.log", "/missing", Parent::Missing, false).unwrap_err();
    assert!(
        err.contains("QMP_MCP_LOG_FILE"),
        "must name the variable: {err}"
    );
    assert!(err.contains("does not exist"), "must say why: {err}");
}

#[test]
fn a_log_file_needs_a_directory_and_must_not_be_one() {
    assert_eq!(
        check_log_file("/x/y.log", "/x", Parent::NotDirectory, false).unwrap_err(),
        "QMP_MCP_LOG_FILE: \"/x\" is not a directory."
    );
    assert_eq!(
        check_log_file("/x/y", "/x", Parent::Directory, true).unwrap_err(),
        "QMP_MCP_LOG_FILE: \"/x/y\" is a directory, not a file."
    );
    assert_eq!(check_log_file("/x/y.log", "/x", Parent::Directory, false), Ok(()));
}

#[test]
fn an_override_decides_for_its_subsystem_alone() {
    let filters = vec![("qmp".to_string(), LogLevel::Debug)];
    assert!(enabled(Level::Debug, "qmp_mcp::qemu::qmp_client", LogLevel::Warning, &filters));
    assert!(!enabled(Level::Info, "qmp_mcp::policy", LogLevel::Warning, &filters));
    assert!(enabled(Level::Warn, "qmp_mcp::policy", LogLevel::Warning, &filters));
    assert!(!enabled(Level::Info, "hyper", LogLevel::Warning, &filters));
    assert!(enabled(Level::Error, "hyper", LogLevel::Error, &filters));
}
