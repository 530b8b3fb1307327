use qmp_mcp::qemu::driver::LaunchRequest;
use qmp_mcp::qemu::json::{get_in, get_string};
use qmp_mcp::qemu::qmp_client::{
    read_line, Dispatched, GreetingWait, Message, Outcome, QmpClient, QmpError, Request,
    DEFAULT_COMMAND_TIMEOUT, DEFAULT_NEGOTIATE_TIMEOUT,
};
use qmp_mcp::qemu::real_driver::{
    append_capped, describe_exit, ending, ending_after_grace, stderr_or_empty, Ending, Exit, Launch,
    LaunchAction, LaunchEvent, STDERR_CAP,
};

const GREETING: &str = r#"{"QMP":{"version":{"qemu":{"major":8,"minor":2,"micro":0},"package":""},"capabilities":["oob"]}}"#;

fn sent(request: &Request) -> serde_json::Value {
    assert!(request.line.ends_with('\n'));
    serde_json::from_str(&request.line).unwrap()
}

/// The reply that a line carries, with the number of its request.
fn replied(client: &mut QmpClient, line: &str) -> (u64, Result<String, QmpError>) {
    match client.dispatch(line) {
        Dispatched::Reply { id, result } => (id, result),
        _ => panic!("no reply: {line}"),
    }
}

/// A session whose handshake is done.
fn negotiated() -> QmpClient {
    let mut client = QmpClient::new();
    assert!(matches!(client.dispatch(GREETING), Dispatched::Greeted));
    client.negotiate().unwrap();
    let cap = client.greeted(GreetingWait::Arrived).unwrap();
    let (id, result) = replied(&mut client, &format!(r#"{{"return":{{}},"id":{}}}"#, cap.id));
    assert_eq!(id, cap.id);
    assert_eq!(result.unwrap(), "{}");
    client
}

#[test]
fn negotiate_reads_greeting_then_sends_qmp_capabilities() {
    let mut client = QmpClient::new();
    assert!(matches!(client.dispatch(GREETING), Dispatched::Greeted));
    client.negotiate().unwrap();
    let request = client.greeted(GreetingWait::Arrived).unwrap();
    let req = sent(&request);
    assert_eq!(req["execute"], "qmp_capabilities");
    let id = req["id"].as_u64().unwrap();
    assert_eq!(id, request.id);
    let (answered, result) = replied(&mut client, &format!(r#"{{"return":{{}},"id":{id}}}"#));
    assert_eq!(answered, id);
    assert!(result.is_ok());
    assert!(client.greeting().is_some());
}

#[test]
fn correlates_concurrent_responses_by_id() {
    let mut client = negotiated();
    let status = client.execute("query-status", None).unwrap();
    let name = client.execute("query-name", None).unwrap();
    let status_id = sent(&status)["id"].as_u64().unwrap();
    let name_id = sent(&name)["id"].as_u64().unwrap();
    assert_ne!(status_id, name_id);

    let (id, named) = replied(
        &mut client,
        &format!(r#"{{"return":{{"name":"vm"}},"id":{name_id}}}"#),
    );
    assert_eq!(id, name.id);
    assert_eq!(get_string(&named.unwrap(), "name"), Some("vm".to_string()));
    let (id, running) = replied(
        &mut client,
        &format!(r#"{{"return":{{"status":"running","running":true}},"id":{status_id}}}"#),
    );
    assert_eq!(id, status.id);
    assert_eq!(get_string(&running.unwrap(), "status"), Some("running".to_string()));
}

#[test]
fn maps_qmp_error_preserving_class_and_desc() {
    let mut client = negotiated();
    let request = client.execute("bogus", None).unwrap();
    let (_, result) = replied(
        &mut client,
        &format!(
            r#"{{"error":{{"class":"CommandNotFound","desc":"no such command"}},"id":{}}}"#,
            request.id
        ),
    );
    let err = result.unwrap_err();
    assert_eq!(
        err.message(),
        r#"QMP command "bogus" failed [CommandNotFound]: no such command"#
    );
    match err {
        QmpError::Command {
            command,
            class,
            desc,
        } => {
            assert_eq!(command, "bogus");
            assert_eq!(class, "CommandNotFound");
            assert_eq!(desc, "no such command");
        }
        other => panic!("expected a Command error, got {other:?}"),
    }
}

#[test]
fn command_times_out_when_qemu_goes_silent() {
    let mut client = negotiated();
    let request = client.execute("query-status", None).unwrap();
    let err = client
        .executed(request.id, "query-status", Outcome::TimedOut(80))
        .unwrap_err();
    match err {
        QmpError::Connection(msg) => {
            assert!(msg.contains("timed out"), "got: {msg}");
            assert!(msg.contains("query-status"), "got: {msg}");
            assert!(msg.contains("80ms"), "got: {msg}");
        }
        other => panic!("expected a Connection timeout, got {other:?}"),
    }
    let late = format!(r#"{{"return":{{}},"id":{}}}"#, request.id);
    assert!(matches!(client.dispatch(&late), Dispatched::Ignored));
}

#[test]
fn delivers_async_events_to_a_subscriber() {
    let mut client = negotiated();
    let dispatched = client.dispatch(
        r#"{"event":"SHUTDOWN","data":{"guest":true},"timestamp":{"seconds":1,"microseconds":2}}"#,
    );
    match dispatched {
        Dispatched::Event(event) => {
            assert_eq!(event.event, "SHUTDOWN");
            assert_eq!(get_in(&event.data.unwrap(), "guest"), Some("true".to_string()));
            assert_eq!(
                get_in(&event.timestamp.unwrap(), "microseconds"),
                Some("2".to_string())
            );
        }
        _ => panic!("no event"),
    }
}

#[test]
fn execute_fails_closed_after_the_socket_drops() {
    let mut client = QmpClient::new();
    client.fail_all("QMP connection lost.");
    let err = client.execute("query-status", None).unwrap_err();
    assert!(matches!(err, QmpError::Connection(_)));
    assert_eq!(err.message(), "QMP connection lost.");
}

#[test]
fn a_request_is_one_line_whatever_it_names() {
    let mut client = QmpClient::new();
    let request = client.execute("a\"b\nc", Some(r#"{"k":[1,2]}"#)).unwrap();
    assert_eq!(request.line.matches('\n').count(), 1);
    let req = sent(&request);
    assert_eq!(req["execute"], "a\"b\nc");
    assert_eq!(req["arguments"]["k"][1], 2);
    assert_eq!(req["id"], 1);
    assert_eq!(client.next_id(), 2);
}

#[test]
fn lines_that_mean_nothing_are_ignored() {
    let mut client = QmpClient::new();
    for line in ["", "not json", "[1]", "{}", r#"{"return":{}}"#, r#"{"return":{},"id":7}"#] {
        assert!(matches!(client.dispatch(line), Dispatched::Ignored), "{line}");
    }
    assert!(matches!(read_line("42"), Message::Nothing));
}

#[test]
fn a_closed_session_drops_what_is_outstanding() {
    let mut client = negotiated();
    let request = client.execute("stop", None).unwrap();
    client.close();
    client.fail_all("later");
    let err = client
        .executed(request.id, "stop", Outcome::Dropped)
        .unwrap_err();
    assert_eq!(err.message(), "QMP connection closed.");
    let late = format!(r#"{{"return":{{}},"id":{}}}"#, request.id);
    assert!(matches!(client.dispatch(&late), Dispatched::Ignored));
}

#[test]
fn a_request_that_was_not_written_is_given_up() {
    let mut client = negotiated();
    let request = client.execute("cont", None).unwrap();
    let err = client
        .executed(request.id, "cont", Outcome::WriteFailed("broken pipe".to_string()))
        .unwrap_err();
    assert_eq!(
        err.message(),
        "Failed to write QMP command \"cont\" to the socket: broken pipe"
    );
    let answered = client.executed(9, "cont", Outcome::Answered(Ok("{}".to_string())));
    assert_eq!(answered, Ok("{}".to_string()));
}

#[test]
fn the_greeting_is_taken_up_once() {
    let mut client = QmpClient::new();
    client.negotiate().unwrap();
    assert_eq!(
        client.negotiate().unwrap_err().message(),
        "QMP greeting was already consumed."
    );
    assert_eq!(
        client.greeted(GreetingWait::Dropped).unwrap_err().message(),
        "QMP connection closed before the greeting arrived."
    );
    assert_eq!(
        client
            .greeted(GreetingWait::TimedOut(DEFAULT_NEGOTIATE_TIMEOUT))
            .unwrap_err()
            .message(),
        "Timed out after 5000ms waiting for the QMP greeting."
    );
    assert!(client.greeting().is_none());
    assert_eq!(DEFAULT_COMMAND_TIMEOUT, 10_000);
}

fn launch() -> Launch {
    Launch::new(LaunchRequest {
        binary: "qemu-system-x86_64".to_string(),
        argv: vec!["-S".to_string()],
        qmp_socket_path: "/run/qmp.sock".to_string(),
    })
}

/// A launch whose process was spawned.
fn spawned() -> Launch {
    let mut l = launch();
    assert!(matches!(l.advance(LaunchEvent::DirectoryReady, ""), LaunchAction::Inspect));
    assert!(matches!(l.advance(LaunchEvent::SocketFree, ""), LaunchAction::Spawn));
    assert!(matches!(l.advance(LaunchEvent::Spawned, ""), LaunchAction::Dial));
    l
}

/// The message of a failure, whether the session is closed, and whether the process is reaped.
fn failed(action: LaunchAction) -> (String, bool, bool) {
    match action {
        LaunchAction::Fail {
            error,
            close_session,
            reap,
        } => (error.0, close_session, reap),
        _ => panic!("the launch goes on"),
    }
}

#[test]
fn a_launch_takes_its_steps_in_order() {
    let mut l = spawned();
    let refused = LaunchEvent::Refused {
        why: "no such file".to_string(),
        late: false,
    };
    assert!(matches!(l.advance(refused, ""), LaunchAction::Wait));
    assert!(matches!(l.advance(LaunchEvent::Waited, ""), LaunchAction::Dial));
    assert!(matches!(l.advance(LaunchEvent::Connected, ""), LaunchAction::Negotiate));
    assert!(matches!(l.advance(LaunchEvent::Negotiated, ""), LaunchAction::Finish));
}

#[test]
fn an_occupied_socket_is_left_alone() {
    let mut l = launch();
    l.advance(LaunchEvent::DirectoryReady, "");
    let (m, close, reap) = failed(l.advance(LaunchEvent::SocketOccupied, ""));
    assert!(m.contains("/run/qmp.sock") && m.contains("already occupied"));
    assert!(!close && !reap);
}

#[test]
fn a_launch_fails_with_what_the_process_said() {
    let exit = Exit {
        code: Some(1),
        signal: None,
    };
    let (m, close, reap) = failed(spawned().advance(LaunchEvent::Exited(exit), " no kvm \n"));
    assert!(m.starts_with("QEMU exited before the QMP socket was ready ("));
    assert!(m.contains(&describe_exit(exit)) && m.ends_with("Stderr: no kvm"));
    assert!(!close && reap);

    let late = LaunchEvent::Refused {
        why: "refused".to_string(),
        late: true,
    };
    let (m, _, reap) = failed(spawned().advance(late, ""));
    assert_eq!(
        m,
        "Timed out after 10000ms connecting to the QMP socket at /run/qmp.sock: refused. Stderr: (empty)"
    );
    assert!(reap);

    let mut l = spawned();
    l.advance(LaunchEvent::Connected, "");
    let (m, close, reap) = failed(l.advance(LaunchEvent::NegotiationFailed("x".to_string()), ""));
    assert_eq!(m, "Failed to negotiate the QMP session with qemu-system-x86_64: x");
    assert!(close && reap);

    let unready = LaunchEvent::DirectoryFailed {
        dir: "/run".to_string(),
        why: "denied".to_string(),
    };
    assert_eq!(
        failed(launch().advance(unready, "")).0,
        "Failed to create the QMP socket directory /run: denied"
    );
    let mut l = launch();
    l.advance(LaunchEvent::DirectoryReady, "");
    l.advance(LaunchEvent::SocketFree, "");
    assert_eq!(
        failed(l.advance(LaunchEvent::SpawnFailed("not found".to_string()), "")).0,
        "Failed to spawn qemu-system-x86_64: not found"
    );
}

#[test]
fn the_end_of_the_error_output_is_kept() {
    let mut buf = String::new();
    append_capped(&mut buf, "start");
    append_capped(&mut buf, &"x".repeat(STDERR_CAP - 1));
    assert_eq!(buf.len(), STDERR_CAP);
    assert!(buf.starts_with('t'));
    append_capped(&mut buf, "\u{e9}");
    assert_eq!(buf.len(), STDERR_CAP);
    assert!(buf.ends_with("x\u{e9}"));
    let mut wide = "\u{e9}".repeat(STDERR_CAP / 2);
    append_capped(&mut wide, "!");
    assert_eq!(wide.len(), STDERR_CAP - 1);
    assert_eq!(stderr_or_empty("  \n"), "(empty)");
    assert_eq!(stderr_or_empty(" a b "), "a b");
}

#[test]
fn a_process_is_asked_before_it_is_killed() {
    assert_eq!(ending(true), Ending::Done);
    assert_eq!(ending(false), Ending::Ask);
    assert_eq!(ending_after_grace(true), Ending::Done);
    assert_eq!(ending_after_grace(false), Ending::Kill);
}
