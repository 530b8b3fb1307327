use qmp_mcp::config::{load_config, EnvMap};
use qmp_mcp::instance::argv::Stores;
use qmp_mcp::instance::base64::base64_encode;
use qmp_mcp::instance::creation::{CreateAction, CreateEvent, Creation};
use qmp_mcp::instance::event_buffer::{Appended, WaitForEventResult, WaitOutcome};
use qmp_mcp::instance::hardware_spec::{
    Accel, AccelMode, DisplayDevice, DisplayMode, HardwareSpecParams,
};
use qmp_mcp::instance::orchestrator::{
    directory_failed, encoder_not_started, relay, screendump_result, CreateFailure,
    ExecuteCommandError, InstanceState, LaunchPlan, LifecycleError, Orchestrator,
    OrchestratorOptions, Published, QmpCall, SerialRead, SerialWrite, StopRecordingResult,
    TeardownStep, WorkDirectory,
};
use qmp_mcp::instance::recording::Stamp;
use qmp_mcp::instance::serial::{ringbuf_result, SerialBackend, SerialFormat};
use qmp_mcp::instance::vnc::set_password;
use qmp_mcp::policy::{build_policy, PolicyOverrides};
use qmp_mcp::qemu::driver::DriverError;
use qmp_mcp::qemu::json::get_string;
use qmp_mcp::qemu::qmp_client::QmpEvent;
use qmp_mcp::server::{
    check_wait, default_qmp_socket_path, default_wait_timeout_ms, orchestrator_options,
    wait_for_event, CreateInstanceReport, InstanceReport, StateReport, WaitForEventParams,
    MAX_WAIT_TIMEOUT_MS,
};

fn test_options() -> OrchestratorOptions {
    OrchestratorOptions {
        qemu_binary_override: Some("qemu-system-x86_64".to_string()),
        host_arch: "x86_64".to_string(),
        qmp_socket_path: "/run/qmp-mcp/qmp.sock".to_string(),
        image_dir: None,
        iso_dir: None,
        host_share_dir: None,
        guest_share_dir: None,
        share_readonly: None,
        serial_buffer_bytes: 1 << 20,
        allow_serial_write: false,
        serial_backend: SerialBackend::Ringbuf,
        serial_spool_dir: None,
        ffmpeg_binary: None,
        recording_dir: None,
        recording_codec: "libx264".to_string(),
        recording_crf: 22,
        recording_max_fps: 15,
        recording_pixfmt: "yuv420p".to_string(),
        hostfwd_port_range: None,
        allow_host_net: false,
        auto_start: false,
        max_memory_mb: None,
        max_vcpus: None,
        allow_raw_args: false,
        event_buffer_size: None,
        viewer_password: None,
        viewer_user: None,
        viewer_host: "127.0.0.1".to_string(),
        viewer_port: 6080,
    }
}

fn options_with_recording() -> OrchestratorOptions {
    let mut options = test_options();
    options.ffmpeg_binary = Some("/usr/bin/ffmpeg".to_string());
    options.recording_dir = Some("/tmp/qmp-mcp-recordings-test".to_string());
    options
}

fn plain() -> HardwareSpecParams {
    HardwareSpecParams::default()
}

fn vnc() -> HardwareSpecParams {
    HardwareSpecParams {
        display: DisplayMode::Vnc,
        ..plain()
    }
}

fn with_adapter() -> HardwareSpecParams {
    HardwareSpecParams {
        display_device: DisplayDevice::Vga,
        ..plain()
    }
}

fn on_machine(machine: &str, accel: AccelMode) -> HardwareSpecParams {
    HardwareSpecParams {
        machine: machine.to_string(),
        accel,
        ..plain()
    }
}

fn stamp() -> Stamp {
    Stamp {
        pid: 1,
        nanos: 2,
        seq: 3,
    }
}

/// An orchestrator with a stand-in for the emulator, which records what it is told.
struct Bench {
    orch: Orchestrator,
    commands: Vec<String>,
    launches: Vec<(String, Vec<String>)>,
    running: bool,
    kvm: bool,
}

impl Bench {
    fn new(options: OrchestratorOptions) -> Bench {
        Bench {
            orch: Orchestrator::new(options, None),
            commands: vec![],
            launches: vec![],
            running: false,
            kvm: false,
        }
    }

    fn plan(&mut self, params: HardwareSpecParams) -> Result<LaunchPlan, LifecycleError> {
        let plan = self
            .orch
            .create_instance(params, self.kvm, &Stores::missing())?;
        self.launches
            .push((plan.request.binary.clone(), plan.request.argv.clone()));
        self.running = false;
        Ok(plan)
    }

    fn create(&mut self, params: HardwareSpecParams) -> Result<Published, LifecycleError> {
        let plan = self.plan(params)?;
        let published = self.orch.publish(plan);
        if let Some(call) = &published.resume {
            self.answer(&call.command, call.args.as_deref()).unwrap();
        }
        Ok(published)
    }

    fn destroy(&mut self) -> Result<(), LifecycleError> {
        self.orch.destroy_instance()?;
        self.orch.torn_down(Ok(()))
    }

    fn answer(&mut self, command: &str, _args: Option<&str>) -> Result<String, DriverError> {
        self.commands.push(command.to_string());
        let reply = match command {
            "query-status" if self.running => r#"{"status":"running","running":true}"#,
            "query-status" => r#"{"status":"paused","running":false}"#,
            "query-block" => r#"[{"device":"virtio0"}]"#,
            "query-cpus-fast" => r#"[{"cpu-index":0}]"#,
            "query-version" => r#"{"qemu":{"major":9}}"#,
            "ringbuf-read" => r#""fake-serial-output""#,
            "stop" => {
                self.running = false;
                "{}"
            }
            "cont" => {
                self.running = true;
                "{}"
            }
            _ => "{}",
        };
        Ok(reply.to_string())
    }

    /// Capture an event of the current Instance.
    fn capture(&mut self, event: QmpEvent) -> Appended {
        let generation = self.orch.current_generation();
        self.orch.capture_event(generation, event).expect("an Instance")
    }

    fn send(&mut self, call: QmpCall) -> Result<String, DriverError> {
        self.answer(&call.command, call.args.as_deref())
    }

    fn status(&mut self) -> Result<String, LifecycleError> {
        let call = self.orch.get_status()?;
        let reply = self.send(call);
        relay(reply)
    }
}

fn waits(result: Result<WaitOutcome, LifecycleError>) -> u64 {
    match result.unwrap() {
        WaitOutcome::Waiting(id) => id,
        WaitOutcome::Settled(_) => panic!("the wait is settled already"),
    }
}

fn synth(name: &str) -> QmpEvent {
    QmpEvent {
        event: name.to_string(),
        data: None,
        timestamp: None,
    }
}

fn synth_data(name: &str, data: &str) -> QmpEvent {
    QmpEvent {
        event: name.to_string(),
        data: Some(data.to_string()),
        timestamp: None,
    }
}

fn running_with_events(size: Option<u32>) -> Bench {
    let mut options = test_options();
    options.event_buffer_size = size;
    let mut bench = Bench::new(options);
    bench.create(plain()).unwrap();
    bench
}

fn event_names(bench: &Bench, since: Option<u64>) -> Vec<String> {
    let read = bench.orch.get_events(since).unwrap();
    read.events.into_iter().map(|e| e.event).collect()
}

#[test]
fn describe_share_reports_tag_and_mount_command() {
    let mut opts = test_options();
    opts.host_share_dir = Some("/srv/share".to_string());
    opts.guest_share_dir = Some("/mnt/share".to_string());
    opts.share_readonly = Some(true);
    let s = Bench::new(opts).orch.describe_share();
    assert!(s.available);
    assert_eq!(s.mount_tag, "share");
    assert_eq!(s.guest_mountpoint.as_deref(), Some("/mnt/share"));
    assert!(s.read_only);
    assert_eq!(
        s.mount_command.as_deref(),
        Some("mount -t 9p -o trans=virtio,version=9p2000.L,ro share /mnt/share")
    );

    let s = Bench::new(test_options()).orch.describe_share();
    assert!(!s.available);
    assert!(s.mount_command.is_none());
    assert!(s.guest_mountpoint.is_none());

    let mut rw = test_options();
    rw.host_share_dir = Some("/srv/s".to_string());
    rw.share_readonly = Some(false);
    let s = Bench::new(rw).orch.describe_share();
    assert!(!s.read_only);
    assert!(!s.mount_command.unwrap().contains(",ro"));
}

#[test]
fn create_does_not_cont_when_auto_start_off_guest_stays_paused() {
    let mut bench = Bench::new(test_options());
    bench.create(plain()).expect("create");
    assert!(!bench.commands.iter().any(|c| c == "cont"));
}

fn autostart() -> Bench {
    let mut options = test_options();
    options.auto_start = true;
    Bench::new(options)
}

#[test]
fn create_auto_starts_with_cont_when_enabled() {
    let mut bench = autostart();
    let result = bench.create(plain()).expect("create").result;
    assert_eq!(result.state, InstanceState::Running);
    assert!(bench.commands.iter().any(|c| c == "cont"));
}

fn with_serial() -> HardwareSpecParams {
    HardwareSpecParams {
        serial: true,
        ..plain()
    }
}

#[test]
fn write_serial_gated_by_allow_serial_write_and_read_serial_drains() {
    let mut bench = Bench::new(test_options());
    bench.create(with_serial()).expect("create");
    assert!(!bench.orch.describe_serial().writable);
    let e = bench.orch.write_serial("id\n", SerialFormat::Utf8).unwrap_err();
    assert!(e.0.contains("QMP_MCP_ALLOW_SERIAL_WRITE"));
    match bench.orch.read_serial(None, SerialFormat::Utf8).expect("read") {
        SerialRead::Command(call) => {
            assert_eq!(call.command, "ringbuf-read");
            let reply = bench.send(call).unwrap();
            let r = ringbuf_result(&reply, SerialFormat::Utf8);
            assert_eq!(r.output, "fake-serial-output");
        }
        _ => panic!("the ring is read by command"),
    }

    let mut options = test_options();
    options.allow_serial_write = true;
    let mut bench = Bench::new(options);
    bench.create(with_serial()).expect("create");
    assert!(bench.orch.describe_serial().writable);
    match bench.orch.write_serial("id\n", SerialFormat::Utf8).expect("write") {
        SerialWrite::Command { call, chars } => {
            assert_eq!(call.command, "ringbuf-write");
            assert_eq!(chars, 3);
        }
        SerialWrite::Socket(_) => panic!("the ring is written by command"),
    }
}

#[test]
fn describe_serial_reports_spool_backend_tail_and_not_writable() {
    let mut options = test_options();
    options.serial_backend = SerialBackend::Spool;
    options.serial_spool_dir = Some("/var/log/qmp-serial".to_string());
    options.allow_serial_write = true;
    let s = Bench::new(options).orch.describe_serial();
    assert_eq!(s.backend, "spool");
    assert_eq!(s.read_semantics, "tail");
    assert!(!s.writable);
}

#[test]
fn vnc_display_without_viewer_password_is_rejected_before_any_launch() {
    let mut bench = Bench::new(test_options());
    let err = bench.create(vnc()).err().unwrap();
    assert!(err.0.contains("QMP_MCP_VIEWER_PASSWORD"), "got: {}", err.0);
    assert!(err.0.contains("display \"vnc\""), "got: {}", err.0);
    assert_eq!(bench.orch.state(), InstanceState::NoInstance);
    assert_eq!(bench.launches.len(), 0);
}

fn with_viewer() -> Bench {
    let mut options = test_options();
    options.viewer_password = Some("view-secret".to_string());
    Bench::new(options)
}

#[test]
fn vnc_display_arms_the_password_starts_the_viewer_and_destroy_stops_it() {
    let mut bench = with_viewer();
    let plan = bench.plan(vnc()).unwrap();
    let armed = bench.orch.arm_display("abcdefgh");
    assert_eq!(armed.command, "set_password");
    let args = armed.args.unwrap();
    assert_eq!(get_string(&args, "password").as_deref(), Some("abcdefgh"));
    assert_eq!(args, set_password("abcdefgh"));
    let opts = bench.orch.viewer_options("abcdefgh".to_string());
    assert_eq!(opts.password, "view-secret");
    assert_eq!(opts.vnc_host, "127.0.0.1");
    assert_eq!(opts.vnc_port, 5900);
    assert_eq!(opts.vnc_password.len(), 8);
    bench.orch.publish(plan);

    let teardown = bench.orch.destroy_instance().unwrap();
    assert!(teardown.viewer, "destroy must stop the Viewer");
    bench.orch.torn_down(Ok(())).unwrap();
    assert_eq!(bench.orch.state(), InstanceState::NoInstance);
}

#[test]
fn a_headless_display_never_starts_the_viewer() {
    let mut bench = with_viewer();
    let plan = bench.plan(plain()).unwrap();
    assert_eq!(plan.spec.display, DisplayMode::NoDisplay);
    bench.orch.publish(plan);
    assert!(!bench.orch.destroy_instance().unwrap().viewer);
}

#[test]
fn viewer_start_failure_tears_down_and_leaves_none() {
    let mut bench = with_viewer();
    bench.plan(vnc()).unwrap();
    let refusal = bench
        .orch
        .create_failed(CreateFailure::Viewer("port in use".to_string()));
    assert!(
        refusal.error.0.contains("Failed to start the noVNC Viewer"),
        "got: {}",
        refusal.error.0
    );
    assert!(refusal.close && refusal.detach);
    assert_eq!(bench.orch.state(), InstanceState::NoInstance);
}

#[test]
fn reconciles_to_none_on_unexpected_exit_and_allows_a_fresh_create() {
    let mut bench = Bench::new(test_options());
    let generation = bench.create(plain()).unwrap().generation;
    assert_eq!(bench.orch.state(), InstanceState::Paused);

    assert!(bench.orch.reconcile_unexpected_exit(generation).is_some());
    bench.orch.torn_down(Ok(())).unwrap();
    assert_eq!(bench.orch.get_instance().state, InstanceState::NoInstance);
    assert!(bench.orch.get_instance().spec.is_none());
    assert!(bench.orch.get_instance().accel.is_none());

    bench
        .create(plain())
        .expect("a fresh create is accepted after an unexpected exit");
    assert_eq!(bench.orch.state(), InstanceState::Paused);
    assert_eq!(
        bench.launches.len(),
        2,
        "a second qemu was launched after the crash"
    );
}

#[test]
fn unexpected_exit_stops_the_viewer() {
    let mut bench = with_viewer();
    let generation = bench.create(vnc()).unwrap().generation;
    let teardown = bench.orch.reconcile_unexpected_exit(generation).unwrap();
    assert!(teardown.viewer, "an unexpected exit must stop the Viewer");
}

#[test]
fn a_stale_generation_watcher_never_clobbers_a_newer_instance() {
    let mut bench = Bench::new(test_options());
    bench.create(plain()).unwrap();
    let gen1 = bench.orch.current_generation();

    assert!(bench.orch.reconcile_unexpected_exit(gen1 - 1).is_none());
    assert_eq!(bench.orch.state(), InstanceState::Paused);

    bench.destroy().unwrap();
    bench.create(plain()).unwrap();
    assert_eq!(bench.orch.current_generation(), gen1 + 1);

    assert!(bench.orch.reconcile_unexpected_exit(gen1).is_none());
    assert_eq!(bench.orch.state(), InstanceState::Paused);

    let current = bench.orch.current_generation();
    assert!(bench.orch.reconcile_unexpected_exit(current).is_some());
    bench.orch.torn_down(Ok(())).unwrap();
    assert_eq!(bench.orch.state(), InstanceState::NoInstance);
}

#[test]
fn create_loads_instance_paused_then_destroy_returns_to_none() {
    let mut bench = Bench::new(test_options());
    assert_eq!(bench.orch.state(), InstanceState::NoInstance);
    assert_eq!(bench.orch.get_instance().state, InstanceState::NoInstance);

    let result = bench.create(plain()).expect("create ok").result;
    assert_eq!(result.state, InstanceState::Paused);
    assert_eq!(result.accel, Accel::Tcg);
    assert!(bench.status().unwrap().contains(r#""running":false"#));

    let view = bench.orch.get_instance();
    assert_eq!(view.state, InstanceState::Paused);
    assert!(view.spec.is_some());
    assert_eq!(view.accel, Some(Accel::Tcg));

    bench.destroy().expect("destroy ok");
    assert_eq!(bench.orch.state(), InstanceState::NoInstance);
    assert!(bench.orch.get_instance().spec.is_none());
    assert!(bench.orch.get_instance().accel.is_none());
}

#[test]
fn build_argv_output_reaches_the_driver() {
    let mut bench = Bench::new(test_options());
    bench.create(plain()).unwrap();
    assert_eq!(bench.launches.len(), 1);
    let (binary, argv) = &bench.launches[0];
    assert!(argv.iter().any(|a| a == "-qmp"));
    assert!(argv.iter().any(|a| a == "-S"));
    assert_eq!(binary, "qemu-system-x86_64");
}

#[test]
fn derives_qemu_binary_from_machine_when_no_override() {
    let mut options = test_options();
    options.qemu_binary_override = None;
    let mut bench = Bench::new(options);
    bench
        .create(on_machine("virt", AccelMode::Tcg))
        .expect("create ok");
    assert_eq!(bench.launches[0].0, "qemu-system-aarch64");
}

#[test]
fn explicit_binary_override_wins_over_machine_derivation() {
    let mut bench = Bench::new(test_options());
    bench
        .create(on_machine("virt", AccelMode::Tcg))
        .expect("create ok");
    assert_eq!(bench.launches[0].0, "qemu-system-x86_64");
}

#[test]
fn accel_auto_falls_back_to_tcg_on_arch_mismatch() {
    let mut options = test_options();
    options.qemu_binary_override = None;
    let mut bench = Bench::new(options);
    bench.kvm = true;
    let result = bench
        .create(on_machine("virt", AccelMode::Auto))
        .expect("create ok")
        .result;
    assert_eq!(result.accel, Accel::Tcg);
    assert!(result.accel_reason.contains("does not match host arch"));
}

#[test]
fn accel_auto_keys_off_the_override_binary_arch_not_the_machine() {
    let mut options = test_options();
    options.qemu_binary_override = Some("qemu-system-aarch64".to_string());
    let mut bench = Bench::new(options);
    bench.kvm = true;
    let result = bench
        .create(on_machine("q35", AccelMode::Auto))
        .expect("create ok")
        .result;
    assert_eq!(result.accel, Accel::Tcg);
    assert!(result
        .accel_reason
        .contains("guest arch aarch64 does not match host arch x86_64"));
}

#[test]
fn create_while_running_is_rejected_with_actionable_message() {
    let mut bench = Bench::new(test_options());
    bench.create(plain()).unwrap();

    let msg = bench.create(plain()).err().unwrap().0;
    assert!(msg.contains("An Instance already exists"), "got: {msg}");
    assert!(msg.contains("state PAUSED"), "got: {msg}");
    assert!(msg.contains("destroy_instance"), "got: {msg}");
    assert_eq!(bench.orch.state(), InstanceState::Paused);
}

#[test]
fn destroy_without_instance_is_rejected_actionably() {
    let mut bench = Bench::new(test_options());
    let msg = bench.destroy().unwrap_err().0;
    assert!(msg.contains("No Instance is running"), "got: {msg}");
    assert!(msg.contains("create_instance"), "got: {msg}");
}

#[test]
fn get_status_reflects_tracked_run_state_across_pause_resume() {
    let mut bench = autostart();
    assert!(bench.status().is_err());

    bench.create(plain()).unwrap();
    let status = bench.status().unwrap();
    assert_eq!(get_string(&status, "status").as_deref(), Some("running"));

    let call = bench.orch.pause_instance().unwrap();
    let reply = bench.send(call);
    assert_eq!(bench.orch.paused(reply).unwrap(), InstanceState::Paused);
    assert_eq!(bench.orch.state(), InstanceState::Paused);
    let status = bench.status().unwrap();
    assert_eq!(get_string(&status, "status").as_deref(), Some("paused"));

    let call = bench.orch.resume_instance().unwrap();
    let reply = bench.send(call);
    assert_eq!(bench.orch.resumed(reply).unwrap(), InstanceState::Running);
    assert_eq!(bench.orch.state(), InstanceState::Running);
    let status = bench.status().unwrap();
    assert_eq!(get_string(&status, "status").as_deref(), Some("running"));
}

#[test]
fn invalid_spec_is_rejected_before_any_launch() {
    let mut bench = Bench::new(test_options());
    let err = bench
        .create(HardwareSpecParams {
            vcpus: 0,
            ..plain()
        })
        .err()
        .unwrap();
    assert!(err.0.contains("vcpus"), "got: {}", err.0);
    assert_eq!(bench.orch.state(), InstanceState::NoInstance);
    assert_eq!(bench.launches.len(), 0, "no launch on invalid spec");
}

#[test]
fn launch_failure_releases_the_slot_and_reports_actionably() {
    let mut bench = Bench::new(test_options());
    bench.plan(plain()).unwrap();
    assert_eq!(bench.orch.state(), InstanceState::Starting);
    let refusal = bench.orch.create_failed(CreateFailure::Launch(DriverError(
        "qemu binary not found".to_string(),
    )));
    let msg = refusal.error.0;
    assert!(msg.contains("Failed to create the Instance"), "got: {msg}");
    assert!(msg.contains("qemu binary not found"), "got: {msg}");
    assert_eq!(bench.orch.state(), InstanceState::NoInstance);
}

#[test]
fn reset_and_powerdown_leave_the_lifecycle_state_unchanged() {
    let mut bench = autostart();
    let refused = |r: Result<QmpCall, LifecycleError>| r.err().unwrap().0;
    assert!(refused(bench.orch.reset_instance()).contains("reset it"));
    assert!(refused(bench.orch.powerdown_instance()).contains("power it down"));

    bench.create(plain()).unwrap();
    let call = bench.orch.reset_instance().unwrap();
    let reply = bench.send(call);
    assert_eq!(bench.orch.unchanged(reply).unwrap(), InstanceState::Running);
    assert_eq!(bench.orch.state(), InstanceState::Running);
    let call = bench.orch.powerdown_instance().unwrap();
    let reply = bench.send(call);
    assert_eq!(bench.orch.unchanged(reply).unwrap(), InstanceState::Running);
    assert_eq!(bench.orch.state(), InstanceState::Running);
    assert_eq!(bench.commands, vec!["cont", "system_reset", "system_powerdown"]);
}

#[test]
fn query_block_and_query_cpus_forward_their_qmp_commands() {
    let mut bench = Bench::new(test_options());
    assert!(bench.orch.query_block().is_err());
    assert!(bench.orch.query_cpus().is_err());

    bench.create(plain()).unwrap();
    let call = bench.orch.query_block().unwrap();
    assert!(bench.send(call).unwrap().contains("virtio0"));
    let call = bench.orch.query_cpus().unwrap();
    assert!(bench.send(call).unwrap().contains("cpu-index"));
}

#[test]
fn screendump_writes_a_server_chosen_path_reads_it_back_and_deletes_it() {
    let mut bench = Bench::new(test_options());
    assert!(bench
        .orch
        .screendump("/tmp/s.png")
        .err()
        .unwrap()
        .0
        .contains("capture a screendump"));

    bench.create(plain()).unwrap();
    let call = bench.orch.screendump("/tmp/s.png").unwrap();
    assert_eq!(call.command, "screendump");
    let args = call.args.unwrap();
    assert_eq!(get_string(&args, "filename").as_deref(), Some("/tmp/s.png"));
    assert_eq!(get_string(&args, "format").as_deref(), Some("png"));
    let shot = screendump_result(Ok(b"\x89PNG\r\n\x1a\nFAKE".to_vec())).unwrap();
    assert_eq!(shot.mime_type, "image/png");
    assert_eq!(shot.bytes, 12);
    assert_eq!(shot.data, base64_encode(b"\x89PNG\r\n\x1a\nFAKE"));
    assert!(screendump_result(Err("gone".to_string())).err().unwrap().0.contains("gone"));
}

#[test]
fn execute_command_allows_an_allowlisted_command_and_forwards_the_normalised_name() {
    let mut bench = autostart();
    bench.create(plain()).unwrap();
    let call = bench.orch.execute_command("  Query-Status  ", None).unwrap();
    assert_eq!(call.command, "query-status");
    let result = bench.send(call).unwrap();
    assert_eq!(get_string(&result, "status").as_deref(), Some("running"));
}

#[test]
fn execute_command_denies_a_default_denied_command_with_an_actionable_reason() {
    let mut bench = Bench::new(test_options());
    bench.create(plain()).unwrap();
    match bench.orch.execute_command("totally-made-up-command", None) {
        Err(ExecuteCommandError::Policy(err)) => {
            assert!(!err.hard_denied);
            assert!(err.message.contains("not in the Command Policy allowlist"));
        }
        _ => panic!("expected a policy denial"),
    }
}

#[test]
fn execute_command_hard_denies_even_with_no_instance_running_fail_closed() {
    let bench = Bench::new(test_options());
    match bench.orch.execute_command("human-monitor-command", None) {
        Err(ExecuteCommandError::Policy(err)) => {
            assert!(err.hard_denied);
            assert!(err.message.contains("hard denylist"));
        }
        _ => panic!("expected a hard policy denial"),
    }
    match bench.orch.execute_command("query-status", None) {
        Err(ExecuteCommandError::Lifecycle(err)) => assert!(err.0.contains("No Instance")),
        _ => panic!("expected a refusal without an Instance"),
    }
}

#[test]
fn execute_command_honours_an_injected_policy_override() {
    let policy = build_policy(&PolicyOverrides {
        allow: vec!["query-version".to_string()],
        deny: vec![],
    });
    let mut bench = Bench::new(test_options());
    bench.orch = Orchestrator::new(test_options(), Some(policy));
    bench.create(plain()).unwrap();
    let call = bench.orch.execute_command("query-version", None).unwrap();
    assert!(bench.send(call).unwrap().contains(r#""major":9"#));
}

#[test]
fn captures_events_and_get_events_pages_by_cursor() {
    let mut bench = running_with_events(None);
    bench.capture(synth_data("STOP", r#"{"reason":"pause"}"#));
    bench.capture(synth("RESET"));

    let read = bench.orch.get_events(None).unwrap();
    assert_eq!(event_names(&bench, None), ["STOP", "RESET"]);
    assert_eq!(read.events[0].data, Some(r#"{"reason":"pause"}"#.to_string()));
    assert_eq!(read.cursor, read.events.last().unwrap().seq);

    bench.capture(synth("SHUTDOWN"));
    assert_eq!(event_names(&bench, Some(read.cursor)), ["SHUTDOWN"]);
    assert_eq!(bench.orch.event_cursor(), 3);
}

#[test]
fn bounds_the_buffer_evicting_the_oldest_past_capacity() {
    let mut bench = running_with_events(Some(3));
    for name in ["e1", "e2", "e3", "e4", "e5"] {
        bench.capture(synth(name));
    }
    assert_eq!(event_names(&bench, None), ["e3", "e4", "e5"]);
}

#[test]
fn wait_for_event_resolves_on_a_matching_filtered_event() {
    let mut bench = running_with_events(None);
    let pending = waits(
        bench
            .orch
            .wait_for_event(Some("SHUTDOWN".to_string()), Some(1000), None),
    );
    assert!(bench.capture(synth("STOP")).woken.is_empty());
    let appended = bench.capture(synth_data("SHUTDOWN", r#"{"guest":true}"#));
    assert_eq!(appended.woken, vec![pending]);
    let result = WaitForEventResult::matched(&appended.event);
    assert!(!result.timed_out);
    let event = result.event.expect("a matching event");
    assert_eq!(event.event, "SHUTDOWN");
    assert_eq!(event.data, Some(r#"{"guest":true}"#.to_string()));
}

#[test]
fn wait_for_event_with_no_filter_resolves_on_any_event() {
    let mut bench = running_with_events(None);
    let pending = waits(bench.orch.wait_for_event(None, Some(1000), None));
    let appended = bench.capture(synth("POWERDOWN"));
    assert_eq!(appended.woken, vec![pending]);
    assert_eq!(appended.event.event, "POWERDOWN");
}

#[test]
fn wait_for_event_times_out_cleanly_when_no_match_arrives() {
    let mut bench = running_with_events(None);
    let pending = waits(
        bench
            .orch
            .wait_for_event(Some("SHUTDOWN".to_string()), Some(20), None),
    );
    assert!(bench.capture(synth("STOP")).woken.is_empty());
    let result = bench.orch.wait_expired(pending);
    assert!(result.timed_out);
    assert!(result.event.is_none());
}

#[test]
fn wait_for_event_is_race_safe_with_since_cursor() {
    let mut bench = running_with_events(None);
    bench.capture(synth("SHUTDOWN"));
    let outcome = bench
        .orch
        .wait_for_event(Some("SHUTDOWN".to_string()), Some(0), Some(0))
        .unwrap();
    match outcome {
        WaitOutcome::Settled(result) => {
            assert!(!result.timed_out);
            assert_eq!(result.event.unwrap().event, "SHUTDOWN");
        }
        WaitOutcome::Waiting(_) => panic!("the event has happened already"),
    }
}

#[test]
fn rejects_events_tools_actionably_when_no_instance_is_running() {
    let mut bench = Bench::new(test_options());
    let err = bench.orch.get_events(None).err().unwrap();
    assert!(err.0.contains("read its events"), "got: {}", err.0);
    assert!(err.0.contains("create_instance"), "got: {}", err.0);
    let Err(err) = bench.orch.wait_for_event(None, Some(0), None) else {
        panic!("wait_for_event must reject when no Instance is running");
    };
    assert!(err.0.contains("wait for its events"), "got: {}", err.0);
    assert!(err.0.contains("create_instance"), "got: {}", err.0);
}

#[test]
fn does_not_leak_events_across_instances() {
    let mut bench = running_with_events(None);
    let earlier = bench.orch.current_generation();
    bench.capture(synth("STOP"));
    assert_eq!(bench.orch.get_events(None).unwrap().events.len(), 1);

    bench.destroy().unwrap();
    assert!(bench.orch.capture_event(earlier, synth("RESET")).is_none());
    bench.create(plain()).unwrap();
    assert!(bench.orch.get_events(None).unwrap().events.is_empty());
    let cursor = bench.orch.event_cursor();
    let pending = waits(bench.orch.wait_for_event(None, Some(1000), None));
    assert!(bench.orch.capture_event(earlier, synth("RESET")).is_none());
    assert!(bench.orch.get_events(None).unwrap().events.is_empty());
    assert_eq!(bench.orch.event_cursor(), cursor);
    assert_eq!(bench.capture(synth("STOP")).woken, vec![pending]);
}

#[test]
fn settles_a_pending_wait_when_the_instance_is_destroyed() {
    let mut bench = running_with_events(None);
    let pending = waits(
        bench
            .orch
            .wait_for_event(Some("SHUTDOWN".to_string()), Some(5000), None),
    );
    let teardown = bench.orch.destroy_instance().unwrap();
    assert_eq!(teardown.settled, vec![pending]);
    let result = bench.orch.wait_expired(pending);
    assert!(result.timed_out);
}

#[test]
fn concurrent_create_calls_serialize_and_exactly_one_wins() {
    let mut bench = Bench::new(test_options());
    let attempts = 16;
    let mut wins = 0usize;
    let mut rejects = 0usize;
    for _ in 0..attempts {
        match bench.create(plain()) {
            Ok(published) => {
                assert_eq!(published.result.state, InstanceState::Paused);
                wins += 1;
            }
            Err(err) => {
                assert!(
                    err.0.contains("An Instance already exists"),
                    "unexpected error: {}",
                    err.0
                );
                rejects += 1;
            }
        }
    }
    assert_eq!(wins, 1, "exactly one create must win");
    assert_eq!(rejects, attempts - 1);
    assert_eq!(bench.launches.len(), 1);
    assert_eq!(bench.orch.state(), InstanceState::Paused);
}

#[test]
fn describe_recording_reports_availability_and_config() {
    let r = Bench::new(test_options()).orch.describe_recording(true);
    assert!(!r.available);
    assert!(!r.active);
    assert_eq!(r.codec, "libx264");
    assert_eq!(r.crf, 22);
    assert_eq!(r.max_fps, 15);
    assert_eq!(r.pixfmt, "yuv420p");
    assert!(r.reason.contains("QMP_MCP_FFMPEG_BINARY"));
    assert_eq!(r.output_dir, None);
    assert_eq!(r.active_path, None);

    let r = Bench::new(options_with_recording()).orch.describe_recording(true);
    assert!(r.available, "got reason: {}", r.reason);
    assert!(!r.active);
    assert_eq!(r.active_path, None);
    assert_eq!(
        r.output_dir.as_deref(),
        Some("/tmp/qmp-mcp-recordings-test")
    );

    let r = Bench::new(options_with_recording()).orch.describe_recording(false);
    assert!(!r.available);
    assert!(r.reason.contains("libx264"));
}

#[test]
fn start_recording_requires_a_running_instance_then_a_display_adapter() {
    let mut bench = Bench::new(options_with_recording());
    assert!(bench
        .orch
        .start_recording(None, stamp(), true)
        .err()
        .unwrap()
        .0
        .contains("start a display recording"));

    bench.create(plain()).unwrap();
    let err = bench.orch.start_recording(None, stamp(), true).err().unwrap();
    assert!(err.0.contains("no display adapter"), "got: {}", err.0);
    assert!(err.0.contains("displayDevice"), "got: {}", err.0);
}

#[test]
fn start_recording_fails_closed_when_capability_unavailable() {
    let mut bench = Bench::new(test_options());
    bench.create(with_adapter()).unwrap();
    let err = bench.orch.start_recording(None, stamp(), true).err().unwrap();
    assert!(err.0.contains("QMP_MCP_FFMPEG_BINARY"), "got: {}", err.0);
    assert!(!bench.orch.describe_recording(true).active);
}

#[test]
fn start_recording_surfaces_an_immediate_ffmpeg_exit() {
    let mut bench = Bench::new(options_with_recording());
    bench.create(with_adapter()).unwrap();
    let plan = bench
        .orch
        .start_recording(Some("dead"), stamp(), true)
        .unwrap();
    let err = bench.orch.encoder_exited(&plan.ffmpeg, "exit status: 1", "");
    assert!(err.0.contains("exited immediately"), "got: {}", err.0);
    assert!(!bench.orch.describe_recording(true).active);
}

#[test]
fn a_recording_runs_until_it_is_stopped() {
    let mut bench = Bench::new(options_with_recording());
    bench.create(with_adapter()).unwrap();
    assert!(bench.orch.stop_recording().is_err());
    let plan = bench
        .orch
        .start_recording(Some("run1"), stamp(), true)
        .unwrap();
    assert_eq!(plan.recording.path, "/tmp/qmp-mcp-recordings-test/run1.mkv");
    assert_eq!(plan.recording.name, "run1.mkv");
    assert_eq!(plan.interval_ms, 66);
    bench.orch.recording_started(plan.recording);
    assert!(bench.orch.describe_recording(true).active);
    let again = bench.orch.start_recording(None, stamp(), true).err().unwrap();
    assert!(again.0.contains("already running"));
    let stopped = StopRecordingResult::of(bench.orch.stop_recording().unwrap(), 4096, 1234);
    assert_eq!(stopped.path, "/tmp/qmp-mcp-recordings-test/run1.mkv");
    assert_eq!(stopped.codec, "libx264");
    assert_eq!(stopped.size_bytes, 4096);
    assert_eq!(stopped.duration_ms, 1234);
    assert!(!bench.orch.describe_recording(true).active);
}

#[test]
fn a_destroy_ends_the_recording_and_reports_a_failed_close() {
    let mut bench = Bench::new(options_with_recording());
    bench.create(with_adapter()).unwrap();
    let plan = bench.orch.start_recording(None, stamp(), true).unwrap();
    bench.orch.recording_started(plan.recording);
    let teardown = bench.orch.destroy_instance().unwrap();
    assert!(teardown.recording.is_some());
    assert_eq!(
        teardown.steps(),
        vec![
            TeardownStep::FinalizeRecording,
            TeardownStep::StopEvents,
            TeardownStep::SettleWaits,
            TeardownStep::Close,
        ]
    );
    let err = bench
        .orch
        .torn_down(Err(DriverError("no answer".to_string())))
        .unwrap_err();
    assert_eq!(err.0, "Failed to destroy the Instance: no answer");
    assert_eq!(bench.orch.state(), InstanceState::NoInstance);
}

#[test]
fn a_create_that_fails_leaves_nothing_to_clean_but_what_was_made() {
    let mut options = test_options();
    options.serial_backend = SerialBackend::Socket;
    let mut bench = Bench::new(options);
    let plan = bench.plan(with_serial()).unwrap();
    let path = plan.serial_socket.unwrap();
    let occupied = bench.orch.create_failed(CreateFailure::SocketOccupied { path });
    assert!(occupied.error.0.contains("already occupied"));
    assert!(!occupied.close && !occupied.remove_socket);

    bench.plan(with_serial()).unwrap();
    let bridge = bench
        .orch
        .create_failed(CreateFailure::Bridge(LifecycleError("no bridge".to_string())));
    assert_eq!(bridge.error.0, "no bridge");
    assert!(bridge.close && bridge.remove_socket && !bridge.detach);

    bench.plan(plain()).unwrap();
    let spool = bench.orch.create_failed(CreateFailure::SpoolDirectory {
        dir: "/log".to_string(),
        why: "denied".to_string(),
    });
    assert_eq!(
        spool.error.0,
        "Failed to create the Serial Port spool directory /log: denied"
    );
}

#[test]
fn a_serial_socket_is_drained_and_written_to() {
    let mut options = test_options();
    options.serial_backend = SerialBackend::Socket;
    options.allow_serial_write = true;
    let mut bench = Bench::new(options);
    bench.create(with_serial()).unwrap();
    match bench.orch.read_serial(Some(16), SerialFormat::Utf8).unwrap() {
        SerialRead::Drain { size } => assert_eq!(size, 16),
        _ => panic!("the socket is drained"),
    }
    match bench.orch.write_serial("Aw==", SerialFormat::Base64).unwrap() {
        SerialWrite::Socket(bytes) => assert_eq!(bytes, vec![3]),
        SerialWrite::Command { .. } => panic!("the socket is written to"),
    }
}

#[test]
fn directories_and_encoders_fail_by_name() {
    let said = |which| directory_failed(which, "/d", "denied").0;
    for which in [
        WorkDirectory::Screendump,
        WorkDirectory::RecordingOutput,
        WorkDirectory::RecordingFrame,
    ] {
        let m = said(which);
        assert!(m.contains("/d") && m.ends_with("denied"), "{m}");
    }
    assert!(encoder_not_started("/bin/x", "not found").0.contains("/bin/x"));
}

#[test]
fn lifecycle_round_trips_through_the_tool_surface() {
    let mut bench = Bench::new(test_options());
    assert_eq!(InstanceReport::of(&bench.orch.get_instance()).state, "NONE");
    assert!(bench.status().is_err());

    let created = CreateInstanceReport::of(bench.create(plain()).unwrap().result);
    assert_eq!(created.state, "PAUSED");
    assert_eq!(created.accel, "tcg");
    assert_eq!(created.spec.machine, "q35");
    assert_eq!(created.spec.memory_mb, 256);

    let view = InstanceReport::of(&bench.orch.get_instance());
    assert_eq!(view.state, "PAUSED");
    assert!(view.spec.is_some());
    let status = bench.status().unwrap();
    assert_eq!(get_string(&status, "status").as_deref(), Some("paused"));

    assert!(bench.create(plain()).is_err());

    bench.destroy().unwrap();
    assert_eq!(InstanceReport::destroyed().state, "NONE");
    assert_eq!(InstanceReport::of(&bench.orch.get_instance()).state, "NONE");
}

#[test]
fn curated_qmp_tools_round_trip_through_the_tool_surface() {
    let mut bench = Bench::new(test_options());
    assert!(bench.orch.pause_instance().is_err());
    assert!(bench.orch.query_block().is_err());
    assert!(bench.orch.screendump("/tmp/s.png").is_err());

    bench.create(plain()).unwrap();

    let call = bench.orch.pause_instance().unwrap();
    let reply = bench.send(call);
    assert_eq!(StateReport::of(bench.orch.paused(reply).unwrap()).state, "PAUSED");
    let call = bench.orch.resume_instance().unwrap();
    let reply = bench.send(call);
    assert_eq!(StateReport::of(bench.orch.resumed(reply).unwrap()).state, "RUNNING");
    let call = bench.orch.reset_instance().unwrap();
    let reply = bench.send(call);
    assert_eq!(StateReport::of(bench.orch.unchanged(reply).unwrap()).state, "RUNNING");
    let call = bench.orch.powerdown_instance().unwrap();
    let reply = bench.send(call);
    assert_eq!(StateReport::of(bench.orch.unchanged(reply).unwrap()).state, "RUNNING");

    let call = bench.orch.query_block().unwrap();
    let block: serde_json::Value =
        serde_json::from_str(&relay(bench.send(call)).unwrap()).unwrap();
    assert_eq!(block[0]["device"], "virtio0");
    let call = bench.orch.query_cpus().unwrap();
    let cpus: serde_json::Value =
        serde_json::from_str(&relay(bench.send(call)).unwrap()).unwrap();
    assert_eq!(cpus[0]["cpu-index"], 0);

    // The answer is the image itself, not the path that it was captured to.
    let call = bench.orch.screendump("/tmp/s.png").unwrap();
    bench.send(call).unwrap();
    let shot = screendump_result(Ok(b"fake-png".to_vec())).unwrap();
    assert_eq!(shot.mime_type, "image/png");
    assert_eq!(shot.data, base64_encode(b"fake-png"));
    assert_eq!(shot.bytes, 8);
    assert_eq!(
        bench.commands,
        [
            "stop",
            "cont",
            "system_reset",
            "system_powerdown",
            "query-block",
            "query-cpus-fast",
            "screendump"
        ]
    );
}

#[test]
fn a_refused_pause_leaves_the_state_as_it_is() {
    let mut bench = Bench::new(test_options());
    bench.create(plain()).unwrap();
    bench.orch.resumed(Ok("{}".to_string())).unwrap();
    let failed = bench
        .orch
        .paused(Err(DriverError("QMP connection closed.".to_string())));
    assert_eq!(failed.unwrap_err().0, "QMP connection closed.");
    assert_eq!(bench.orch.state(), InstanceState::Running);
}

#[test]
fn qmp_execute_allows_allowlisted_and_denies_hard_denied_through_the_surface() {
    let mut bench = Bench::new(test_options());
    bench.create(plain()).unwrap();

    let call = bench.orch.execute_command("query-status", None).unwrap();
    let ok = bench.send(call).unwrap();
    assert_eq!(get_string(&ok, "status").as_deref(), Some("paused"));

    let refused = |command: &str, args: Option<&str>| {
        match bench.orch.execute_command(command, args.map(String::from)) {
            Err(ExecuteCommandError::Policy(err)) => err.message,
            _ => panic!("{command} must be refused"),
        }
    };
    assert!(refused("migrate", None).contains("hard denylist"));
    assert!(refused("screendump", Some(r#"{"filename":"/etc/shadow"}"#))
        .contains("not in the Command Policy allowlist"));
}

fn wait_params(name: Option<&str>, timeout_ms: u64, since: Option<u64>) -> WaitForEventParams {
    WaitForEventParams {
        event_name: name.map(String::from),
        timeout_ms,
        since_cursor: since,
    }
}

#[test]
fn event_tools_round_trip_through_the_tool_surface() {
    let mut bench = Bench::new(test_options());
    let err = bench.orch.get_events(None).err().unwrap();
    assert!(err.0.contains("read its events"), "got: {}", err.0);
    assert!(wait_for_event(&mut bench.orch, wait_params(None, 0, None)).is_err());
    assert!(wait_for_event(&mut bench.orch, wait_params(Some(""), 0, None)).is_err());
    let late = wait_params(None, MAX_WAIT_TIMEOUT_MS + 1, None);
    assert!(check_wait(&late).is_err());
    assert!(wait_for_event(&mut bench.orch, late).is_err());

    bench.create(plain()).unwrap();
    bench.capture(synth_data("SHUTDOWN", r#"{"guest":true}"#));

    let waited = wait_for_event(&mut bench.orch, wait_params(Some("SHUTDOWN"), 1_000, Some(0)));
    match waited.unwrap() {
        WaitOutcome::Settled(result) => {
            assert!(!result.timed_out);
            let event = result.event.expect("a matching event");
            assert_eq!(event.event, "SHUTDOWN");
            assert_eq!(event.data, Some(r#"{"guest":true}"#.to_string()));
        }
        WaitOutcome::Waiting(_) => panic!("the event has happened already"),
    }

    let read = bench.orch.get_events(None).unwrap();
    assert_eq!(read.events.len(), 1);
    assert_eq!(read.events[0].event, "SHUTDOWN");
    assert!(bench.orch.get_events(Some(read.cursor)).unwrap().events.is_empty());
    assert_eq!(default_wait_timeout_ms(), 30_000);
}

#[test]
fn the_options_follow_the_configuration() {
    let mut env = EnvMap::new();
    env.insert("QMP_MCP_MAX_VCPUS".to_string(), "3".to_string());
    env.insert("QMP_MCP_EVENT_BUFFER_SIZE".to_string(), "9".to_string());
    let config = load_config(&env).unwrap();
    let socket = default_qmp_socket_path("/tmp");
    assert!(socket.starts_with("/tmp/") && socket.ends_with("qmp.sock"), "{socket}");
    let options = orchestrator_options(&config, "x86_64", &socket);
    assert_eq!(options.max_vcpus, Some(3));
    assert_eq!(options.event_buffer_size, Some(9));
    assert_eq!(options.host_arch, "x86_64");
    assert_eq!(options.qmp_socket_path, socket);
}

/// The failure that a create is given up with.
fn given_up(action: CreateAction) -> CreateFailure {
    match action {
        CreateAction::Fail(failure) => failure,
        _ => panic!("the create goes on"),
    }
}

#[test]
fn a_plain_create_is_launched_and_published() {
    let mut bench = Bench::new(test_options());
    let plan = bench.plan(plain()).unwrap();
    let argv = plan.request.argv.clone();
    let mut creation = Creation::new(plan);
    match creation.advance(CreateEvent::Begun) {
        CreateAction::Launch(request) => assert_eq!(request.argv, argv),
        _ => panic!("the emulator is launched first"),
    }
    assert!(matches!(creation.advance(CreateEvent::Launched), CreateAction::Publish));
}

#[test]
fn a_create_with_a_serial_socket_and_a_display_takes_every_step() {
    let mut options = test_options();
    options.serial_backend = SerialBackend::Socket;
    options.viewer_password = Some("view-secret".to_string());
    let mut bench = Bench::new(options);
    let plan = bench
        .plan(HardwareSpecParams {
            serial: true,
            ..vnc()
        })
        .unwrap();
    let mut creation = Creation::new(plan);
    let inspect = creation.advance(CreateEvent::Begun);
    assert!(matches!(inspect, CreateAction::InspectSocket { .. }));
    let launch = creation.advance(CreateEvent::SocketFree);
    assert!(matches!(launch, CreateAction::Launch(_)));
    match creation.advance(CreateEvent::Launched) {
        CreateAction::AttachBridge { path } => {
            assert_eq!(Some(path), creation.plan.serial_socket);
        }
        _ => panic!("the serial socket is dialled"),
    }
    let arm = creation.advance(CreateEvent::BridgeAttached);
    assert!(matches!(arm, CreateAction::ArmDisplay));
    let publish = creation.advance(CreateEvent::DisplayArmed);
    assert!(matches!(publish, CreateAction::Publish));
}

#[test]
fn a_create_is_given_up_with_the_step_that_failed() {
    let mut options = test_options();
    options.serial_backend = SerialBackend::Spool;
    options.serial_spool_dir = Some("/log".to_string());
    let mut bench = Bench::new(options);
    let mut creation = Creation::new(bench.plan(with_serial()).unwrap());
    match creation.advance(CreateEvent::Begun) {
        CreateAction::MakeSpoolDirectory { path } => assert_eq!(path, "/log/serial.log"),
        _ => panic!("the directory is made first"),
    }
    let failed = creation.advance(CreateEvent::SpoolFailed {
        dir: "/log".to_string(),
        why: "denied".to_string(),
    });
    let failure = given_up(failed);
    assert!(matches!(failure, CreateFailure::SpoolDirectory { .. }));
    let refusal = bench.orch.create_failed(failure);
    assert!(refusal.error.0.ends_with("/log: denied"));

    let mut creation = Creation::new(bench.plan(plain()).unwrap());
    creation.advance(CreateEvent::Begun);
    let failed = creation.advance(CreateEvent::LaunchFailed(DriverError("no".to_string())));
    assert_eq!(given_up(failed), CreateFailure::Launch(DriverError("no".to_string())));
}

#[test]
fn a_share_is_refused_where_none_is_configured() {
    let shared = || HardwareSpecParams {
        share: true,
        ..plain()
    };
    for unset in [None, Some("  ".to_string())] {
        let mut options = test_options();
        options.host_share_dir = unset;
        let mut bench = Bench::new(options);
        let err = bench.create(shared()).unwrap_err();
        assert!(err.0.contains("QMP_MCP_HOST_SHARE_DIR"), "got: {}", err.0);
        assert_eq!(bench.orch.state(), InstanceState::NoInstance);
        assert!(bench.create(plain()).is_ok());
    }
    let mut options = test_options();
    options.host_share_dir = Some("/srv/share".to_string());
    let mut bench = Bench::new(options);
    assert!(bench.create(shared()).is_ok());
    assert!(bench.orch.get_instance().spec.unwrap().share);
    assert!(bench.orch.describe_share().available);
}
