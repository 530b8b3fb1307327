//! What the tools take and report, and how the orchestrator is set up from the configuration.

use vstd::prelude::*;

use crate::config;
use crate::config::Config;
use crate::instance::event_buffer::WaitOutcome;
use crate::instance::hardware_spec::{AccelMode, DisplayMode, HardwareSpec};
use crate::instance::image_store::ImageFormat;
use crate::instance::orchestrator;
use crate::instance::orchestrator::{
    CreateInstanceResult, InstanceState, InstanceView, LifecycleError, Orchestrator,
    OrchestratorModel, OrchestratorOptions,
};
use crate::instance::serial::SerialBackend;
use crate::text;

verus! {

// ---------------------------------------------------------------------------
// Reports
// ---------------------------------------------------------------------------

/// A summary of a validated Hardware Spec.
#[derive(Debug, Clone, PartialEq, Eq)]
pub struct SpecSummary {
    /// QEMU machine type.
    pub machine: String,
    /// CPU model.
    pub cpu: String,
    /// Number of virtual CPUs.
    pub vcpus: u32,
    /// Guest RAM in MiB.
    pub memory_mb: u32,
    /// The requested accelerator mode.
    pub accel: AccelMode,
    /// Guest Display mode.
    pub display: DisplayMode,
    /// Number of guest disks.
    pub disks: usize,
    /// Whether a CD-ROM is attached.
    pub cdrom: bool,
}

impl SpecSummary {
    /// The summary says what a spec says.
    pub open spec fn sums_up(self, spec: HardwareSpec) -> bool {
        &&& self.machine@ == spec.machine@
        &&& self.cpu@ == spec.cpu@
        &&& self.vcpus == spec.vcpus
        &&& self.memory_mb == spec.memory_mb
        &&& self.accel == spec.accel
        &&& self.display == spec.display
        &&& self.disks == spec.disks@.len()
        &&& self.cdrom == (spec.cdrom is Some)
    }

    /// The summary of a spec.
    pub fn of(spec: &HardwareSpec) -> (r: SpecSummary)
        ensures
            r.sums_up(*spec),
    {
        SpecSummary {
            machine: spec.machine.as_str().to_string(),
            cpu: spec.cpu.as_str().to_string(),
            vcpus: spec.vcpus,
            memory_mb: spec.memory_mb,
            accel: spec.accel,
            display: spec.display,
            disks: spec.disks.len(),
            cdrom: spec.cdrom.is_some(),
        }
    }
}

/// What is reported of an Instance that was created.
#[derive(Debug, Clone, PartialEq, Eq)]
pub struct CreateInstanceReport {
    /// The lifecycle state.
    pub state: String,
    /// The accelerator that was chosen.
    pub accel: String,
    /// Why it was chosen.
    pub accel_reason: String,
    /// A summary of the spec.
    pub spec: SpecSummary,
}

impl CreateInstanceReport {
    /// The report on a created Instance.
    pub fn of(result: CreateInstanceResult) -> (r: CreateInstanceReport)
        ensures
            r.state@ == result.state.name(),
            r.accel@ == result.accel.name(),
            r.accel_reason == result.accel_reason,
            r.spec.sums_up(result.spec),
    {
        CreateInstanceReport {
            state: result.state.as_str().to_string(),
            accel: result.accel.as_str().to_string(),
            spec: SpecSummary::of(&result.spec),
            accel_reason: result.accel_reason,
        }
    }
}

/// What is reported of the current Instance.
#[derive(Debug, Clone, PartialEq, Eq)]
pub struct InstanceReport {
    /// The lifecycle state.
    pub state: String,
    /// A summary of its spec, when an Instance exists.
    pub spec: Option<SpecSummary>,
    /// Its accelerator, when an Instance exists.
    pub accel: Option<String>,
}

impl InstanceReport {
    /// The report on the current Instance.
    pub fn of(view: &InstanceView) -> (r: InstanceReport)
        ensures
            r.state@ == view.state.name(),
            match view.spec {
                Some(s) => r.spec matches Some(x) && x.sums_up(s),
                None => r.spec is None,
            },
            match view.accel {
                Some(a) => r.accel matches Some(x) && x@ == a.name(),
                None => r.accel is None,
            },
    {
        let spec = match &view.spec {
            Some(s) => Some(SpecSummary::of(s)),
            None => None,
        };
        let accel = match view.accel {
            Some(a) => Some(a.as_str().to_string()),
            None => None,
        };
        InstanceReport { state: view.state.as_str().to_string(), spec, accel }
    }

    /// The report once an Instance was destroyed.
    pub fn destroyed() -> (r: InstanceReport)
        ensures
            r.state@ == "NONE"@,
            r.spec is None,
            r.accel is None,
    {
        InstanceReport {
            state: InstanceState::NoInstance.as_str().to_string(),
            spec: None,
            accel: None,
        }
    }
}

/// The lifecycle state after a power command.
#[derive(Debug, Clone, PartialEq, Eq)]
pub struct StateReport {
    /// The lifecycle state.
    pub state: String,
}

impl StateReport {
    /// The report on a state.
    pub fn of(state: InstanceState) -> (r: StateReport)
        ensures
            r.state@ == state.name(),
    {
        StateReport { state: state.as_str().to_string() }
    }
}

/// The reply to `query-status`, as JSON text.
#[derive(Debug, Clone, PartialEq, Eq)]
pub struct StatusReport {
    /// The reply.
    pub run_state: String,
}

/// The reply to `query-block`, as JSON text.
#[derive(Debug, Clone, PartialEq, Eq)]
pub struct BlockDevicesReport {
    /// The reply.
    pub block_devices: String,
}

/// The reply to `query-cpus-fast`, as JSON text.
#[derive(Debug, Clone, PartialEq, Eq)]
pub struct CpusReport {
    /// The reply.
    pub cpus: String,
}

/// The reply to a generic command, as JSON text.
#[derive(Debug, Clone, PartialEq, Eq)]
pub struct QmpExecuteReport {
    /// The reply.
    pub result: String,
}

// ---------------------------------------------------------------------------
// Parameters
// ---------------------------------------------------------------------------

/// The longest that a single long-poll may wait, in milliseconds.
pub const MAX_WAIT_TIMEOUT_MS: u64 = 600_000;

/// How long a long-poll waits unless it says otherwise, in milliseconds.
pub fn default_wait_timeout_ms() -> (r: u64)
    ensures
        r == 30_000,
{
    30_000
}

/// What `qmp_execute` takes.
#[derive(Debug, Clone, PartialEq, Eq)]
pub struct QmpExecuteParams {
    /// The command.
    pub command: String,
    /// Its arguments as JSON text, if any.
    pub arguments: Option<String>,
}

/// What `get_events` takes.
#[derive(Debug, Clone, Copy, PartialEq, Eq, Structural)]
pub struct GetEventsParams {
    /// The cursor to page from, if any.
    pub since: Option<u64>,
}

/// What `wait_for_event` takes.
#[derive(Debug, Clone, PartialEq, Eq)]
pub struct WaitForEventParams {
    /// The event to wait for; any where there is none.
    pub event_name: Option<String>,
    /// How long to wait, in milliseconds.
    pub timeout_ms: u64,
    /// Also consider events already buffered after this cursor.
    pub since_cursor: Option<u64>,
}

/// What `create_image` takes.
#[derive(Debug, Clone, PartialEq, Eq)]
pub struct CreateImageParams {
    /// Bare name of the new image.
    pub name: String,
    /// Virtual size in GiB.
    pub size_gb: i64,
    /// Image format.
    pub format: ImageFormat,
}

/// Why a long-poll is refused before it reaches the Instance, if it is.
pub open spec fn wait_problem(params: WaitForEventParams) -> Option<Seq<char>> {
    if params.event_name matches Some(n) && n@.len() == 0 {
        Some(
            "eventName, when provided, must be a non-empty QMP event name (e.g. \"SHUTDOWN\"); omit it to wait for the next event of any kind."@,
        )
    } else if params.timeout_ms > MAX_WAIT_TIMEOUT_MS {
        Some(
            "timeoutMs must be between 0 and "@ + text::decimal(MAX_WAIT_TIMEOUT_MS as nat)
                + " (got "@ + text::decimal(params.timeout_ms as nat)
                + "). Use a smaller timeout, or poll repeatedly with get_events."@,
        )
    } else {
        None
    }
}

/// Check what a long-poll takes: an event name must not be empty, and the timeout is capped.
pub fn check_wait(params: &WaitForEventParams) -> (r: Result<(), LifecycleError>)
    ensures
        match r {
            Ok(_) => wait_problem(*params) is None,
            Err(e) => wait_problem(*params) == Some(e.0@),
        },
{
    let empty = match &params.event_name {
        Some(n) => n.as_str().is_empty(),
        None => false,
    };
    if empty {
        return Err(
            LifecycleError(
                "eventName, when provided, must be a non-empty QMP event name (e.g. \"SHUTDOWN\"); omit it to wait for the next event of any kind.".to_string(),
            ),
        );
    }
    if params.timeout_ms > MAX_WAIT_TIMEOUT_MS {
        let cap = text::decimal_u64(MAX_WAIT_TIMEOUT_MS);
        let got = text::decimal_u64(params.timeout_ms);
        return Err(
            LifecycleError(
                text::cat5(
                    "timeoutMs must be between 0 and ",
                    cap.as_str(),
                    " (got ",
                    got.as_str(),
                    "). Use a smaller timeout, or poll repeatedly with get_events.",
                ),
            ),
        );
    }
    Ok(())
}

/// Issue a long-poll: its parameters are checked first, then an Instance is required.
pub fn wait_for_event(orch: &mut Orchestrator, params: WaitForEventParams) -> (r: Result<
    WaitOutcome,
    LifecycleError,
>)
    requires
        old(orch)@.valid(),
    ensures
        final(orch)@.valid(),
        final(orch)@ == (OrchestratorModel { buffer: final(orch)@.buffer, ..old(orch)@ }),
        match wait_problem(params) {
            Some(m) => r matches Err(e) && e.0@ == m && final(orch)@ == old(orch)@,
            None => if !old(orch)@.attached {
                r matches Err(e) && e.0@ == orchestrator::no_instance("wait for its events"@)
                    && final(orch)@ == old(orch)@
            } else {
                let before = old(orch)@.buffer;
                let after = final(orch)@.buffer;
                let name = text::string_of(params.event_name);
                match before.replay(name, params.since_cursor) {
                    Some(e) => r matches Ok(WaitOutcome::Settled(x)) && x.answers(e) && after
                        == before,
                    None => if params.timeout_ms == 0 {
                        r matches Ok(WaitOutcome::Settled(x)) && x.expired(before.cursor) && after
                            == before
                    } else {
                        r matches Ok(WaitOutcome::Waiting(id)) && id == before.next_waiter && after
                            == before.waiting(name)
                    },
                }
            },
        },
{
    match check_wait(&params) {
        Ok(()) => {},
        Err(e) => return Err(e),
    }
    orch.wait_for_event(params.event_name, Some(params.timeout_ms), params.since_cursor)
}

// ---------------------------------------------------------------------------
// Set-up
// ---------------------------------------------------------------------------

/// The path of the server's own QMP socket, under the directory for temporary files.
pub fn default_qmp_socket_path(temp_dir: &str) -> (r: String)
    ensures
        r@ == config::path_join(config::path_join(temp_dir@, "qmp-mcp"@), "qmp.sock"@),
{
    let dir = config::join(temp_dir, "qmp-mcp");
    config::join(dir.as_str(), "qmp.sock")
}

/// The options of the orchestrator for a configuration, on a host of an architecture and with
/// a QMP socket. What the configuration does not set is at its default: nothing is shared,
/// the Serial Port goes through the ring buffer and cannot be written to, and recording has
/// neither an encoder nor a directory.
pub fn orchestrator_options(config: &Config, host_arch: &str, qmp_socket_path: &str) -> (r:
    OrchestratorOptions)
    ensures
        r.qemu_binary_override == config.qemu_binary_override,
        r.host_arch@ == host_arch@,
        r.qmp_socket_path@ == qmp_socket_path@,
        r.image_dir == Some(config.image_dir),
        r.iso_dir == Some(config.iso_dir),
        r.host_share_dir is None,
        r.guest_share_dir is None,
        r.share_readonly is None,
        r.serial_buffer_bytes == 1_048_576,
        !r.allow_serial_write,
        r.serial_backend == SerialBackend::Ringbuf,
        r.serial_spool_dir is None,
        r.ffmpeg_binary is None,
        r.recording_dir is None,
        r.recording_codec@ == "libx264"@,
        r.recording_crf == 22,
        r.recording_max_fps == 15,
        r.recording_pixfmt@ == "yuv420p"@,
        r.hostfwd_port_range == Some(config.hostfwd_port_range),
        r.allow_host_net == config.allow_host_net,
        r.auto_start == config.auto_start,
        r.max_memory_mb == Some(config.max_memory_mb),
        r.max_vcpus == Some(config.max_vcpus),
        r.allow_raw_args == config.allow_raw_args,
        r.event_buffer_size == Some(config.event_buffer_size),
        r.viewer_password == config.viewer_password,
        r.viewer_user is None,
        r.viewer_host == config.viewer_host,
        r.viewer_port == config.viewer_port,
{
    OrchestratorOptions {
        qemu_binary_override: text::clone_option(&config.qemu_binary_override),
        host_arch: host_arch.to_string(),
        qmp_socket_path: qmp_socket_path.to_string(),
        image_dir: Some(config.image_dir.clone()),
        iso_dir: Some(config.iso_dir.clone()),
        host_share_dir: None,
        guest_share_dir: None,
        share_readonly: None,
        serial_buffer_bytes: 1_048_576,
        allow_serial_write: false,
        serial_backend: SerialBackend::Ringbuf,
        serial_spool_dir: None,
        ffmpeg_binary: None,
        recording_dir: None,
        recording_codec: "libx264".to_string(),
        recording_crf: 22,
        recording_max_fps: 15,
        recording_pixfmt: "yuv420p".to_string(),
        hostfwd_port_range: Some(config.hostfwd_port_range),
        allow_host_net: config.allow_host_net,
        auto_start: config.auto_start,
        max_memory_mb: Some(config.max_memory_mb),
        max_vcpus: Some(config.max_vcpus),
        allow_raw_args: config.allow_raw_args,
        event_buffer_size: Some(config.event_buffer_size),
        viewer_password: text::clone_option(&config.viewer_password),
        viewer_user: None,
        viewer_host: config.viewer_host.clone(),
        viewer_port: config.viewer_port,
    }
}

/// No accepted long-poll can wait longer than the cap.
pub proof fn waits_are_capped(params: WaitForEventParams)
    requires
        wait_problem(params) is None,
    ensures
        params.timeout_ms <= MAX_WAIT_TIMEOUT_MS,
{
}

/// A summary has the machine, the CPU, the sizes and the modes of its spec, the number of all its
/// disks, and whether it has a CD-ROM.
pub proof fn summaries_say_what_specs_say(s: SpecSummary, spec: HardwareSpec)
    ensures
        s.sums_up(spec) <==> s.machine@ == spec.machine@ && s.cpu@ == spec.cpu@ && s.vcpus
            == spec.vcpus && s.memory_mb == spec.memory_mb && s.accel == spec.accel && s.display
            == spec.display && s.disks == spec.disks@.len() && (s.cdrom <==> spec.cdrom is Some),
{
}

/// A long-poll is accepted exactly where its event name, if it has one, is not empty and its
/// timeout is at most ten minutes. A refusal for the timeout says what was asked for.
pub proof fn waits_are_accepted_by_their_bounds(params: WaitForEventParams)
    ensures
        wait_problem(params) is None <==> (params.event_name matches Some(n) ==> n@.len() > 0)
            && params.timeout_ms <= 600_000,
        (params.event_name matches Some(n) ==> n@.len() > 0) && params.timeout_ms > 600_000
            ==> wait_problem(params) == Some(
            "timeoutMs must be between 0 and "@ + text::decimal(600_000) + " (got "@
                + text::decimal(params.timeout_ms as nat)
                + "). Use a smaller timeout, or poll repeatedly with get_events."@,
        ),
        (params.event_name matches Some(n) && n@.len() == 0) ==> wait_problem(params) == Some(
            "eventName, when provided, must be a non-empty QMP event name (e.g. \"SHUTDOWN\"); omit it to wait for the next event of any kind."@,
        ),
{
}

} // verus!
