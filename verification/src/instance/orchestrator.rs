//! The single-instance lifecycle. At most one Instance exists; it moves through
//!
//! NONE → STARTING → RUNNING ⇄ PAUSED → STOPPED → NONE
//!
//! Each operation says what is to be done to QEMU and, given how that went, what the state is
//! afterwards and what is reported.

use vstd::prelude::*;

use crate::config::PortRange;
use crate::instance::accel;
use crate::instance::accel::AccelResolution;
use crate::instance::argv;
use crate::instance::argv::{ArgvOptions, Stores};
use crate::instance::base64;
use crate::instance::event_buffer;
use crate::instance::event_buffer::{
    Appended, BufferModel, EventBuffer, ReadResult, WaitForEventOptions, WaitForEventResult,
    WaitOutcome,
};
use crate::instance::hardware_spec;
use crate::instance::hardware_spec::{
    Accel, DisplayDevice, DisplayMode, HardwareSpec, HardwareSpecParams,
};
use crate::instance::recording;
use crate::instance::recording::Stamp;
use crate::instance::serial;
use crate::instance::serial::{SerialBackend, SerialFormat};
use crate::instance::vnc;
use crate::instance::vnc::ViewerOptions;
use crate::policy;
use crate::policy::{CommandPolicyError, CommandVerdict, ResolvedPolicy};
use crate::qemu::driver::{DriverError, LaunchRequest};
use crate::qemu::json;
use crate::qemu::qmp_client::{QmpEvent, QmpEventText};
use crate::text;

verus! {

/// The mount tag of the shared folder.
pub const SHARE_MOUNT_TAG: &'static str = "share";

/// How long a long-poll waits when no timeout is given, in milliseconds.
pub const DEFAULT_WAIT_TIMEOUT: u64 = 30_000;

// ---------------------------------------------------------------------------
// States, options and reports
// ---------------------------------------------------------------------------

/// The lifecycle states of an Instance.
#[derive(Debug, Clone, Copy, PartialEq, Eq, Structural)]
pub enum InstanceState {
    /// No Instance exists.
    NoInstance,
    /// A create is in flight.
    Starting,
    /// An Instance exists and its Guest CPUs run.
    Running,
    /// An Instance exists and its Guest CPUs are paused.
    Paused,
    /// An Instance is being torn down.
    Stopped,
}

impl InstanceState {
    /// The name of the state.
    pub open spec fn name(self) -> Seq<char> {
        match self {
            InstanceState::NoInstance => "NONE"@,
            InstanceState::Starting => "STARTING"@,
            InstanceState::Running => "RUNNING"@,
            InstanceState::Paused => "PAUSED"@,
            InstanceState::Stopped => "STOPPED"@,
        }
    }

    /// The name of the state.
    pub fn as_str(self) -> (r: &'static str)
        ensures
            r@ == self.name(),
    {
        match self {
            InstanceState::NoInstance => "NONE",
            InstanceState::Starting => "STARTING",
            InstanceState::Running => "RUNNING",
            InstanceState::Paused => "PAUSED",
            InstanceState::Stopped => "STOPPED",
        }
    }
}

/// Raised for lifecycle violations and for any failure to create an Instance.
#[derive(Debug, Clone, PartialEq, Eq)]
pub struct LifecycleError(pub String);

/// Why a generic command did not run.
#[derive(Debug, Clone, PartialEq, Eq)]
pub enum ExecuteCommandError {
    /// The Command Policy refused it.
    Policy(CommandPolicyError),
    /// No Instance is running, or QEMU refused it.
    Lifecycle(LifecycleError),
}

/// A read-only view of the current Instance.
#[derive(Debug)]
pub struct InstanceView {
    /// The lifecycle state.
    pub state: InstanceState,
    /// The validated Hardware Spec, when an Instance exists.
    pub spec: Option<HardwareSpec>,
    /// The accelerator that the Instance was launched with.
    pub accel: Option<Accel>,
}

/// What the orchestrator is configured with.
#[derive(Debug)]
pub struct OrchestratorOptions {
    /// Explicit `qemu-system-*` binary, or `None` to derive it from each spec's machine.
    pub qemu_binary_override: Option<String>,
    /// This host's architecture in QEMU's naming.
    pub host_arch: String,
    /// Path of the server-managed QMP socket.
    pub qmp_socket_path: String,
    /// The Image Store directory.
    pub image_dir: Option<String>,
    /// The ISO Store directory.
    pub iso_dir: Option<String>,
    /// Host directory that is shared into the guest, if any.
    pub host_share_dir: Option<String>,
    /// The mountpoint intended for it in the guest.
    pub guest_share_dir: Option<String>,
    /// Whether the shared folder is read-only; it is unless this is `Some(false)`.
    pub share_readonly: Option<bool>,
    /// Size of the Serial Port's buffer in bytes.
    pub serial_buffer_bytes: u32,
    /// Whether writing to the Serial Port is enabled.
    pub allow_serial_write: bool,
    /// The Serial Port backend.
    pub serial_backend: SerialBackend,
    /// Root of the spooled Serial Port logs.
    pub serial_spool_dir: Option<String>,
    /// The encoder program for display recording.
    pub ffmpeg_binary: Option<String>,
    /// Root of the display recordings.
    pub recording_dir: Option<String>,
    /// The recording codec.
    pub recording_codec: String,
    /// The constant-quality target of recordings.
    pub recording_crf: u32,
    /// The frame rate that recording is paced to.
    pub recording_max_fps: u32,
    /// The pixel format of recordings.
    pub recording_pixfmt: String,
    /// Inclusive range that a forward's host port must fall within.
    pub hostfwd_port_range: Option<PortRange>,
    /// Whether host-level networking is permitted.
    pub allow_host_net: bool,
    /// Whether creating an Instance also starts its Guest.
    pub auto_start: bool,
    /// Hard cap on a spec's memory in MiB.
    pub max_memory_mb: Option<u32>,
    /// Hard cap on a spec's virtual CPUs.
    pub max_vcpus: Option<u32>,
    /// Whether raw extra arguments are permitted.
    pub allow_raw_args: bool,
    /// Capacity of the Event Buffer.
    pub event_buffer_size: Option<u32>,
    /// The password that people give the noVNC Viewer.
    pub viewer_password: Option<String>,
    /// The user name that people give the noVNC Viewer.
    pub viewer_user: Option<String>,
    /// Address that the Viewer binds to.
    pub viewer_host: String,
    /// Port that the Viewer listens on.
    pub viewer_port: u16,
}

/// How the host folder is shared with guests.
#[derive(Debug, Clone, PartialEq, Eq)]
pub struct ShareReport {
    /// Whether a host folder is shared.
    pub available: bool,
    /// The mount tag that the guest mounts.
    pub mount_tag: String,
    /// The intended mountpoint, if configured.
    pub guest_mountpoint: Option<String>,
    /// Whether the share is read-only.
    pub read_only: bool,
    /// The `mount` command to run in the guest, when the share is available.
    pub mount_command: Option<String>,
    /// How to use, or enable, the share.
    pub hint: String,
}

/// How the Serial Port is configured.
#[derive(Debug, Clone, PartialEq, Eq)]
pub struct SerialReport {
    /// The backend.
    pub backend: String,
    /// The size of its buffer in bytes.
    pub buffer_bytes: u32,
    /// What reading does: `drain` or `tail`.
    pub read_semantics: String,
    /// Whether it can be written to.
    pub writable: bool,
    /// Whether the current Instance has a Serial Port.
    pub enabled: bool,
    /// The subdirectory that the log is spooled under, if any.
    pub spool_subdir: Option<String>,
    /// The console device that the guest is expected to use, where it can be told.
    pub console_device: Option<String>,
    /// How to read it.
    pub hint: String,
}

/// The display-recording capability and state.
#[derive(Debug, Clone, PartialEq, Eq)]
pub struct RecordingReport {
    /// Whether recording is available.
    pub available: bool,
    /// Why it is, or is not.
    pub reason: String,
    /// The codec.
    pub codec: String,
    /// The constant-quality target.
    pub crf: u32,
    /// The frame rate that capture is paced to.
    pub max_fps: u32,
    /// The pixel format.
    pub pixfmt: String,
    /// Whether a recording is running.
    pub active: bool,
    /// The path that is being written to, if one is.
    pub active_path: Option<String>,
    /// The directory that recordings are written under, if configured.
    pub output_dir: Option<String>,
}

/// A captured screenshot.
#[derive(Debug, Clone, PartialEq, Eq)]
pub struct ScreendumpResult {
    /// The type of the image.
    pub mime_type: String,
    /// The image in base64.
    pub data: String,
    /// Its size in bytes.
    pub bytes: usize,
}

/// The result of creating an Instance.
#[derive(Debug)]
pub struct CreateInstanceResult {
    /// The state that the Instance is in.
    pub state: InstanceState,
    /// The validated Hardware Spec.
    pub spec: HardwareSpec,
    /// The accelerator that was chosen.
    pub accel: Accel,
    /// Why it was chosen.
    pub accel_reason: String,
}

/// A recording: where it is written, under which name, and with which codec. It is reported
/// when the recording starts.
#[derive(Debug, PartialEq, Eq)]
pub struct StartRecordingResult {
    /// The path of the file.
    pub path: String,
    /// Its name.
    pub name: String,
    /// The codec.
    pub codec: String,
}

impl Clone for StartRecordingResult {
    fn clone(&self) -> (r: StartRecordingResult)
        ensures
            r == *self,
    {
        StartRecordingResult {
            path: self.path.clone(),
            name: self.name.clone(),
            codec: self.codec.clone(),
        }
    }
}

/// What is reported when a recording stops.
#[derive(Debug, Clone, PartialEq, Eq)]
pub struct StopRecordingResult {
    /// The path of the file.
    pub path: String,
    /// Its name.
    pub name: String,
    /// The codec.
    pub codec: String,
    /// Its size in bytes.
    pub size_bytes: u64,
    /// How long was recorded, in milliseconds.
    pub duration_ms: u64,
}

impl StopRecordingResult {
    /// The report on a recording that was finalized.
    pub fn of(recording: StartRecordingResult, size_bytes: u64, duration_ms: u64) -> (r:
        StopRecordingResult)
        ensures
            r.path == recording.path,
            r.name == recording.name,
            r.codec == recording.codec,
            r.size_bytes == size_bytes,
            r.duration_ms == duration_ms,
    {
        StopRecordingResult {
            path: recording.path,
            name: recording.name,
            codec: recording.codec,
            size_bytes,
            duration_ms,
        }
    }
}

// ---------------------------------------------------------------------------
// What is to be done
// ---------------------------------------------------------------------------

/// A command for QEMU.
#[derive(Debug, Clone, PartialEq, Eq)]
pub struct QmpCall {
    /// The command.
    pub command: String,
    /// Its arguments as JSON text, if it has any.
    pub args: Option<String>,
}

impl QmpCall {
    /// The call is of a command without arguments.
    pub open spec fn is_plain(self, command: Seq<char>) -> bool {
        self.command@ == command && self.args is None
    }

    /// The call is of a command with arguments.
    pub open spec fn is_call(self, command: Seq<char>, args: Seq<char>) -> bool {
        self.command@ == command && text::string_of(self.args) == Some(args)
    }

    fn plain(command: &str) -> (r: QmpCall)
        ensures
            r.is_plain(command@),
    {
        QmpCall { command: command.to_string(), args: None }
    }

    fn with_args(command: &str, args: String) -> (r: QmpCall)
        ensures
            r.is_call(command@, args@),
    {
        QmpCall { command: command.to_string(), args: Some(args) }
    }
}

/// An Instance that is about to be launched.
#[derive(Debug)]
pub struct LaunchPlan {
    /// The validated Hardware Spec.
    pub spec: HardwareSpec,
    /// The accelerator, and why.
    pub resolution: AccelResolution,
    /// What the driver launches.
    pub request: LaunchRequest,
    /// The Serial Port log whose directory must exist, if it is spooled.
    pub spool_path: Option<String>,
    /// The serial socket that must be free, and is dialled after the launch, if there is one.
    pub serial_socket: Option<String>,
}

/// Why an Instance that was planned could not be created.
#[derive(Debug, Clone, PartialEq, Eq)]
pub enum CreateFailure {
    /// The directory of the Serial Port log could not be created.
    SpoolDirectory {
        /// The directory.
        dir: String,
        /// Why not.
        why: String,
    },
    /// Something lies at the path of the serial socket.
    SocketOccupied {
        /// The path.
        path: String,
    },
    /// The driver could not launch it.
    Launch(DriverError),
    /// The serial socket could not be dialled.
    Bridge(LifecycleError),
    /// The VNC Display could not be armed, or its Viewer not started.
    Viewer(String),
}

/// The end of a create that failed: what to report, and what to clean up.
#[derive(Debug, PartialEq, Eq)]
pub struct CreateRefusal {
    /// The error.
    pub error: LifecycleError,
    /// Whether the launched Instance is to be closed.
    pub close: bool,
    /// Whether an attached serial bridge is to be detached.
    pub detach: bool,
    /// Whether the serial socket is to be removed.
    pub remove_socket: bool,
}

/// An Instance that now exists.
#[derive(Debug)]
pub struct Published {
    /// What to report.
    pub result: CreateInstanceResult,
    /// The generation that its exit is watched under.
    pub generation: u64,
    /// The command that starts the Guest, if it is to be started now.
    pub resume: Option<QmpCall>,
    /// The long-polls that end as timeouts.
    pub settled: Vec<u64>,
}

/// What is to be stopped when an Instance is torn down, before it is closed.
#[derive(Debug)]
pub struct Teardown {
    /// The recording that is to be finalized, if one is running.
    pub recording: Option<StartRecordingResult>,
    /// Whether the serial bridge is to be detached.
    pub bridge: bool,
    /// Whether the Viewer is to be stopped.
    pub viewer: bool,
    /// The long-polls that end as timeouts.
    pub settled: Vec<u64>,
}

/// A step of a teardown.
#[derive(Debug, Clone, Copy, PartialEq, Eq, Structural)]
pub enum TeardownStep {
    /// Stop the recording, and finish its file.
    FinalizeRecording,
    /// Stop to read the serial socket, and remove it.
    DetachBridge,
    /// Stop to capture events.
    StopEvents,
    /// Answer the long-polls that end as timeouts.
    SettleWaits,
    /// Stop the Viewer.
    StopViewer,
    /// End the emulator, and close its QMP session.
    Close,
}

/// A step, where it is needed.
pub open spec fn step_if(needed: bool, step: TeardownStep) -> Seq<TeardownStep> {
    if needed {
        seq![step]
    } else {
        Seq::empty()
    }
}

impl Teardown {
    /// The steps: what reads from the emulator ends before the emulator does.
    pub open spec fn course(self) -> Seq<TeardownStep> {
        step_if(self.recording is Some, TeardownStep::FinalizeRecording) + step_if(
            self.bridge,
            TeardownStep::DetachBridge,
        ) + seq![TeardownStep::StopEvents, TeardownStep::SettleWaits] + step_if(
            self.viewer,
            TeardownStep::StopViewer,
        ) + seq![TeardownStep::Close]
    }

    /// The steps, in their order.
    pub fn steps(&self) -> (r: Vec<TeardownStep>)
        ensures
            r@ == self.course(),
    {
        let mut steps: Vec<TeardownStep> = Vec::new();
        if self.recording.is_some() {
            steps.push(TeardownStep::FinalizeRecording);
        }
        if self.bridge {
            steps.push(TeardownStep::DetachBridge);
        }
        steps.push(TeardownStep::StopEvents);
        steps.push(TeardownStep::SettleWaits);
        if self.viewer {
            steps.push(TeardownStep::StopViewer);
        }
        steps.push(TeardownStep::Close);
        assert(steps@ =~= self.course());
        steps
    }
}

/// How the Serial Port is to be read.
#[derive(Debug, Clone, PartialEq, Eq)]
pub enum SerialRead {
    /// By a command, whose reply holds the output.
    Command(QmpCall),
    /// From the end of a log.
    Tail {
        /// The log.
        path: String,
        /// How many bytes at most.
        size: u32,
    },
    /// From the ring of the serial bridge.
    Drain {
        /// How many bytes at most.
        size: u32,
    },
}

/// How the Serial Port is to be written to.
#[derive(Debug, Clone, PartialEq, Eq)]
pub enum SerialWrite {
    /// By a command.
    Command {
        /// The command.
        call: QmpCall,
        /// How many characters it writes.
        chars: usize,
    },
    /// To the serial socket.
    Socket(Vec<u8>),
}

/// A recording that is about to start.
#[derive(Debug)]
pub struct RecordingPlan {
    /// The encoder program.
    pub ffmpeg: String,
    /// Its arguments.
    pub args: Vec<String>,
    /// The recording.
    pub recording: StartRecordingResult,
    /// How long one frame lasts, in milliseconds.
    pub interval_ms: u64,
}

// ---------------------------------------------------------------------------
// The model
// ---------------------------------------------------------------------------

/// The state of the orchestrator.
pub struct OrchestratorModel {
    /// What it is configured with.
    pub options: OrchestratorOptions,
    /// The Command Policy.
    pub policy: ResolvedPolicy,
    /// The lifecycle state.
    pub state: InstanceState,
    /// Whether an Instance is attached.
    pub attached: bool,
    /// Whether a serial bridge is attached.
    pub bridge: bool,
    /// Whether a Viewer is running.
    pub viewer: bool,
    /// The recording that is running, if any.
    pub recording: Option<StartRecordingResult>,
    /// The spec of the Instance.
    pub spec: Option<HardwareSpec>,
    /// The accelerator of the Instance.
    pub accel: Option<Accel>,
    /// The Event Buffer.
    pub buffer: BufferModel,
    /// The generation of the Instance.
    pub generation: u64,
}

impl OrchestratorModel {
    /// An Instance is attached exactly while it runs or is paused; what belongs to it exists
    /// only with it.
    pub open spec fn valid(self) -> bool {
        &&& self.buffer.valid()
        &&& self.attached == (self.state == InstanceState::Running || self.state
            == InstanceState::Paused)
        &&& self.attached == (self.spec is Some)
        &&& self.attached == (self.accel is Some)
        &&& self.bridge ==> self.attached
        &&& self.viewer ==> self.attached
        &&& self.recording is Some ==> self.attached
    }

    /// The state in which nothing exists and `state` is in force; the events are gone.
    pub open spec fn emptied(self, state: InstanceState) -> OrchestratorModel {
        OrchestratorModel {
            state,
            attached: false,
            bridge: false,
            viewer: false,
            recording: None,
            spec: None,
            accel: None,
            buffer: self.buffer.cleared(),
            ..self
        }
    }

    /// The state once a planned Instance exists.
    pub open spec fn published(self, plan: LaunchPlan) -> OrchestratorModel {
        OrchestratorModel {
            state: if self.options.auto_start {
                InstanceState::Running
            } else {
                InstanceState::Paused
            },
            attached: true,
            bridge: plan.serial_socket is Some,
            viewer: plan.spec.display == DisplayMode::Vnc,
            recording: None,
            spec: Some(plan.spec),
            accel: Some(plan.resolution.accel),
            buffer: self.buffer.cleared(),
            generation: next_generation(self.generation),
            ..self
        }
    }

    /// The state after an event of the Instance of a generation: it is captured while that
    /// Instance exists.
    pub open spec fn captured(self, generation: u64, event: QmpEventText) -> OrchestratorModel {
        if self.attached && self.generation == generation {
            OrchestratorModel { buffer: self.buffer.appended(event), ..self }
        } else {
            self
        }
    }
}

/// The generation after another; after the last one it starts over.
pub open spec fn next_generation(generation: u64) -> u64 {
    if generation == u64::MAX {
        0
    } else {
        (generation + 1) as u64
    }
}

/// The generation after `n` publications.
pub open spec fn generation_after(generation: u64, n: nat) -> u64
    decreases n,
{
    if n == 0 {
        generation
    } else {
        next_generation(generation_after(generation, (n - 1) as nat))
    }
}

/// One lifecycle state follows another: nothing, then starting, then running or paused and
/// back, then stopped, and nothing again. A create that fails goes back to nothing.
pub open spec fn follows(from: InstanceState, to: InstanceState) -> bool {
    match from {
        InstanceState::NoInstance => to == InstanceState::Starting,
        InstanceState::Starting => to == InstanceState::Running || to == InstanceState::Paused || to
            == InstanceState::NoInstance,
        InstanceState::Running => to == InstanceState::Paused || to == InstanceState::Stopped,
        InstanceState::Paused => to == InstanceState::Running || to == InstanceState::Stopped,
        InstanceState::Stopped => to == InstanceState::NoInstance,
    }
}

/// An operation keeps to the course of the lifecycle.
pub open spec fn keeps_course(from: InstanceState, to: InstanceState) -> bool {
    from == to || follows(from, to)
}

/// The message for an operation that needs an Instance.
pub open spec fn no_instance(action: Seq<char>) -> Seq<char> {
    "No Instance is running, so there is nothing to "@ + action
        + ". Create one with create_instance first."@
}

/// The message for a create while an Instance exists.
pub open spec fn already_exists(state: InstanceState) -> Seq<char> {
    "An Instance already exists (state "@ + state.name()
        + "). Only one Instance may run at a time — destroy it with destroy_instance before creating a new one."@
}

/// The message for a VNC Display without a password for its Viewer.
pub open spec fn viewer_refusal() -> Seq<char> {
    "The Hardware Spec requested display \"vnc\", which starts the noVNC Viewer, but QMP_MCP_VIEWER_PASSWORD is not set. Set QMP_MCP_VIEWER_PASSWORD to a strong password to enable the Viewer, or use display \"none\" for a headless Instance."@
}

/// The message for a shared folder where none is configured.
pub open spec fn share_refusal() -> Seq<char> {
    "The Hardware Spec requested share: true, but folder sharing is not configured on this server (QMP_MCP_HOST_SHARE_DIR is unset). Set QMP_MCP_HOST_SHARE_DIR to the host folder to share, or remove share."@
}

/// A host folder is shared with guests.
pub open spec fn share_configured(options: OrchestratorOptions) -> bool {
    options.host_share_dir matches Some(d) && !text::is_blank(d@)
}

/// The Viewer has a password.
pub open spec fn viewer_configured(options: OrchestratorOptions) -> bool {
    options.viewer_password matches Some(p) && p@.len() > 0
}

/// The binary that a spec is launched with.
pub open spec fn binary_for(options: OrchestratorOptions, spec: HardwareSpec) -> Seq<char> {
    match options.qemu_binary_override {
        Some(b) => b@,
        None => accel::emulator(spec.machine@),
    }
}

/// The accelerator that a spec is launched with.
pub open spec fn accel_for(options: OrchestratorOptions, spec: HardwareSpec, kvm: bool) -> Result<
    (Accel, Seq<char>),
    Seq<char>,
> {
    accel::guest_choice(
        spec.accel,
        accel::arch_of(binary_for(options, spec)),
        options.host_arch@,
        spec.machine@,
        kvm,
    )
}

/// What the argument vector is generated with.
pub open spec fn argv_settings(options: OrchestratorOptions, accel: Accel) -> ArgvOptions {
    ArgvOptions {
        accel,
        qmp_socket_path: options.qmp_socket_path,
        image_dir: options.image_dir,
        iso_dir: options.iso_dir,
        hostfwd_port_range: options.hostfwd_port_range,
        allow_host_net: options.allow_host_net,
        max_memory_mb: options.max_memory_mb,
        max_vcpus: options.max_vcpus,
        allow_raw_args: options.allow_raw_args,
    }
}

/// The Serial Port of a spec goes through a backend.
pub open spec fn uses(options: OrchestratorOptions, spec: HardwareSpec, backend: SerialBackend) -> bool {
    spec.serial && options.serial_backend == backend
}

/// Where the Serial Port log of a spec is.
pub open spec fn spool_of(options: OrchestratorOptions, spec: HardwareSpec) -> Result<
    Seq<char>,
    Seq<char>,
> {
    serial::spool_target(
        text::string_of(options.serial_spool_dir),
        text::string_of(spec.serial_spool),
    )
}

/// Why a validated spec cannot be launched, if it cannot.
pub open spec fn launch_refusal(
    options: OrchestratorOptions,
    spec: HardwareSpec,
    kvm: bool,
    stores: Stores,
) -> Option<Seq<char>> {
    if spec.display == DisplayMode::Vnc && !viewer_configured(options) {
        Some(viewer_refusal())
    } else if spec.share && !share_configured(options) {
        Some(share_refusal())
    } else {
        match accel_for(options, spec, kvm) {
            Err(m) => Some(m),
            Ok(choice) => match argv::argv(spec, argv_settings(options, choice.0), stores) {
                Err(m) => Some(m),
                Ok(_) => if uses(options, spec, SerialBackend::Spool) && spool_of(
                    options,
                    spec,
                ) is Err {
                    Some(spool_of(options, spec)->Err_0)
                } else {
                    None
                },
            },
        }
    }
}

/// A plan is the one that a validated spec gives.
pub open spec fn is_plan(
    options: OrchestratorOptions,
    spec: HardwareSpec,
    kvm: bool,
    stores: Stores,
    plan: LaunchPlan,
) -> bool {
    &&& plan.spec == spec
    &&& accel_for(options, spec, kvm) matches Ok(choice) && plan.resolution.accel == choice.0
        && plan.resolution.requested == spec.accel && plan.resolution.reason@ == choice.1
    &&& plan.request.binary@ == binary_for(options, spec)
    &&& argv::argv(spec, argv_settings(options, plan.resolution.accel), stores) == Ok::<
        Seq<Seq<char>>,
        Seq<char>,
    >(text::texts(plan.request.argv@))
    &&& plan.request.qmp_socket_path@ == options.qmp_socket_path@
    &&& text::string_of(plan.spool_path) == (if uses(options, spec, SerialBackend::Spool) {
        Some(spool_of(options, spec)->Ok_0)
    } else {
        None
    })
    &&& text::string_of(plan.serial_socket) == (if uses(options, spec, SerialBackend::Socket) {
        Some(serial::directory(options.qmp_socket_path@) + "serial.sock"@)
    } else {
        None
    })
}

// ---------------------------------------------------------------------------
// The orchestrator
// ---------------------------------------------------------------------------

/// Holds the single managed Instance.
pub struct Orchestrator {
    options: OrchestratorOptions,
    command_policy: ResolvedPolicy,
    state: InstanceState,
    attached: bool,
    bridge: bool,
    viewer: bool,
    recording: Option<StartRecordingResult>,
    spec: Option<HardwareSpec>,
    accel: Option<Accel>,
    event_buffer: EventBuffer,
    generation: u64,
}

impl View for Orchestrator {
    type V = OrchestratorModel;

    closed spec fn view(&self) -> OrchestratorModel {
        OrchestratorModel {
            options: self.options,
            policy: self.command_policy,
            state: self.state,
            attached: self.attached,
            bridge: self.bridge,
            viewer: self.viewer,
            recording: self.recording,
            spec: self.spec,
            accel: self.accel,
            buffer: self.event_buffer@,
            generation: self.generation,
        }
    }
}

/// How many events the buffer retains.
pub open spec fn buffer_capacity(options: OrchestratorOptions) -> nat {
    match options.event_buffer_size {
        Some(n) => n as nat,
        None => event_buffer::DEFAULT_EVENT_BUFFER_SIZE as nat,
    }
}

impl Orchestrator {
    /// An orchestrator without an Instance. The built-in policy is in force where none is
    /// given.
    pub fn new(options: OrchestratorOptions, command_policy: Option<ResolvedPolicy>) -> (r:
        Orchestrator)
        requires
            options.event_buffer_size matches Some(n) ==> n >= 1,
        ensures
            r@.valid(),
            r@.options == options,
            r@.state == InstanceState::NoInstance,
            r@.generation == 0,
            r@.buffer.events.len() == 0,
            r@.buffer.cursor == 0,
            r@.buffer.capacity == buffer_capacity(options),
            match command_policy {
                Some(p) => r@.policy == p,
                None => forall|name: Seq<char>|
                    (#[trigger] r@.policy.allows(name) == policy::default_allowed(name))
                        && !r@.policy.denies(name),
            },
    {
        let command_policy = match command_policy {
            Some(p) => p,
            None => policy::build_policy(&policy::PolicyOverrides::default()),
        };
        let capacity: usize = match options.event_buffer_size {
            Some(n) => n as usize,
            None => event_buffer::DEFAULT_EVENT_BUFFER_SIZE,
        };
        Orchestrator {
            options,
            command_policy,
            state: InstanceState::NoInstance,
            attached: false,
            bridge: false,
            viewer: false,
            recording: None,
            spec: None,
            accel: None,
            event_buffer: EventBuffer::new(capacity),
            generation: 0,
        }
    }

    /// The lifecycle state.
    pub fn state(&self) -> (r: InstanceState)
        ensures
            r == self@.state,
    {
        self.state
    }

    /// The generation of the current Instance.
    pub fn current_generation(&self) -> (r: u64)
        ensures
            r == self@.generation,
    {
        self.generation
    }

    /// What the orchestrator is configured with.
    pub fn options(&self) -> (r: &OrchestratorOptions)
        ensures
            *r == self@.options,
    {
        &self.options
    }

    /// The current Instance.
    pub fn get_instance(&self) -> (r: InstanceView)
        ensures
            r.state == self@.state,
            r.accel == self@.accel,
            match self@.spec {
                Some(s) => r.spec matches Some(x) && x.same(s),
                None => r.spec is None,
            },
    {
        let spec = match &self.spec {
            Some(s) => Some(s.clone()),
            None => None,
        };
        InstanceView { state: self.state, spec, accel: self.accel }
    }

    /// How the host folder is shared with guests.
    pub fn describe_share(&self) -> (r: ShareReport)
        ensures
            ({
                let o = self@.options;
                let available = share_configured(o);
                let read_only = o.share_readonly != Some(false);
                &&& r.available == available
                &&& r.mount_tag@ == SHARE_MOUNT_TAG@
                &&& r.guest_mountpoint == o.guest_share_dir
                &&& r.read_only == read_only
                &&& text::string_of(r.mount_command) == (if available {
                    Some(
                        "mount -t 9p -o trans=virtio,version=9p2000.L"@ + (if read_only {
                            ",ro"@
                        } else {
                            ""@
                        }) + " "@ + SHARE_MOUNT_TAG@ + " "@ + (match o.guest_share_dir {
                            Some(d) => d@,
                            None => "<your-mountpoint>"@,
                        }),
                    )
                } else {
                    None
                })
                &&& r.hint@ == (if available {
                    "Set share: true on create_instance to attach the host folder, then run mountCommand inside the guest (needs the 9p + 9pnet_virtio kernel modules)."@
                } else {
                    "Folder sharing is not configured on this server (QMP_MCP_HOST_SHARE_DIR is unset)."@
                })
            }),
    {
        let available = self.shares_folder();
        let read_only = match self.options.share_readonly {
            Some(false) => false,
            _ => true,
        };
        let guest_mountpoint = text::clone_option(&self.options.guest_share_dir);
        let mountpoint = match &self.options.guest_share_dir {
            Some(d) => d.as_str(),
            None => "<your-mountpoint>",
        };
        let ro = if read_only {
            ",ro"
        } else {
            ""
        };
        let mount_command = if available {
            let mut m = text::cat5(
                "mount -t 9p -o trans=virtio,version=9p2000.L",
                ro,
                " ",
                SHARE_MOUNT_TAG,
                " ",
            );
            m.append(mountpoint);
            Some(m)
        } else {
            None
        };
        let hint = if available {
            "Set share: true on create_instance to attach the host folder, then run mountCommand inside the guest (needs the 9p + 9pnet_virtio kernel modules).".to_string()
        } else {
            "Folder sharing is not configured on this server (QMP_MCP_HOST_SHARE_DIR is unset).".to_string()
        };
        ShareReport {
            available,
            mount_tag: SHARE_MOUNT_TAG.to_string(),
            guest_mountpoint,
            read_only,
            mount_command,
            hint,
        }
    }

    // -- creating ---------------------------------------------------------------

    fn argv_options(&self, accel: Accel) -> (r: ArgvOptions)
        ensures
            r == argv_settings(self@.options, accel),
    {
        ArgvOptions {
            accel,
            qmp_socket_path: self.options.qmp_socket_path.clone(),
            image_dir: text::clone_option(&self.options.image_dir),
            iso_dir: text::clone_option(&self.options.iso_dir),
            hostfwd_port_range: self.options.hostfwd_port_range,
            allow_host_net: self.options.allow_host_net,
            max_memory_mb: self.options.max_memory_mb,
            max_vcpus: self.options.max_vcpus,
            allow_raw_args: self.options.allow_raw_args,
        }
    }

    fn shares_folder(&self) -> (r: bool)
        ensures
            r == share_configured(self@.options),
    {
        match &self.options.host_share_dir {
            Some(d) => !text::blank(d.as_str()),
            None => false,
        }
    }

    fn assert_viewer_configured(&self) -> (r: Result<(), LifecycleError>)
        ensures
            match r {
                Ok(_) => viewer_configured(self@.options),
                Err(e) => !viewer_configured(self@.options) && e.0@ == viewer_refusal(),
            },
    {
        let configured = match &self.options.viewer_password {
            Some(p) => !p.as_str().is_empty(),
            None => false,
        };
        if configured {
            Ok(())
        } else {
            Err(
                LifecycleError(
                    "The Hardware Spec requested display \"vnc\", which starts the noVNC Viewer, but QMP_MCP_VIEWER_PASSWORD is not set. Set QMP_MCP_VIEWER_PASSWORD to a strong password to enable the Viewer, or use display \"none\" for a headless Instance.".to_string(),
                ),
            )
        }
    }

    /// Plan the launch of a validated spec: refuse what the operator's settings do not allow,
    /// choose the binary and the accelerator, and generate the argument vector.
    pub fn launch_instance(&self, spec: HardwareSpec, kvm_available: bool, stores: &Stores) -> (r:
        Result<LaunchPlan, LifecycleError>)
        ensures
            match r {
                Ok(plan) => launch_refusal(self@.options, spec, kvm_available, *stores) is None
                    && is_plan(self@.options, spec, kvm_available, *stores, plan),
                Err(e) => launch_refusal(self@.options, spec, kvm_available, *stores) == Some(
                    e.0@,
                ),
            },
    {
        if spec.display == DisplayMode::Vnc {
            match self.assert_viewer_configured() {
                Ok(()) => {},
                Err(e) => return Err(e),
            }
        }
        if spec.share && !self.shares_folder() {
            return Err(
                LifecycleError(
                    "The Hardware Spec requested share: true, but folder sharing is not configured on this server (QMP_MCP_HOST_SHARE_DIR is unset). Set QMP_MCP_HOST_SHARE_DIR to the host folder to share, or remove share.".to_string(),
                ),
            );
        }
        let binary = match &self.options.qemu_binary_override {
            Some(b) => b.clone(),
            None => accel::qemu_binary_for_machine(spec.machine.as_str()),
        };
        let arch = accel::qemu_arch_of_binary(binary.as_str());
        let resolution = match accel::resolve_guest_accel(
            spec.accel,
            arch.as_str(),
            self.options.host_arch.as_str(),
            spec.machine.as_str(),
            kvm_available,
        ) {
            Ok(r) => r,
            Err(e) => return Err(LifecycleError(e.0)),
        };
        let settings = self.argv_options(resolution.accel);
        let args = match argv::build_argv(&spec, &settings, stores) {
            Ok(a) => a,
            Err(e) => return Err(LifecycleError(e.0)),
        };
        let spool_path = if spec.serial && self.options.serial_backend.is_spool() {
            match serial::resolve_serial_spool_path(
                text::option_str(&self.options.serial_spool_dir),
                text::option_str(&spec.serial_spool),
            ) {
                Ok(p) => Some(p),
                Err(e) => return Err(e),
            }
        } else {
            None
        };
        let serial_socket = if spec.serial && self.options.serial_backend.is_socket() {
            Some(serial::serial_socket_path(self.options.qmp_socket_path.as_str()))
        } else {
            None
        };
        let request = LaunchRequest {
            binary,
            argv: args,
            qmp_socket_path: self.options.qmp_socket_path.clone(),
        };
        Ok(LaunchPlan { spec, resolution, request, spool_path, serial_socket })
    }

    /// Begin to create an Instance from a candidate spec. While one exists this is refused;
    /// otherwise the slot is reserved and the launch planned. A refusal frees the slot again.
    pub fn create_instance(
        &mut self,
        candidate: HardwareSpecParams,
        kvm_available: bool,
        stores: &Stores,
    ) -> (r: Result<LaunchPlan, LifecycleError>)
        requires
            old(self)@.valid(),
        ensures
            final(self)@.valid(),
            keeps_course(old(self)@.state, final(self)@.state),
            match r {
                Ok(plan) => {
                    &&& old(self)@.state == InstanceState::NoInstance
                    &&& hardware_spec::spec_problem(candidate) is None
                    &&& plan.spec.holds(candidate)
                    &&& launch_refusal(old(self)@.options, plan.spec, kvm_available, *stores)
                        is None
                    &&& is_plan(old(self)@.options, plan.spec, kvm_available, *stores, plan)
                    &&& final(self)@ == (OrchestratorModel {
                        state: InstanceState::Starting,
                        ..old(self)@
                    })
                },
                Err(e) => {
                    &&& final(self)@ == old(self)@
                    &&& if old(self)@.state != InstanceState::NoInstance {
                        e.0@ == already_exists(old(self)@.state)
                    } else {
                        match hardware_spec::spec_problem(candidate) {
                            Some(m) => e.0@ == m,
                            None => exists|spec: HardwareSpec| #[trigger]
                                spec.holds(candidate) && launch_refusal(
                                    old(self)@.options,
                                    spec,
                                    kvm_available,
                                    *stores,
                                ) == Some(e.0@),
                        }
                    }
                },
            },
    {
        if self.state != InstanceState::NoInstance {
            return Err(
                LifecycleError(
                    text::cat3(
                        "An Instance already exists (state ",
                        self.state.as_str(),
                        "). Only one Instance may run at a time — destroy it with destroy_instance before creating a new one.",
                    ),
                ),
            );
        }
        let spec = match hardware_spec::parse_hardware_spec(candidate) {
            Ok(spec) => spec,
            Err(e) => return Err(LifecycleError(e.0)),
        };
        let ghost checked = spec;
        assert(checked.holds(candidate));
        match self.launch_instance(spec, kvm_available, stores) {
            Ok(plan) => {
                self.state = InstanceState::Starting;
                Ok(plan)
            },
            Err(e) => Err(e),
        }
    }

    /// End a create that failed after it was planned: the slot is free again.
    pub fn create_failed(&mut self, failure: CreateFailure) -> (r: CreateRefusal)
        requires
            old(self)@.valid(),
            old(self)@.state == InstanceState::Starting,
        ensures
            final(self)@.valid(),
            keeps_course(old(self)@.state, final(self)@.state),
            final(self)@ == (OrchestratorModel { state: InstanceState::NoInstance, ..old(self)@ }),
            r.error.0@ == (match failure {
                CreateFailure::SpoolDirectory { dir, why } =>
                "Failed to create the Serial Port spool directory "@ + dir@ + ": "@ + why@,
                CreateFailure::SocketOccupied { path } => "The Serial Port socket path "@ + path@
                    + " is already occupied — refusing to start rather than clobber or adopt a process this server did not launch. Remove the stale socket (or stop the other process), then retry."@,
                CreateFailure::Launch(e) => "Failed to create the Instance: "@ + e.0@,
                CreateFailure::Bridge(e) => e.0@,
                CreateFailure::Viewer(why) =>
                "Failed to start the noVNC Viewer for the vnc Display: "@ + why@,
            }),
            r.close == (failure is Bridge || failure is Viewer),
            r.detach == (failure is Viewer),
            r.remove_socket == (failure is Bridge),
    {
        self.state = InstanceState::NoInstance;
        match failure {
            CreateFailure::SpoolDirectory { dir, why } => CreateRefusal {
                error: LifecycleError(
                    text::cat4(
                        "Failed to create the Serial Port spool directory ",
                        dir.as_str(),
                        ": ",
                        why.as_str(),
                    ),
                ),
                close: false,
                detach: false,
                remove_socket: false,
            },
            CreateFailure::SocketOccupied { path } => CreateRefusal {
                error: LifecycleError(
                    text::cat3(
                        "The Serial Port socket path ",
                        path.as_str(),
                        " is already occupied — refusing to start rather than clobber or adopt a process this server did not launch. Remove the stale socket (or stop the other process), then retry.",
                    ),
                ),
                close: false,
                detach: false,
                remove_socket: false,
            },
            CreateFailure::Launch(e) => CreateRefusal {
                error: LifecycleError(
                    text::cat2("Failed to create the Instance: ", e.0.as_str()),
                ),
                close: false,
                detach: false,
                remove_socket: false,
            },
            CreateFailure::Bridge(error) => CreateRefusal {
                error,
                close: true,
                detach: false,
                remove_socket: true,
            },
            CreateFailure::Viewer(why) => CreateRefusal {
                error: LifecycleError(
                    text::cat2(
                        "Failed to start the noVNC Viewer for the vnc Display: ",
                        why.as_str(),
                    ),
                ),
                close: true,
                detach: true,
                remove_socket: false,
            },
        }
    }

    /// The command that sets the password of the VNC Display, which never stands in an argument
    /// vector.
    pub fn arm_display(&self, vnc_password: &str) -> (r: QmpCall)
        ensures
            r.is_call("set_password"@, vnc::set_password_args(vnc_password@)),
    {
        QmpCall::with_args("set_password", vnc::set_password(vnc_password))
    }

    /// What the Viewer of a VNC Display is started with.
    pub fn viewer_options(&self, vnc_password: String) -> (r: ViewerOptions)
        ensures
            r.host == self@.options.viewer_host,
            r.port == self@.options.viewer_port,
            r.password@ == (match self@.options.viewer_password {
                Some(p) => p@,
                None => Seq::empty(),
            }),
            r.user == self@.options.viewer_user,
            r.vnc_host@ == argv::VNC_LOOPBACK_HOST@,
            r.vnc_port == argv::VNC_LOOPBACK_PORT,
            r.vnc_password == vnc_password,
    {
        let password = match &self.options.viewer_password {
            Some(p) => p.clone(),
            None => String::new(),
        };
        ViewerOptions {
            host: self.options.viewer_host.clone(),
            port: self.options.viewer_port,
            password,
            user: text::clone_option(&self.options.viewer_user),
            vnc_host: argv::VNC_LOOPBACK_HOST.to_string(),
            vnc_port: argv::VNC_LOOPBACK_PORT,
            vnc_password,
        }
    }

    /// Publish a launched Instance: it starts with an empty Event Buffer and a generation of
    /// its own, paused at its startup unless it is to be started.
    pub fn publish(&mut self, plan: LaunchPlan) -> (r: Published)
        requires
            old(self)@.valid(),
            old(self)@.state == InstanceState::Starting,
        ensures
            final(self)@.valid(),
            keeps_course(old(self)@.state, final(self)@.state),
            final(self)@ == old(self)@.published(plan),
            r.result.state == final(self)@.state,
            r.result.spec.same(plan.spec),
            r.result.accel == plan.resolution.accel,
            r.result.accel_reason == plan.resolution.reason,
            r.generation == final(self)@.generation,
            if old(self)@.options.auto_start {
                r.resume matches Some(call) && call.is_plain("cont"@)
            } else {
                r.resume is None
            },
            r.settled@ == old(self)@.buffer.waiters.map_values(
                |w: event_buffer::WaiterText| w.id,
            ),
    {
        let settled = self.event_buffer.reset();
        let spec = plan.spec.clone();
        self.bridge = plan.serial_socket.is_some();
        self.viewer = plan.spec.display == DisplayMode::Vnc;
        self.recording = None;
        self.spec = Some(plan.spec);
        self.accel = Some(plan.resolution.accel);
        self.attached = true;
        self.generation = if self.generation == u64::MAX {
            0
        } else {
            self.generation + 1
        };
        self.state = if self.options.auto_start {
            InstanceState::Running
        } else {
            InstanceState::Paused
        };
        Published {
            result: CreateInstanceResult {
                state: self.state,
                spec,
                accel: plan.resolution.accel,
                accel_reason: plan.resolution.reason,
            },
            generation: self.generation,
            resume: if self.options.auto_start {
                Some(QmpCall::plain("cont"))
            } else {
                None
            },
            settled,
        }
    }

    // -- tearing down -------------------------------------------------------------

    fn begin_teardown(&mut self) -> (r: Teardown)
        requires
            old(self)@.valid(),
        ensures
            final(self)@.valid(),
            final(self)@ == old(self)@.emptied(InstanceState::Stopped),
            r.recording == old(self)@.recording,
            r.bridge == old(self)@.bridge,
            r.viewer == old(self)@.viewer,
            r.settled@ == old(self)@.buffer.waiters.map_values(
                |w: event_buffer::WaiterText| w.id,
            ),
    {
        let recording = self.recording.take();
        let bridge = self.bridge;
        let viewer = self.viewer;
        self.bridge = false;
        self.viewer = false;
        self.spec = None;
        self.accel = None;
        self.attached = false;
        self.state = InstanceState::Stopped;
        let settled = self.event_buffer.reset();
        Teardown { recording, bridge, viewer, settled }
    }

    /// Begin to destroy the Instance: say what is to be stopped before it is closed.
    pub fn destroy_instance(&mut self) -> (r: Result<Teardown, LifecycleError>)
        requires
            old(self)@.valid(),
        ensures
            final(self)@.valid(),
            keeps_course(old(self)@.state, final(self)@.state),
            match r {
                Ok(t) => {
                    &&& old(self)@.attached
                    &&& final(self)@ == old(self)@.emptied(InstanceState::Stopped)
                    &&& t.recording == old(self)@.recording
                    &&& t.bridge == old(self)@.bridge
                    &&& t.viewer == old(self)@.viewer
                    &&& t.settled@ == old(self)@.buffer.waiters.map_values(
                        |w: event_buffer::WaiterText| w.id,
                    )
                },
                Err(e) => {
                    &&& !old(self)@.attached
                    &&& final(self)@ == old(self)@
                    &&& e.0@ == no_instance("destroy"@)
                },
            },
    {
        if !self.attached {
            return Err(missing("destroy"));
        }
        Ok(self.begin_teardown())
    }

    /// Take note that the Instance of a generation has exited on its own. It is torn down as
    /// by a destroy, unless another one has taken its place or none is left.
    pub fn reconcile_unexpected_exit(&mut self, generation: u64) -> (r: Option<Teardown>)
        requires
            old(self)@.valid(),
        ensures
            final(self)@.valid(),
            keeps_course(old(self)@.state, final(self)@.state),
            if old(self)@.generation == generation && old(self)@.attached {
                &&& r matches Some(t) && t.recording == old(self)@.recording && t.bridge
                    == old(self)@.bridge && t.viewer == old(self)@.viewer && t.settled@
                    == old(self)@.buffer.waiters.map_values(|w: event_buffer::WaiterText| w.id)
                &&& final(self)@ == old(self)@.emptied(InstanceState::Stopped)
            } else {
                r is None && final(self)@ == old(self)@
            },
    {
        if self.generation != generation || !self.attached {
            return None;
        }
        Some(self.begin_teardown())
    }

    /// End a teardown: the slot is free, even where closing the Instance reported an error.
    pub fn torn_down(&mut self, closed: Result<(), DriverError>) -> (r: Result<(), LifecycleError>)
        requires
            old(self)@.valid(),
            old(self)@.state == InstanceState::Stopped,
        ensures
            final(self)@.valid(),
            keeps_course(old(self)@.state, final(self)@.state),
            final(self)@ == (OrchestratorModel { state: InstanceState::NoInstance, ..old(self)@ }),
            match closed {
                Ok(_) => r is Ok,
                Err(e) => r matches Err(x) && x.0@ == "Failed to destroy the Instance: "@ + e.0@,
            },
    {
        self.state = InstanceState::NoInstance;
        match closed {
            Ok(()) => Ok(()),
            Err(e) => Err(
                LifecycleError(text::cat2("Failed to destroy the Instance: ", e.0.as_str())),
            ),
        }
    }

    // -- driving ------------------------------------------------------------------

    /// Require an Instance for an action.
    pub fn require_handle(&self, action: &str) -> (r: Result<(), LifecycleError>)
        ensures
            match r {
                Ok(_) => self@.attached,
                Err(e) => !self@.attached && e.0@ == no_instance(action@),
            },
    {
        if self.attached {
            Ok(())
        } else {
            Err(missing(action))
        }
    }

    fn call(&self, action: &str, command: &str) -> (r: Result<QmpCall, LifecycleError>)
        ensures
            match r {
                Ok(c) => self@.attached && c.is_plain(command@),
                Err(e) => !self@.attached && e.0@ == no_instance(action@),
            },
    {
        match self.require_handle(action) {
            Ok(()) => Ok(QmpCall::plain(command)),
            Err(e) => Err(e),
        }
    }

    /// Ask for the run state of the Guest CPUs.
    pub fn get_status(&self) -> (r: Result<QmpCall, LifecycleError>)
        ensures
            match r {
                Ok(c) => self@.attached && c.is_plain("query-status"@),
                Err(e) => !self@.attached && e.0@ == no_instance("query its status"@),
            },
    {
        self.call("query its status", "query-status")
    }

    /// Ask for the block devices.
    pub fn query_block(&self) -> (r: Result<QmpCall, LifecycleError>)
        ensures
            match r {
                Ok(c) => self@.attached && c.is_plain("query-block"@),
                Err(e) => !self@.attached && e.0@ == no_instance("list its block devices"@),
            },
    {
        self.call("list its block devices", "query-block")
    }

    /// Ask for the virtual CPUs.
    pub fn query_cpus(&self) -> (r: Result<QmpCall, LifecycleError>)
        ensures
            match r {
                Ok(c) => self@.attached && c.is_plain("query-cpus-fast"@),
                Err(e) => !self@.attached && e.0@ == no_instance("query its CPUs"@),
            },
    {
        self.call("query its CPUs", "query-cpus-fast")
    }

    /// Ask the Guest CPUs to pause.
    pub fn pause_instance(&self) -> (r: Result<QmpCall, LifecycleError>)
        ensures
            match r {
                Ok(c) => self@.attached && c.is_plain("stop"@),
                Err(e) => !self@.attached && e.0@ == no_instance("pause it"@),
            },
    {
        self.call("pause it", "stop")
    }

    /// Ask the Guest CPUs to resume.
    pub fn resume_instance(&self) -> (r: Result<QmpCall, LifecycleError>)
        ensures
            match r {
                Ok(c) => self@.attached && c.is_plain("cont"@),
                Err(e) => !self@.attached && e.0@ == no_instance("resume it"@),
            },
    {
        self.call("resume it", "cont")
    }

    /// Ask the machine to reset. The lifecycle state stays as it is.
    pub fn reset_instance(&self) -> (r: Result<QmpCall, LifecycleError>)
        ensures
            match r {
                Ok(c) => self@.attached && c.is_plain("system_reset"@),
                Err(e) => !self@.attached && e.0@ == no_instance("reset it"@),
            },
    {
        self.call("reset it", "system_reset")
    }

    /// Ask the Guest to power off. The lifecycle state stays as it is.
    pub fn powerdown_instance(&self) -> (r: Result<QmpCall, LifecycleError>)
        ensures
            match r {
                Ok(c) => self@.attached && c.is_plain("system_powerdown"@),
                Err(e) => !self@.attached && e.0@ == no_instance("power it down"@),
            },
    {
        self.call("power it down", "system_powerdown")
    }

    /// Take note of the reply to a pause: once QEMU accepted it, the Instance is paused.
    pub fn paused(&mut self, reply: Result<String, DriverError>) -> (r: Result<
        InstanceState,
        LifecycleError,
    >)
        requires
            old(self)@.valid(),
            old(self)@.attached,
        ensures
            final(self)@.valid(),
            keeps_course(old(self)@.state, final(self)@.state),
            match reply {
                Ok(_) => r == Ok::<InstanceState, LifecycleError>(InstanceState::Paused) && final(
                    self)@ == (OrchestratorModel { state: InstanceState::Paused, ..old(self)@ }),
                Err(e) => r matches Err(x) && x.0 == e.0 && final(self)@ == old(self)@,
            },
    {
        match reply {
            Ok(_) => {
                self.state = InstanceState::Paused;
                Ok(self.state)
            },
            Err(e) => Err(LifecycleError(e.0)),
        }
    }

    /// Take note of the reply to a resume: once QEMU accepted it, the Instance runs.
    pub fn resumed(&mut self, reply: Result<String, DriverError>) -> (r: Result<
        InstanceState,
        LifecycleError,
    >)
        requires
            old(self)@.valid(),
            old(self)@.attached,
        ensures
            final(self)@.valid(),
            keeps_course(old(self)@.state, final(self)@.state),
            match reply {
                Ok(_) => r == Ok::<InstanceState, LifecycleError>(InstanceState::Running) && final(
                    self)@ == (OrchestratorModel { state: InstanceState::Running, ..old(self)@ }),
                Err(e) => r matches Err(x) && x.0 == e.0 && final(self)@ == old(self)@,
            },
    {
        match reply {
            Ok(_) => {
                self.state = InstanceState::Running;
                Ok(self.state)
            },
            Err(e) => Err(LifecycleError(e.0)),
        }
    }

    /// The state to report once QEMU answered a reset or a powerdown.
    pub fn unchanged(&self, reply: Result<String, DriverError>) -> (r: Result<
        InstanceState,
        LifecycleError,
    >)
        ensures
            match reply {
                Ok(_) => r == Ok::<InstanceState, LifecycleError>(self@.state),
                Err(e) => r matches Err(x) && x.0 == e.0,
            },
    {
        match reply {
            Ok(_) => Ok(self.state),
            Err(e) => Err(LifecycleError(e.0)),
        }
    }

    /// Ask for a generic command. The Command Policy is consulted first, so a command that
    /// it denies is refused even where no Instance runs; the name that is forwarded is the
    /// normalised one.
    pub fn execute_command(&self, command: &str, args: Option<String>) -> (r: Result<
        QmpCall,
        ExecuteCommandError,
    >)
        ensures
            ({
                let name = policy::normalized(command@);
                if policy::ruling(self@.policy, name) == policy::Ruling::Allow {
                    if self@.attached {
                        r matches Ok(c) && c.command@ == name && c.args == args
                    } else {
                        r matches Err(ExecuteCommandError::Lifecycle(e)) && e.0@ == no_instance(
                            "execute the QMP command \""@ + name + "\""@,
                        )
                    }
                } else {
                    r matches Err(ExecuteCommandError::Policy(e)) && e.message@ == policy::denial(
                        policy::ruling(self@.policy, name),
                        name,
                    ) && e.hard_denied == (policy::ruling(self@.policy, name)
                        == policy::Ruling::HardDeny)
                }
            }),
    {
        let verdict = policy::decide_command(&self.command_policy, command);
        assert(policy::is_verdict(self@.policy, command@, verdict));
        match CommandPolicyError::from_verdict(&verdict) {
            Some(e) => return Err(ExecuteCommandError::Policy(e)),
            None => {},
        }
        let name = match verdict {
            CommandVerdict::Allowed { command } => command,
            CommandVerdict::Denied { command, .. } => command,
        };
        let action = text::cat3("execute the QMP command \"", name.as_str(), "\"");
        match self.require_handle(action.as_str()) {
            Ok(()) => Ok(QmpCall { command: name, args }),
            Err(e) => Err(ExecuteCommandError::Lifecycle(e)),
        }
    }

    // -- events -------------------------------------------------------------------

    /// Capture an event of the Instance of a generation. One of an Instance that is gone is
    /// dropped: it reaches neither the buffer nor a long-poll.
    pub fn capture_event(&mut self, generation: u64, event: QmpEvent) -> (r: Option<Appended>)
        requires
            old(self)@.valid(),
            old(self)@.buffer.cursor < u64::MAX,
        ensures
            final(self)@.valid(),
            keeps_course(old(self)@.state, final(self)@.state),
            final(self)@ == old(self)@.captured(generation, event@),
            if old(self)@.attached && old(self)@.generation == generation {
                r matches Some(x) && x.event@ == old(self)@.buffer.stamped(event@) && x.woken@
                    == event_buffer::answered(
                    old(self)@.buffer.waiters,
                    old(self)@.buffer.stamped(event@),
                )
            } else {
                r is None
            },
    {
        if !self.attached || self.generation != generation {
            return None;
        }
        Some(self.event_buffer.append(event))
    }

    /// The latest cursor of the Event Buffer.
    pub fn event_cursor(&self) -> (r: u64)
        ensures
            r == self@.buffer.cursor,
    {
        self.event_buffer.cursor()
    }

    /// The buffered events after a cursor.
    pub fn get_events(&self, since: Option<u64>) -> (r: Result<ReadResult, LifecycleError>)
        ensures
            match r {
                Ok(x) => self@.attached && event_buffer::events_text(x.events@)
                    == event_buffer::after(self@.buffer.events, since) && x.cursor
                    == self@.buffer.cursor,
                Err(e) => !self@.attached && e.0@ == no_instance("read its events"@),
            },
    {
        match self.require_handle("read its events") {
            Ok(()) => Ok(self.event_buffer.read(since)),
            Err(e) => Err(e),
        }
    }

    /// Long-poll for a matching event, for `DEFAULT_WAIT_TIMEOUT` where no timeout is given.
    pub fn wait_for_event(
        &mut self,
        event_name: Option<String>,
        timeout_ms: Option<u64>,
        since_cursor: Option<u64>,
    ) -> (r: Result<WaitOutcome, LifecycleError>)
        requires
            old(self)@.valid(),
        ensures
            final(self)@.valid(),
            keeps_course(old(self)@.state, final(self)@.state),
            final(self)@ == (OrchestratorModel { buffer: final(self)@.buffer, ..old(self)@ }),
            match r {
                Ok(outcome) => {
                    let before = old(self)@.buffer;
                    let after = final(self)@.buffer;
                    let name = text::string_of(event_name);
                    let timeout = match timeout_ms {
                        Some(t) => t,
                        None => DEFAULT_WAIT_TIMEOUT,
                    };
                    &&& old(self)@.attached
                    &&& match before.replay(name, since_cursor) {
                        Some(e) => outcome matches WaitOutcome::Settled(x) && x.answers(e) && after
                            == before,
                        None => if timeout == 0 {
                            outcome matches WaitOutcome::Settled(x) && x.expired(before.cursor)
                                && after == before
                        } else {
                            outcome == WaitOutcome::Waiting(before.next_waiter) && after
                                == before.waiting(name)
                        },
                    }
                },
                Err(e) => !old(self)@.attached && e.0@ == no_instance("wait for its events"@)
                    && final(self)@ == old(self)@,
            },
    {
        match self.require_handle("wait for its events") {
            Ok(()) => {},
            Err(e) => return Err(e),
        }
        let timeout: u64 = match timeout_ms {
            Some(t) => t,
            None => DEFAULT_WAIT_TIMEOUT,
        };
        Ok(
            self.event_buffer.wait_for(
                WaitForEventOptions { event_name, timeout_ms: timeout, since_cursor },
            ),
        )
    }

    /// End a long-poll whose time is up.
    pub fn wait_expired(&mut self, id: u64) -> (r: WaitForEventResult)
        requires
            old(self)@.valid(),
        ensures
            final(self)@.valid(),
            keeps_course(old(self)@.state, final(self)@.state),
            final(self)@ == (OrchestratorModel {
                buffer: BufferModel {
                    waiters: event_buffer::without(old(self)@.buffer.waiters, id),
                    ..old(self)@.buffer
                },
                ..old(self)@
            }),
            r.expired(old(self)@.buffer.cursor),
    {
        self.event_buffer.expire(id)
    }

    // -- the Serial Port ------------------------------------------------------------

    /// How the Serial Port is to be read: up to `max_bytes`, or up to its whole buffer.
    pub fn read_serial(&self, max_bytes: Option<u32>, format: SerialFormat) -> (r: Result<
        SerialRead,
        LifecycleError,
    >)
        ensures
            ({
                let o = self@.options;
                let size = match max_bytes {
                    Some(n) => n,
                    None => o.serial_buffer_bytes,
                };
                let name = match self@.spec {
                    Some(s) => text::string_of(s.serial_spool),
                    None => None,
                };
                if !self@.attached {
                    r matches Err(e) && e.0@ == no_instance("read its Serial Port"@)
                } else {
                    match o.serial_backend {
                        SerialBackend::Ringbuf => r matches Ok(SerialRead::Command(c))
                            && c.is_call(
                            "ringbuf-read"@,
                            serial::ringbuf_read_args(size as nat, format),
                        ),
                        SerialBackend::Spool => match serial::spool_target(
                            text::string_of(o.serial_spool_dir),
                            name,
                        ) {
                            Ok(p) => r matches Ok(SerialRead::Tail { path, size: n }) && path@ == p
                                && n == size,
                            Err(m) => r matches Err(e) && e.0@ == m,
                        },
                        SerialBackend::Socket => if self@.bridge {
                            r == Ok::<SerialRead, LifecycleError>(SerialRead::Drain { size })
                        } else {
                            r matches Err(e) && e.0@ == bridge_missing()
                        },
                    }
                }
            }),
    {
        let size: u32 = match max_bytes {
            Some(n) => n,
            None => self.options.serial_buffer_bytes,
        };
        match self.require_handle("read its Serial Port") {
            Ok(()) => {},
            Err(e) => return Err(e),
        }
        match self.options.serial_backend {
            SerialBackend::Ringbuf => {
                let args = serial::ringbuf_read(size, format);
                Ok(SerialRead::Command(QmpCall::with_args("ringbuf-read", args)))
            },
            SerialBackend::Spool => {
                let name = match &self.spec {
                    Some(s) => text::option_str(&s.serial_spool),
                    None => None,
                };
                match serial::resolve_serial_spool_path(
                    text::option_str(&self.options.serial_spool_dir),
                    name,
                ) {
                    Ok(path) => Ok(SerialRead::Tail { path, size }),
                    Err(e) => Err(e),
                }
            },
            SerialBackend::Socket => {
                if self.bridge {
                    Ok(SerialRead::Drain { size })
                } else {
                    Err(serial_bridge_missing())
                }
            },
        }
    }

    /// How the Serial Port is to be written to. Refused for a spooled one, which is
    /// output-only, and unless the operator enabled writing.
    pub fn write_serial(&self, data: &str, format: SerialFormat) -> (r: Result<
        SerialWrite,
        LifecycleError,
    >)
        ensures
            ({
                let o = self@.options;
                if o.serial_backend == SerialBackend::Spool {
                    r matches Err(e) && e.0@ == spool_is_output_only()
                } else if !o.allow_serial_write {
                    r matches Err(e) && e.0@ == writing_disabled()
                } else if !self@.attached {
                    r matches Err(e) && e.0@ == no_instance("write to its Serial Port"@)
                } else if o.serial_backend == SerialBackend::Socket {
                    if !self@.bridge {
                        r matches Err(e) && e.0@ == bridge_missing()
                    } else {
                        match serial::raw_bytes(data@, format) {
                            Ok(b) => r matches Ok(SerialWrite::Socket(v)) && v@ == b,
                            Err(m) => r matches Err(e) && e.0@ == m,
                        }
                    }
                } else {
                    r matches Ok(SerialWrite::Command { call, chars }) && call.is_call(
                        "ringbuf-write"@,
                        serial::ringbuf_write_args(data@, format),
                    ) && chars == data@.len()
                }
            }),
    {
        if self.options.serial_backend.is_spool() {
            return Err(
                LifecycleError(
                    "The spool Serial Port backend is output-only; writing needs the ringbuf backend (unset QMP_MCP_SERIAL_BACKEND or set it to ringbuf).".to_string(),
                ),
            );
        }
        if !self.options.allow_serial_write {
            return Err(
                LifecycleError(
                    "Writing to the Serial Port is disabled. Set QMP_MCP_ALLOW_SERIAL_WRITE=true to enable write_serial (it types raw input into the guest console).".to_string(),
                ),
            );
        }
        match self.require_handle("write to its Serial Port") {
            Ok(()) => {},
            Err(e) => return Err(e),
        }
        if self.options.serial_backend.is_socket() {
            if !self.bridge {
                return Err(serial_bridge_missing());
            }
            return match serial::socket_bytes(data, format) {
                Ok(bytes) => Ok(SerialWrite::Socket(bytes)),
                Err(e) => Err(e),
            };
        }
        let chars = text::to_chars(data);
        let args = serial::ringbuf_write(data, format);
        Ok(
            SerialWrite::Command {
                call: QmpCall::with_args("ringbuf-write", args),
                chars: chars.len(),
            },
        )
    }

    /// How the Serial Port is configured.
    pub fn describe_serial(&self) -> (r: SerialReport)
        ensures
            ({
                let o = self@.options;
                let spooled = o.serial_backend == SerialBackend::Spool;
                &&& r.backend@ == o.serial_backend.name()
                &&& r.buffer_bytes == o.serial_buffer_bytes
                &&& r.read_semantics@ == (if spooled {
                    "tail"@
                } else {
                    "drain"@
                })
                &&& r.writable == (o.allow_serial_write && !spooled)
                &&& r.enabled == (self@.spec matches Some(s) && s.serial)
                &&& text::string_of(r.spool_subdir) == (match self@.spec {
                    Some(s) => if spooled {
                        text::string_of(s.serial_spool)
                    } else {
                        None
                    },
                    None => None,
                })
                &&& text::string_of(r.console_device) == (match self@.spec {
                    Some(s) => serial::console_device(s.machine@),
                    None => None,
                })
                &&& r.hint@ == serial_hint()
            }),
    {
        let console_device = match &self.spec {
            Some(s) => match serial::guess_console_device(s.machine.as_str()) {
                Some(d) => Some(d.to_string()),
                None => None,
            },
            None => None,
        };
        let enabled = match &self.spec {
            Some(s) => s.serial,
            None => false,
        };
        let backend = self.options.serial_backend;
        let spooled = backend.is_spool();
        let spool_subdir = match &self.spec {
            Some(s) => if spooled {
                text::clone_option(&s.serial_spool)
            } else {
                None
            },
            None => None,
        };
        SerialReport {
            backend: backend.as_str().to_string(),
            buffer_bytes: self.options.serial_buffer_bytes,
            read_semantics: if spooled {
                "tail".to_string()
            } else {
                "drain".to_string()
            },
            writable: self.options.allow_serial_write && !spooled,
            enabled,
            spool_subdir,
            console_device,
            hint: "Set serial: true on create_instance to attach the Serial Port, then read its output with read_serial (ringbuf and socket drain on read; spool tails a persistent file). The socket backend also makes write_serial a real interactive console — typed input reaches the guest as a connected serial line. The guest must use the shown console device in its own console= kernel cmdline for output to appear; raspi* boards have two UARTs and may need adjusting.".to_string(),
        }
    }

    // -- the display ----------------------------------------------------------------

    /// Ask for a screenshot into a file of the server's own choosing.
    pub fn screendump(&self, filename: &str) -> (r: Result<QmpCall, LifecycleError>)
        ensures
            match r {
                Ok(c) => self@.attached && c.is_call(
                    "screendump"@,
                    screendump_args(filename@),
                ),
                Err(e) => !self@.attached && e.0@ == no_instance("capture a screendump"@),
            },
    {
        match self.require_handle("capture a screendump") {
            Ok(()) => Ok(screendump_call(filename)),
            Err(e) => Err(e),
        }
    }

    /// The display-recording capability and state, given whether the codec is compiled into
    /// the encoder program.
    pub fn describe_recording(&self, encoder_present: bool) -> (r: RecordingReport)
        ensures
            ({
                let o = self@.options;
                &&& (r.available, r.reason@) == recording::capability_of(
                    text::string_of(o.ffmpeg_binary),
                    text::string_of(o.recording_dir),
                    o.recording_codec@,
                    encoder_present,
                )
                &&& r.codec == o.recording_codec
                &&& r.crf == o.recording_crf
                &&& r.max_fps == o.recording_max_fps
                &&& r.pixfmt == o.recording_pixfmt
                &&& r.active == (self@.recording is Some)
                &&& match self@.recording {
                    Some(x) => r.active_path == Some(x.path),
                    None => r.active_path is None,
                }
                &&& r.output_dir == o.recording_dir
            }),
    {
        let (available, reason) = recording::capability(
            text::option_str(&self.options.ffmpeg_binary),
            text::option_str(&self.options.recording_dir),
            self.options.recording_codec.as_str(),
            encoder_present,
        );
        let active_path = match &self.recording {
            Some(x) => Some(x.path.clone()),
            None => None,
        };
        RecordingReport {
            available,
            reason,
            codec: self.options.recording_codec.clone(),
            crf: self.options.recording_crf,
            max_fps: self.options.recording_max_fps,
            pixfmt: self.options.recording_pixfmt.clone(),
            active: self.recording.is_some(),
            active_path,
            output_dir: text::clone_option(&self.options.recording_dir),
        }
    }

    /// Plan a recording of the display. Refused without an Instance, without a display
    /// adapter, where recording is not available, while another recording runs, and under a
    /// name that is not a single safe file name.
    pub fn start_recording(&self, name: Option<&str>, stamp: Stamp, encoder_present: bool) -> (r:
        Result<RecordingPlan, LifecycleError>)
        ensures
            match r {
                Ok(plan) => recording_refusal(
                    self@,
                    text::text_of(name),
                    stamp,
                    encoder_present,
                ) is None && is_recording_plan(self@, text::text_of(name), stamp, plan),
                Err(e) => recording_refusal(self@, text::text_of(name), stamp, encoder_present)
                    == Some(e.0@),
            },
    {
        match self.require_handle("start a display recording") {
            Ok(()) => {},
            Err(e) => return Err(e),
        }
        let has_display = match &self.spec {
            Some(s) => s.display_device != DisplayDevice::NoDevice,
            None => false,
        };
        if !has_display {
            return Err(
                LifecycleError(
                    "The running Instance has no display adapter (displayDevice is \"none\"), so there is no framebuffer to record. Recreate it with a displayDevice such as \"virtio-gpu\", \"vga\", or \"ramfb\".".to_string(),
                ),
            );
        }
        let codec = self.options.recording_codec.as_str();
        let (available, reason) = recording::capability(
            text::option_str(&self.options.ffmpeg_binary),
            text::option_str(&self.options.recording_dir),
            codec,
            encoder_present,
        );
        if !available {
            return Err(LifecycleError(reason));
        }
        if self.recording.is_some() {
            return Err(
                LifecycleError(
                    "A display recording is already running. Stop it with stop_recording before starting another.".to_string(),
                ),
            );
        }
        let path = match recording::resolve_recording_path(
            text::option_str(&self.options.recording_dir),
            name,
            stamp,
        ) {
            Ok(p) => p,
            Err(e) => return Err(e),
        };
        let args = recording::build_ffmpeg_args(
            codec,
            self.options.recording_crf,
            self.options.recording_max_fps,
            self.options.recording_pixfmt.as_str(),
            path.as_str(),
        );
        let ffmpeg = match &self.options.ffmpeg_binary {
            Some(b) => b.clone(),
            None => String::new(),
        };
        let file = recording::recording_file_name(name, stamp);
        Ok(
            RecordingPlan {
                ffmpeg,
                args,
                recording: StartRecordingResult {
                    path,
                    name: file,
                    codec: self.options.recording_codec.clone(),
                },
                interval_ms: recording::frame_interval(self.options.recording_max_fps),
            },
        )
    }

    /// Take note that a planned recording is running.
    pub fn recording_started(&mut self, recording: StartRecordingResult)
        requires
            old(self)@.valid(),
            old(self)@.attached,
            old(self)@.recording is None,
        ensures
            final(self)@.valid(),
            keeps_course(old(self)@.state, final(self)@.state),
            final(self)@ == (OrchestratorModel { recording: Some(recording), ..old(self)@ }),
    {
        self.recording = Some(recording);
    }

    /// The error for an encoder that ended at once, given how it ended and what it said.
    pub fn encoder_exited(&self, ffmpeg: &str, status: &str, stderr: &str) -> (r: LifecycleError)
        ensures
            r.0@ == "ffmpeg exited immediately ("@ + status@
                + ") after starting the display recording ("@ + ffmpeg@ + ", codec \""@
                + self@.options.recording_codec@ + "\", pixfmt \""@ + self@.options.recording_pixfmt@
                + "\"). Check the codec/pixel-format/output path. ffmpeg stderr: "@ + (if text::trimmed(
                stderr@,
            ).len() == 0 {
                "(none)"@
            } else {
                text::trimmed(stderr@)
            }),
    {
        let captured = text::trim(stderr);
        let mut m = text::cat5(
            "ffmpeg exited immediately (",
            status,
            ") after starting the display recording (",
            ffmpeg,
            ", codec \"",
        );
        m.append(self.options.recording_codec.as_str());
        m.append("\", pixfmt \"");
        m.append(self.options.recording_pixfmt.as_str());
        m.append("\"). Check the codec/pixel-format/output path. ffmpeg stderr: ");
        if captured.as_str().is_empty() {
            m.append("(none)");
        } else {
            m.append(captured.as_str());
        }
        LifecycleError(m)
    }

    /// Stop the recording: it is handed over to be finalized.
    pub fn stop_recording(&mut self) -> (r: Result<StartRecordingResult, LifecycleError>)
        requires
            old(self)@.valid(),
        ensures
            final(self)@.valid(),
            keeps_course(old(self)@.state, final(self)@.state),
            final(self)@ == (OrchestratorModel { recording: None, ..old(self)@ }),
            match r {
                Ok(x) => old(self)@.recording == Some(x),
                Err(e) => old(self)@.recording is None && e.0@
                    == "No display recording is running. Start one with start_recording first."@,
            },
    {
        match self.recording.take() {
            Some(x) => Ok(x),
            None => Err(
                LifecycleError(
                    "No display recording is running. Start one with start_recording first.".to_string(),
                ),
            ),
        }
    }
}

fn missing(action: &str) -> (r: LifecycleError)
    ensures
        r.0@ == no_instance(action@),
{
    LifecycleError(
        text::cat3(
            "No Instance is running, so there is nothing to ",
            action,
            ". Create one with create_instance first.",
        ),
    )
}

/// The message for a serial bridge that is not attached.
pub open spec fn bridge_missing() -> Seq<char> {
    "The Serial Port socket bridge is not attached — create an Instance with serial: true (backend QMP_MCP_SERIAL_BACKEND=socket) first."@
}

/// The error for a serial bridge that is not attached.
pub fn serial_bridge_missing() -> (r: LifecycleError)
    ensures
        r.0@ == bridge_missing(),
{
    LifecycleError(
        "The Serial Port socket bridge is not attached — create an Instance with serial: true (backend QMP_MCP_SERIAL_BACKEND=socket) first.".to_string(),
    )
}

/// The message for writing to a spooled Serial Port.
pub open spec fn spool_is_output_only() -> Seq<char> {
    "The spool Serial Port backend is output-only; writing needs the ringbuf backend (unset QMP_MCP_SERIAL_BACKEND or set it to ringbuf)."@
}

/// The message for writing where it is not enabled.
pub open spec fn writing_disabled() -> Seq<char> {
    "Writing to the Serial Port is disabled. Set QMP_MCP_ALLOW_SERIAL_WRITE=true to enable write_serial (it types raw input into the guest console)."@
}

/// How to use the Serial Port.
pub open spec fn serial_hint() -> Seq<char> {
    "Set serial: true on create_instance to attach the Serial Port, then read its output with read_serial (ringbuf and socket drain on read; spool tails a persistent file). The socket backend also makes write_serial a real interactive console — typed input reaches the guest as a connected serial line. The guest must use the shown console device in its own console= kernel cmdline for output to appear; raspi* boards have two UARTs and may need adjusting."@
}

/// The arguments of `screendump`, as JSON text.
pub open spec fn screendump_args(filename: Seq<char>) -> Seq<char> {
    "{\"filename\":"@ + json::json_quoted(filename) + ",\"format\":\"png\"}"@
}

/// The command that captures the display into a file.
pub fn screendump_call(filename: &str) -> (r: QmpCall)
    ensures
        r.is_call("screendump"@, screendump_args(filename@)),
{
    let quoted = json::quote(filename);
    let args = text::cat3("{\"filename\":", quoted.as_str(), ",\"format\":\"png\"}");
    QmpCall::with_args("screendump", args)
}

/// The screenshot that a file holds, or why it could not be read.
pub fn screendump_result(file: Result<Vec<u8>, String>) -> (r: Result<
    ScreendumpResult,
    LifecycleError,
>)
    ensures
        match file {
            Ok(bytes) => r matches Ok(x) && x.mime_type@ == "image/png"@ && x.data@
                == base64::encoded(bytes@) && x.bytes == bytes@.len(),
            Err(why) => r matches Err(e) && e.0@ == "Failed to read the captured screendump: "@
                + why@,
        },
{
    match file {
        Ok(bytes) => Ok(
            ScreendumpResult {
                mime_type: "image/png".to_string(),
                data: base64::base64_encode(bytes.as_slice()),
                bytes: bytes.len(),
            },
        ),
        Err(why) => Err(
            LifecycleError(
                text::cat2("Failed to read the captured screendump: ", why.as_str()),
            ),
        ),
    }
}

/// A directory that the server creates for its own files.
#[derive(Debug, Clone, Copy, PartialEq, Eq, Structural)]
pub enum WorkDirectory {
    /// For screendumps.
    Screendump,
    /// For the output of recordings.
    RecordingOutput,
    /// For the frames of recordings.
    RecordingFrame,
}

/// The error for a directory that could not be created.
pub fn directory_failed(which: WorkDirectory, dir: &str, why: &str) -> (r: LifecycleError)
    ensures
        r.0@ == "Failed to create the "@ + (match which {
            WorkDirectory::Screendump => "screendump"@,
            WorkDirectory::RecordingOutput => "recording output"@,
            WorkDirectory::RecordingFrame => "recording frame"@,
        }) + " directory "@ + dir@ + ": "@ + why@,
{
    let name = match which {
        WorkDirectory::Screendump => "screendump",
        WorkDirectory::RecordingOutput => "recording output",
        WorkDirectory::RecordingFrame => "recording frame",
    };
    let mut m = text::cat5("Failed to create the ", name, " directory ", dir, ": ");
    m.append(why);
    LifecycleError(m)
}

/// The error for an encoder that could not be started.
pub fn encoder_not_started(ffmpeg: &str, why: &str) -> (r: LifecycleError)
    ensures
        r.0@ == "Failed to start ffmpeg ("@ + ffmpeg@ + ") for display recording: "@ + why@
            + ". Check QMP_MCP_FFMPEG_BINARY or that ffmpeg is installed."@,
{
    LifecycleError(
        text::cat5(
            "Failed to start ffmpeg (",
            ffmpeg,
            ") for display recording: ",
            why,
            ". Check QMP_MCP_FFMPEG_BINARY or that ffmpeg is installed.",
        ),
    )
}

/// The reply of QEMU, or its error as a lifecycle error.
pub fn relay(reply: Result<String, DriverError>) -> (r: Result<String, LifecycleError>)
    ensures
        match reply {
            Ok(v) => r == Ok::<String, LifecycleError>(v),
            Err(e) => r matches Err(x) && x.0 == e.0,
        },
{
    match reply {
        Ok(v) => Ok(v),
        Err(e) => Err(LifecycleError(e.0)),
    }
}

/// Why a recording cannot start, if it cannot.
pub open spec fn recording_refusal(
    m: OrchestratorModel,
    name: Option<Seq<char>>,
    stamp: Stamp,
    encoder_present: bool,
) -> Option<Seq<char>> {
    let capability = recording::capability_of(
        text::string_of(m.options.ffmpeg_binary),
        text::string_of(m.options.recording_dir),
        m.options.recording_codec@,
        encoder_present,
    );
    let target = recording::recording_target(
        text::string_of(m.options.recording_dir),
        name,
        stamp,
    );
    if !m.attached {
        Some(no_instance("start a display recording"@))
    } else if !(m.spec matches Some(s) && s.display_device != DisplayDevice::NoDevice) {
        Some(
            "The running Instance has no display adapter (displayDevice is \"none\"), so there is no framebuffer to record. Recreate it with a displayDevice such as \"virtio-gpu\", \"vga\", or \"ramfb\"."@,
        )
    } else if !capability.0 {
        Some(capability.1)
    } else if m.recording is Some {
        Some(
            "A display recording is already running. Stop it with stop_recording before starting another."@,
        )
    } else if target is Err {
        Some(target->Err_0)
    } else {
        None
    }
}

/// A plan is the one for a recording.
pub open spec fn is_recording_plan(
    m: OrchestratorModel,
    name: Option<Seq<char>>,
    stamp: Stamp,
    plan: RecordingPlan,
) -> bool {
    let o = m.options;
    let target = recording::recording_target(text::string_of(o.recording_dir), name, stamp);
    &&& o.ffmpeg_binary == Some(plan.ffmpeg)
    &&& text::texts(plan.args@) == recording::ffmpeg_args(
        o.recording_codec@,
        o.recording_crf as nat,
        o.recording_pixfmt@,
        target->Ok_0,
    )
    &&& plan.recording.path@ == target->Ok_0
    &&& plan.recording.name@ == recording::recording_file(name, stamp)
    &&& plan.recording.codec == o.recording_codec
    &&& plan.interval_ms == recording::interval_of(o.recording_max_fps)
}

// ---------------------------------------------------------------------------
// Laws
// ---------------------------------------------------------------------------

/// A create that fails leaves no trace: whatever goes wrong after it was planned, the state
/// is the one before it began.
pub proof fn failed_creates_leave_no_trace(before: OrchestratorModel)
    requires
        before.valid(),
        before.state == InstanceState::NoInstance,
    ensures
        ({
            let starting = OrchestratorModel { state: InstanceState::Starting, ..before };
            starting.valid() && (OrchestratorModel {
                state: InstanceState::NoInstance,
                ..starting
            }) == before
        }),
{
}

/// An Instance lives from its publication to its teardown: after it nothing that belonged to
/// it is left, and a fresh create can begin.
pub proof fn teardown_undoes_publication(before: OrchestratorModel, plan: LaunchPlan)
    requires
        before.valid(),
        before.state == InstanceState::Starting,
    ensures
        before.published(plan).valid(),
        before.published(plan).attached,
        ({
            let gone = before.published(plan).emptied(InstanceState::NoInstance);
            &&& gone.valid()
            &&& !gone.attached
            &&& !gone.bridge
            &&& !gone.viewer
            &&& gone.recording is None
            &&& gone.spec is None
            &&& gone.accel is None
            &&& gone.buffer.events.len() == 0
            &&& gone.buffer.waiters.len() == 0
        }),
{
}

/// Events do not leak from one Instance to the next, and the cursor goes on. An event of the
/// earlier Instance that comes late changes nothing, neither once that Instance is gone nor
/// once the next one exists.
pub proof fn events_do_not_leak(before: OrchestratorModel, plan: LaunchPlan, late: QmpEventText)
    ensures
        before.published(plan).buffer.events.len() == 0,
        before.published(plan).buffer.waiters.len() == 0,
        before.published(plan).buffer.cursor == before.buffer.cursor,
        before.emptied(InstanceState::NoInstance).captured(before.generation, late)
            == before.emptied(InstanceState::NoInstance),
        before.published(plan).captured(before.generation, late) == before.published(plan),
{
}

proof fn lemma_generation_after(generation: u64, n: nat)
    requires
        n <= u64::MAX,
    ensures
        generation_after(generation, n) == (if generation + n <= u64::MAX {
            generation + n
        } else {
            generation + n - u64::MAX - 1
        }),
    decreases n,
{
    if n > 0 {
        lemma_generation_after(generation, (n - 1) as nat);
    }
}

/// The watcher of an Instance that is gone can never tear down a newer one: a publication
/// takes the next generation, and as long as fewer than 2^64 of them follow, none has the
/// generation of an earlier one.
pub proof fn generations_tell_instances_apart(before: OrchestratorModel, plan: LaunchPlan, n: nat)
    requires
        0 < n <= u64::MAX,
    ensures
        before.published(plan).generation == next_generation(before.generation),
        generation_after(before.generation, n) != before.generation,
{
    lemma_generation_after(before.generation, n);
}

/// A hard-denied command is never forwarded, under any policy and in any state.
pub proof fn hard_denied_commands_never_run(m: OrchestratorModel, command: Seq<char>)
    requires
        policy::hard_denied(policy::normalized(command)),
    ensures
        policy::ruling(m.policy, policy::normalized(command)) == policy::Ruling::HardDeny,
{
}

/// An Instance that is launched for a VNC Display always has a Viewer password in front of
/// it.
pub proof fn vnc_displays_are_guarded(
    options: OrchestratorOptions,
    spec: HardwareSpec,
    kvm: bool,
    stores: Stores,
)
    requires
        launch_refusal(options, spec, kvm, stores) is None,
        spec.display == DisplayMode::Vnc,
    ensures
        viewer_configured(options),
{
}

/// The states go by their own names, which tell them apart.
pub proof fn states_have_their_names(a: InstanceState, b: InstanceState)
    ensures
        InstanceState::NoInstance.name() == "NONE"@,
        InstanceState::Starting.name() == "STARTING"@,
        InstanceState::Running.name() == "RUNNING"@,
        InstanceState::Paused.name() == "PAUSED"@,
        InstanceState::Stopped.name() == "STOPPED"@,
        a.name() == b.name() ==> a == b,
{
    reveal_strlit("NONE");
    reveal_strlit("STARTING");
    reveal_strlit("RUNNING");
    reveal_strlit("PAUSED");
    reveal_strlit("STOPPED");
    assert("NONE"@.len() == 4 && "STARTING"@.len() == 8 && "RUNNING"@.len() == 7);
    assert("PAUSED"@.len() == 6 && "STOPPED"@.len() == 7);
    assert("RUNNING"@[0] == 'R' && "STOPPED"@[0] == 'S');
}

/// A call is plain where it has no arguments, and one with arguments where it has exactly those.
pub proof fn calls_are_told_apart_by_their_arguments(
    c: QmpCall,
    command: Seq<char>,
    args: Seq<char>,
)
    ensures
        c.is_plain(command) <==> c.command@ == command && c.args is None,
        c.is_call(command, args) <==> c.command@ == command && (c.args matches Some(a) && a@
            == args),
{
}

/// A teardown finishes the recording, detaches the serial bridge, stops the events, settles the
/// waits, stops the Viewer and closes the Instance, in this order and each once, and leaves out
/// only what there is not.
pub proof fn teardowns_take_their_steps_in_order(t: Teardown)
    ensures
        ({
            let r: int = if t.recording is Some {
                1
            } else {
                0
            };
            let b: int = if t.bridge {
                1
            } else {
                0
            };
            let v: int = if t.viewer {
                1
            } else {
                0
            };
            let c = t.course();
            &&& c.len() == r + b + 2 + v + 1
            &&& t.recording is Some ==> c[0] == TeardownStep::FinalizeRecording
            &&& t.bridge ==> c[r] == TeardownStep::DetachBridge
            &&& c[r + b] == TeardownStep::StopEvents
            &&& c[r + b + 1] == TeardownStep::SettleWaits
            &&& t.viewer ==> c[r + b + 2] == TeardownStep::StopViewer
            &&& c[r + b + 2 + v] == TeardownStep::Close
        }),
{
    let c = t.course();
    let a = step_if(t.recording is Some, TeardownStep::FinalizeRecording);
    let b = step_if(t.bridge, TeardownStep::DetachBridge);
    let m = seq![TeardownStep::StopEvents, TeardownStep::SettleWaits];
    let v = step_if(t.viewer, TeardownStep::StopViewer);
    let z = seq![TeardownStep::Close];
    let n = a.len() as int;
    let k = n + b.len();
    let w = k + 2;
    assert(c == a + b + m + v + z);
    assert(t.recording is Some ==> c[0] == a[0]);
    assert(t.bridge ==> c[n] == b[0]);
    assert(c[k] == m[0] && c[k + 1] == m[1]);
    assert(t.viewer ==> c[w] == v[0]);
    assert(c[w + v.len()] == z[0]);
}

/// An Instance that is gone leaves nothing of itself behind, and what is configured, the policy,
/// the numbering of events and of waits and the generation as they were.
pub proof fn teardowns_keep_what_outlives_an_instance(m: OrchestratorModel, state: InstanceState)
    ensures
        ({
            let r = m.emptied(state);
            &&& r.state == state
            &&& !r.attached && !r.bridge && !r.viewer
            &&& r.recording is None && r.spec is None && r.accel is None
            &&& r.buffer.events.len() == 0 && r.buffer.waiters.len() == 0
            &&& r.buffer.cursor == m.buffer.cursor && r.buffer.capacity == m.buffer.capacity
                && r.buffer.next_waiter == m.buffer.next_waiter
            &&& r.options == m.options && r.policy == m.policy && r.generation == m.generation
        }),
{
}

/// An Instance that is published is the one that was planned: its spec and accelerator, a bridge
/// exactly where it has a serial socket, and a Viewer exactly where it has a VNC Display. It runs
/// exactly where Instances are started at once, and is paused otherwise.
pub proof fn published_instances_are_what_was_planned(m: OrchestratorModel, plan: LaunchPlan)
    ensures
        ({
            let r = m.published(plan);
            &&& r.state == InstanceState::Running <==> m.options.auto_start
            &&& r.state == InstanceState::Paused <==> !m.options.auto_start
            &&& r.attached
            &&& r.bridge <==> plan.serial_socket is Some
            &&& r.viewer <==> plan.spec.display == DisplayMode::Vnc
            &&& r.recording is None
            &&& r.spec == Some(plan.spec)
            &&& r.accel == Some(plan.resolution.accel)
            &&& r.buffer.events.len() == 0 && r.buffer.waiters.len() == 0
            &&& r.buffer.cursor == m.buffer.cursor && r.buffer.capacity == m.buffer.capacity
                && r.buffer.next_waiter == m.buffer.next_waiter
            &&& r.options == m.options && r.policy == m.policy
            &&& r.generation != m.generation
        }),
{
}

/// An event is captured exactly where it is of the Instance that is attached, and changes then the
/// buffer alone.
pub proof fn events_count_for_their_own_instance(
    m: OrchestratorModel,
    generation: u64,
    event: QmpEventText,
)
    ensures
        m.attached && m.generation == generation ==> m.captured(generation, event).buffer
            == m.buffer.appended(event),
        !m.attached || m.generation != generation ==> m.captured(generation, event) == m,
        ({
            let r = m.captured(generation, event);
            &&& r.options == m.options && r.policy == m.policy && r.state == m.state
            &&& r.attached == m.attached && r.bridge == m.bridge && r.viewer == m.viewer
            &&& r.recording == m.recording && r.spec == m.spec && r.accel == m.accel
            &&& r.generation == m.generation
        }),
{
}

/// Generations count up by one, and from the last one on from the first.
pub proof fn generations_count_up(g: u64)
    ensures
        g < u64::MAX ==> next_generation(g) == g + 1,
        next_generation(u64::MAX) == 0,
{
}

/// A model is valid exactly where an Instance is attached in the two states that have one, with its
/// spec and its accelerator, and nothing that belongs to one exists without it.
pub proof fn valid_models_have_an_instance_or_none(m: OrchestratorModel)
    ensures
        m.valid() && m.attached ==> (m.state == InstanceState::Running || m.state
            == InstanceState::Paused) && m.spec is Some && m.accel is Some,
        m.valid() && !m.attached ==> m.state != InstanceState::Running && m.state
            != InstanceState::Paused && m.spec is None && m.accel is None && !m.bridge && !m.viewer
            && m.recording is None,
        m.valid() ==> m.buffer.valid(),
{
}

/// The lifecycle runs from none over starting to running or paused, between these two, and over
/// stopped back to none. A create that fails goes straight back.
pub proof fn the_lifecycle_keeps_its_course(from: InstanceState, to: InstanceState)
    ensures
        follows(from, to) <==> ((from == InstanceState::NoInstance && to == InstanceState::Starting)
            || (from == InstanceState::Starting && to == InstanceState::Running) || (from
            == InstanceState::Starting && to == InstanceState::Paused) || (from
            == InstanceState::Starting && to == InstanceState::NoInstance) || (from
            == InstanceState::Running && to == InstanceState::Paused) || (from
            == InstanceState::Paused && to == InstanceState::Running) || (from
            == InstanceState::Running && to == InstanceState::Stopped) || (from
            == InstanceState::Paused && to == InstanceState::Stopped) || (from
            == InstanceState::Stopped && to == InstanceState::NoInstance)),
        keeps_course(from, to) <==> from == to || follows(from, to),
{
}

/// A refusal says what cannot be done without an Instance, or in which state the Instance is that
/// is in the way.
pub proof fn refusals_say_what_is_in_the_way(action: Seq<char>, state: InstanceState)
    ensures
        no_instance(action) == "No Instance is running, so there is nothing to "@ + action
            + ". Create one with create_instance first."@,
        already_exists(state) == "An Instance already exists (state "@ + state.name()
            + "). Only one Instance may run at a time — destroy it with destroy_instance before creating a new one."@,
{
}

/// A Viewer is configured where its password is not empty, and a share where its directory is not
/// blank.
pub proof fn viewers_need_a_password_and_shares_a_directory(options: OrchestratorOptions)
    ensures
        viewer_configured(options) <==> options.viewer_password is Some
            && options.viewer_password->0@.len() > 0,
        share_configured(options) <==> options.host_share_dir is Some && !text::is_blank(
            options.host_share_dir->0@,
        ),
{
}

/// The binary is the one that is set, or the emulator of the machine. The accelerator is chosen for
/// the architecture of that binary on this host.
pub proof fn binaries_can_be_overridden(
    options: OrchestratorOptions,
    spec: HardwareSpec,
    kvm: bool,
)
    ensures
        options.qemu_binary_override matches Some(b) ==> binary_for(options, spec) == b@,
        options.qemu_binary_override is None ==> binary_for(options, spec) == accel::emulator(
            spec.machine@,
        ),
        accel_for(options, spec, kvm) == accel::guest_choice(
            spec.accel,
            accel::arch_of(binary_for(options, spec)),
            options.host_arch@,
            spec.machine@,
            kvm,
        ),
{
}

/// The arguments are generated under what is configured: the socket, the stores, the range, the
/// caps and the permissions, with the accelerator that was chosen.
pub proof fn arguments_follow_the_configuration(options: OrchestratorOptions, accel: Accel)
    ensures
        ({
            let a = argv_settings(options, accel);
            &&& a.accel == accel
            &&& a.qmp_socket_path@ == options.qmp_socket_path@
            &&& a.image_dir == options.image_dir
            &&& a.iso_dir == options.iso_dir
            &&& a.hostfwd_port_range == options.hostfwd_port_range
            &&& a.allow_host_net == options.allow_host_net
            &&& a.max_memory_mb == options.max_memory_mb
            &&& a.max_vcpus == options.max_vcpus
            &&& a.allow_raw_args == options.allow_raw_args
        }),
{
}

/// An Instance can be launched exactly where its Viewer and its share, if it asks for them, are
/// configured, an accelerator can be chosen, its arguments can be generated, and its log has a
/// place if it is spooled. The first of these that is not so is what the refusal is about.
pub proof fn launches_are_refused_for_what_is_missing(
    options: OrchestratorOptions,
    spec: HardwareSpec,
    kvm: bool,
    stores: Stores,
)
    ensures
        ({
            let r = launch_refusal(options, spec, kvm, stores);
            let viewer = spec.display == DisplayMode::Vnc ==> viewer_configured(options);
            let share = spec.share ==> share_configured(options);
            let choice = accel_for(options, spec, kvm);
            let args = argv::argv(spec, argv_settings(options, choice->Ok_0.0), stores);
            let spools = spec.serial && options.serial_backend == SerialBackend::Spool;
            let spool = serial::spool_target(
                text::string_of(options.serial_spool_dir),
                text::string_of(spec.serial_spool),
            );
            &&& r is None <==> viewer && share && choice is Ok && args is Ok && (spools ==> spool
                is Ok)
            &&& !viewer ==> r == Some(viewer_refusal())
            &&& viewer && !share ==> r == Some(share_refusal())
            &&& viewer && share && choice is Err ==> r == Some(choice->Err_0)
            &&& viewer && share && choice is Ok && args is Err ==> r == Some(args->Err_0)
            &&& viewer && share && choice is Ok && args is Ok && spools && spool is Err ==> r
                == Some(spool->Err_0)
        }),
{
}

/// A plan launches the spec that it was made for, with the binary, the arguments and the
/// accelerator for it, over the configured socket. It has a log exactly where the Serial Port is
/// spooled, and a serial socket, beside the QMP one, exactly where it is a socket.
pub proof fn plans_launch_the_spec(
    options: OrchestratorOptions,
    spec: HardwareSpec,
    kvm: bool,
    stores: Stores,
    plan: LaunchPlan,
)
    requires
        is_plan(options, spec, kvm, stores, plan),
    ensures
        plan.spec == spec,
        accel_for(options, spec, kvm) is Ok,
        plan.resolution.accel == accel_for(options, spec, kvm)->Ok_0.0,
        plan.resolution.reason@ == accel_for(options, spec, kvm)->Ok_0.1,
        plan.resolution.requested == spec.accel,
        plan.request.binary@ == binary_for(options, spec),
        plan.request.qmp_socket_path@ == options.qmp_socket_path@,
        argv::argv(spec, argv_settings(options, plan.resolution.accel), stores) is Ok,
        plan.request.argv@.len() == argv::argv(
            spec,
            argv_settings(options, plan.resolution.accel),
            stores,
        )->Ok_0.len(),
        forall|i: int|
            0 <= i < plan.request.argv@.len() ==> (#[trigger] plan.request.argv@[i])@ == argv::argv(
                spec,
                argv_settings(options, plan.resolution.accel),
                stores,
            )->Ok_0[i],
        plan.spool_path is Some <==> spec.serial && options.serial_backend == SerialBackend::Spool,
        plan.spool_path matches Some(p) ==> p@ == serial::spool_target(
            text::string_of(options.serial_spool_dir),
            text::string_of(spec.serial_spool),
        )->Ok_0,
        plan.serial_socket is Some <==> spec.serial && options.serial_backend
            == SerialBackend::Socket,
        plan.serial_socket matches Some(p) ==> p@ == serial::directory(options.qmp_socket_path@)
            + "serial.sock"@,
{
    let all = argv::argv(spec, argv_settings(options, plan.resolution.accel), stores)->Ok_0;
    assert(text::texts(plan.request.argv@) == all);
    assert forall|i: int| 0 <= i < plan.request.argv@.len() implies (
    #[trigger] plan.request.argv@[i])@ == all[i] by {
        assert(text::texts(plan.request.argv@)[i] == plan.request.argv@[i]@);
    }
}

/// The buffer holds as many events as are configured, or the default number of them.
pub proof fn buffers_are_as_large_as_configured(options: OrchestratorOptions)
    ensures
        options.event_buffer_size matches Some(n) ==> buffer_capacity(options) == n,
        options.event_buffer_size is None ==> buffer_capacity(options) == 256,
{
}

/// A screenshot is asked for as a PNG in the file that is named.
pub proof fn screendumps_name_their_file(filename: Seq<char>)
    ensures
        screendump_args(filename) == "{\"filename\":"@ + json::json_quoted(filename)
            + ",\"format\":\"png\"}"@,
        text::has_infix(screendump_args(filename), json::json_quoted(filename)),
{
    text::parts_are_found(
        "{\"filename\":"@,
        json::json_quoted(filename),
        ",\"format\":\"png\"}"@,
        screendump_args(filename),
    );
}

/// A recording can start exactly where an Instance with a display adapter exists, recording is
/// available, none is running, and its file has a place. The first of these that is not so is what
/// the refusal is about.
pub proof fn recordings_are_refused_for_what_is_missing(
    m: OrchestratorModel,
    name: Option<Seq<char>>,
    stamp: Stamp,
    encoder_present: bool,
)
    ensures
        ({
            let r = recording_refusal(m, name, stamp, encoder_present);
            let adapter = m.spec is Some && m.spec->0.display_device != DisplayDevice::NoDevice;
            let can = recording::capability_of(
                text::string_of(m.options.ffmpeg_binary),
                text::string_of(m.options.recording_dir),
                m.options.recording_codec@,
                encoder_present,
            );
            let target = recording::recording_target(
                text::string_of(m.options.recording_dir),
                name,
                stamp,
            );
            &&& r is None <==> m.attached && adapter && can.0 && m.recording is None && target is Ok
            &&& !m.attached ==> r == Some(no_instance("start a display recording"@))
            &&& m.attached && !adapter ==> r == Some(
                "The running Instance has no display adapter (displayDevice is \"none\"), so there is no framebuffer to record. Recreate it with a displayDevice such as \"virtio-gpu\", \"vga\", or \"ramfb\"."@,
            )
            &&& m.attached && adapter && !can.0 ==> r == Some(can.1)
            &&& m.attached && adapter && can.0 && m.recording is Some ==> r == Some(
                "A display recording is already running. Stop it with stop_recording before starting another."@,
            )
            &&& m.attached && adapter && can.0 && m.recording is None && target is Err ==> r
                == Some(target->Err_0)
        }),
{
}

/// A recording runs the configured program with the configured codec, quality and format, writes
/// the file that is reported, and is paced by the configured rate.
pub proof fn recordings_run_as_configured(
    m: OrchestratorModel,
    name: Option<Seq<char>>,
    stamp: Stamp,
    plan: RecordingPlan,
)
    requires
        is_recording_plan(m, name, stamp, plan),
    ensures
        m.options.ffmpeg_binary == Some(plan.ffmpeg),
        text::texts(plan.args@) == recording::ffmpeg_args(
            m.options.recording_codec@,
            m.options.recording_crf as nat,
            m.options.recording_pixfmt@,
            plan.recording.path@,
        ),
        plan.recording.path@ == recording::recording_target(
            text::string_of(m.options.recording_dir),
            name,
            stamp,
        )->Ok_0,
        plan.recording.name@ == recording::recording_file(name, stamp),
        plan.recording.codec@ == m.options.recording_codec@,
        plan.interval_ms == recording::interval_of(m.options.recording_max_fps),
{
}

/// What is missing, switched off or not possible is said in these words, which name the setting
/// that changes it.
pub proof fn refusals_name_their_settings()
    ensures
        viewer_refusal()
            == "The Hardware Spec requested display \"vnc\", which starts the noVNC Viewer, but QMP_MCP_VIEWER_PASSWORD is not set. Set QMP_MCP_VIEWER_PASSWORD to a strong password to enable the Viewer, or use display \"none\" for a headless Instance."@,
        share_refusal()
            == "The Hardware Spec requested share: true, but folder sharing is not configured on this server (QMP_MCP_HOST_SHARE_DIR is unset). Set QMP_MCP_HOST_SHARE_DIR to the host folder to share, or remove share."@,
        bridge_missing()
            == "The Serial Port socket bridge is not attached — create an Instance with serial: true (backend QMP_MCP_SERIAL_BACKEND=socket) first."@,
        spool_is_output_only()
            == "The spool Serial Port backend is output-only; writing needs the ringbuf backend (unset QMP_MCP_SERIAL_BACKEND or set it to ringbuf)."@,
        writing_disabled()
            == "Writing to the Serial Port is disabled. Set QMP_MCP_ALLOW_SERIAL_WRITE=true to enable write_serial (it types raw input into the guest console)."@,
        serial_hint()
            == "Set serial: true on create_instance to attach the Serial Port, then read its output with read_serial (ringbuf and socket drain on read; spool tails a persistent file). The socket backend also makes write_serial a real interactive console — typed input reaches the guest as a connected serial line. The guest must use the shown console device in its own console= kernel cmdline for output to appear; raspi* boards have two UARTs and may need adjusting."@,
{
}

} // verus!
