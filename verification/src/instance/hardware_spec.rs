//! The Hardware Spec: the structured, validated description of an Instance's hardware.
//!
//! Closed sets are enums, and the free-text fields that reach an option string are wrapped
//! in types whose only constructor checks them.

use vstd::prelude::*;

use crate::config;
use crate::instance::image_store::ImageFormat;
use crate::text;

verus! {

// ---------------------------------------------------------------------------
// Closed sets
// ---------------------------------------------------------------------------

/// The requested accelerator.
#[derive(Debug, Clone, Copy, PartialEq, Eq, Structural)]
pub enum AccelMode {
    /// Use KVM when it is accessible, else fall back to TCG.
    Auto,
    /// Require KVM; fail closed when it is inaccessible.
    Kvm,
    /// Software emulation; always available.
    Tcg,
}

impl Default for AccelMode {
    fn default() -> (r: AccelMode)
        ensures
            r == AccelMode::Auto,
    {
        AccelMode::Auto
    }
}

/// A concrete accelerator that QEMU is launched with.
#[derive(Debug, Clone, Copy, PartialEq, Eq, Structural)]
pub enum Accel {
    /// Hardware acceleration via `/dev/kvm`.
    Kvm,
    /// TCG software emulation.
    Tcg,
}

impl Accel {
    /// Canonical spelling.
    pub open spec fn name(self) -> Seq<char> {
        match self {
            Accel::Kvm => "kvm"@,
            Accel::Tcg => "tcg"@,
        }
    }

    /// Canonical spelling emitted into the `-machine accel=` property.
    pub fn as_str(self) -> (r: &'static str)
        ensures
            r@ == self.name(),
    {
        match self {
            Accel::Kvm => "kvm",
            Accel::Tcg => "tcg",
        }
    }
}

/// Guest Display modes.
#[derive(Debug, Clone, Copy, PartialEq, Eq, Structural)]
pub enum DisplayMode {
    /// No display backend at all (default).
    NoDisplay,
    /// A loopback-only VNC Display.
    Vnc,
}

impl Default for DisplayMode {
    fn default() -> (r: DisplayMode)
        ensures
            r == DisplayMode::NoDisplay,
    {
        DisplayMode::NoDisplay
    }
}

/// The display adapter of the machine. A recording needs one: without it there is no
/// framebuffer to capture.
#[derive(Debug, Clone, Copy, PartialEq, Eq, Structural)]
pub enum DisplayDevice {
    /// No display adapter (default).
    NoDevice,
    /// A virtio GPU.
    VirtioGpu,
    /// A standard VGA adapter.
    Vga,
    /// A RAM framebuffer.
    Ramfb,
}

impl Default for DisplayDevice {
    fn default() -> (r: DisplayDevice)
        ensures
            r == DisplayDevice::NoDevice,
    {
        DisplayDevice::NoDevice
    }
}

/// Guest-visible disk controller a disk attaches through.
#[derive(Debug, Clone, Copy, PartialEq, Eq, Structural)]
pub enum DiskInterface {
    /// Paravirtual virtio-blk (default).
    Virtio,
    /// Emulated IDE.
    Ide,
    /// Emulated SCSI.
    Scsi,
    /// SD/MMC slot the `raspi*` boards boot from.
    Sd,
}

impl DiskInterface {
    /// Canonical spelling.
    pub open spec fn name(self) -> Seq<char> {
        match self {
            DiskInterface::Virtio => "virtio"@,
            DiskInterface::Ide => "ide"@,
            DiskInterface::Scsi => "scsi"@,
            DiskInterface::Sd => "sd"@,
        }
    }

    /// Canonical spelling emitted into the `-drive if=` property.
    pub fn as_str(self) -> (r: &'static str)
        ensures
            r@ == self.name(),
    {
        match self {
            DiskInterface::Virtio => "virtio",
            DiskInterface::Ide => "ide",
            DiskInterface::Scsi => "scsi",
            DiskInterface::Sd => "sd",
        }
    }
}

impl Default for DiskInterface {
    fn default() -> (r: DiskInterface)
        ensures
            r == DiskInterface::Virtio,
    {
        DiskInterface::Virtio
    }
}

/// Guest NIC models.
#[derive(Debug, Clone, Copy, PartialEq, Eq, Structural)]
pub enum NicModel {
    /// Paravirtual virtio NIC (default). PCI.
    VirtioNetPci,
    /// Emulated Intel e1000. PCI.
    E1000,
    /// Emulated Realtek RTL8139. PCI.
    Rtl8139,
    /// USB NIC, for boards with a USB bus but no PCI.
    UsbNet,
}

impl NicModel {
    /// Canonical spelling.
    pub open spec fn name(self) -> Seq<char> {
        match self {
            NicModel::VirtioNetPci => "virtio-net-pci"@,
            NicModel::E1000 => "e1000"@,
            NicModel::Rtl8139 => "rtl8139"@,
            NicModel::UsbNet => "usb-net"@,
        }
    }

    /// Canonical spelling emitted into the `-device` model field.
    pub fn as_str(self) -> (r: &'static str)
        ensures
            r@ == self.name(),
    {
        match self {
            NicModel::VirtioNetPci => "virtio-net-pci",
            NicModel::E1000 => "e1000",
            NicModel::Rtl8139 => "rtl8139",
            NicModel::UsbNet => "usb-net",
        }
    }

    /// Whether this NIC attaches to a PCI bus (everything except `usb-net`).
    pub fn is_pci(self) -> (r: bool)
        ensures
            r == (self != NicModel::UsbNet),
    {
        match self {
            NicModel::UsbNet => false,
            _ => true,
        }
    }
}

impl Default for NicModel {
    fn default() -> (r: NicModel)
        ensures
            r == NicModel::VirtioNetPci,
    {
        NicModel::VirtioNetPci
    }
}

/// Guest networking backend.
#[derive(Debug, Clone, Copy, PartialEq, Eq, Structural)]
pub enum NetworkMode {
    /// User-mode NAT (default).
    User,
    /// Host TAP device (needs the operator's consent).
    Tap,
    /// Host bridge (needs the operator's consent).
    Bridge,
    /// No NIC at all.
    NoNetwork,
}

impl NetworkMode {
    /// Canonical spelling.
    pub open spec fn name(self) -> Seq<char> {
        match self {
            NetworkMode::User => "user"@,
            NetworkMode::Tap => "tap"@,
            NetworkMode::Bridge => "bridge"@,
            NetworkMode::NoNetwork => "none"@,
        }
    }

    /// Canonical spelling emitted into the `-netdev` backend field.
    pub fn as_str(self) -> (r: &'static str)
        ensures
            r@ == self.name(),
    {
        match self {
            NetworkMode::User => "user",
            NetworkMode::Tap => "tap",
            NetworkMode::Bridge => "bridge",
            NetworkMode::NoNetwork => "none",
        }
    }
}

impl Default for NetworkMode {
    fn default() -> (r: NetworkMode)
        ensures
            r == NetworkMode::User,
    {
        NetworkMode::User
    }
}

/// Transport protocol for a user-mode port-forward.
#[derive(Debug, Clone, Copy, PartialEq, Eq, Structural)]
pub enum NetProtocol {
    /// TCP (default).
    Tcp,
    /// UDP.
    Udp,
}

impl NetProtocol {
    /// Canonical spelling.
    pub open spec fn name(self) -> Seq<char> {
        match self {
            NetProtocol::Tcp => "tcp"@,
            NetProtocol::Udp => "udp"@,
        }
    }

    /// Canonical spelling emitted into the `hostfwd=` value.
    pub fn as_str(self) -> (r: &'static str)
        ensures
            r@ == self.name(),
    {
        match self {
            NetProtocol::Tcp => "tcp",
            NetProtocol::Udp => "udp",
        }
    }
}

impl Default for NetProtocol {
    fn default() -> (r: NetProtocol)
        ensures
            r == NetProtocol::Tcp,
    {
        NetProtocol::Tcp
    }
}

// ---------------------------------------------------------------------------
// Errors
// ---------------------------------------------------------------------------

/// Raised when a candidate Hardware Spec fails validation, or when argv generation refuses a
/// spec.
#[derive(Debug, Clone, PartialEq, Eq)]
pub struct HardwareSpecError(pub String);

/// A value, or a refusal, is what the specification gives.
pub open spec fn agrees<T>(r: Result<T, HardwareSpecError>, s: Result<T, Seq<char>>) -> bool {
    match (r, s) {
        (Ok(a), Ok(b)) => a == b,
        (Err(e), Err(m)) => e.0@ == m,
        _ => false,
    }
}

/// A path, or a refusal, is what the specification gives.
pub open spec fn path_agrees(
    r: Result<String, HardwareSpecError>,
    s: Result<Seq<char>, Seq<char>>,
) -> bool {
    match (r, s) {
        (Ok(a), Ok(b)) => a@ == b,
        (Err(e), Err(m)) => e.0@ == m,
        _ => false,
    }
}

/// Arguments, or a refusal, are what the specification gives.
pub open spec fn args_agree(
    r: Result<Vec<String>, HardwareSpecError>,
    s: Result<Seq<Seq<char>>, Seq<char>>,
) -> bool {
    match (r, s) {
        (Ok(a), Ok(b)) => text::texts(a@) == b,
        (Err(e), Err(m)) => e.0@ == m,
        _ => false,
    }
}

// ---------------------------------------------------------------------------
// Checked texts
// ---------------------------------------------------------------------------

/// How a bad machine or CPU name is explained.
pub const MACHINE_CPU_MESSAGE: &'static str =
    "must match ^[A-Za-z0-9][A-Za-z0-9._+-]* — letters, digits, dot, underscore, plus, or hyphen, with no leading hyphen and no comma, space, or '=' (these could inject QEMU -machine/-cpu properties).";

/// How a bad boot order is explained.
pub const BOOT_ORDER_MESSAGE: &'static str =
    "boot must match ^[a-dnp]+ — one or more QEMU boot drive letters (a/b floppy, c disk, d cd-rom, n-p network), with no comma, '=', or spaces (these could inject extra -boot options).";

/// How a bad kernel command line is explained.
pub const APPEND_CMDLINE_MESSAGE: &'static str =
    "appendCmdline must be a single line of printable characters (no control characters or newlines). It is emitted as one -append token, so spaces are fine.";

/// What every validation message starts with.
pub const INVALID: &'static str = "Invalid Hardware Spec — ";

/// A character of a machine or CPU name after the first one.
pub open spec fn is_model_char(c: char) -> bool {
    text::is_alphanumeric(c) || c == '.' || c == '_' || c == '+' || c == '-'
}

/// A machine or CPU name: a letter or digit, then letters, digits, `.`, `_`, `+` or `-`.
pub open spec fn is_model_name(s: Seq<char>) -> bool {
    &&& s.len() > 0
    &&& text::is_alphanumeric(s[0])
    &&& forall|i: int| 0 <= i < s.len() ==> is_model_char(#[trigger] s[i])
}

/// One of the drive letters that a boot order is made of.
pub open spec fn is_boot_letter(c: char) -> bool {
    'a' <= c <= 'd' || c == 'n' || c == 'p'
}

/// A boot order: one or more drive letters.
pub open spec fn is_boot_order(s: Seq<char>) -> bool {
    s.len() > 0 && forall|i: int| 0 <= i < s.len() ==> is_boot_letter(#[trigger] s[i])
}

fn is_valid_machine_cpu(s: &str) -> (r: bool)
    ensures
        r == is_model_name(s@),
{
    let x = text::to_chars(s);
    if x.len() == 0 || !text::alphanumeric(x[0]) {
        return false;
    }
    let mut i: usize = 0;
    while i < x.len()
        invariant
            i <= x.len(),
            x@ == s@,
            forall|j: int| 0 <= j < i ==> is_model_char(#[trigger] x@[j]),
        decreases x.len() - i,
    {
        let c = x[i];
        if !(text::alphanumeric(c) || c == '.' || c == '_' || c == '+' || c == '-') {
            assert(!is_model_char(s@[i as int]));
            return false;
        }
        i = i + 1;
    }
    true
}

fn is_valid_boot_order(s: &str) -> (r: bool)
    ensures
        r == is_boot_order(s@),
{
    let x = text::to_chars(s);
    if x.len() == 0 {
        return false;
    }
    let mut i: usize = 0;
    while i < x.len()
        invariant
            i <= x.len(),
            x@ == s@,
            forall|j: int| 0 <= j < i ==> is_boot_letter(#[trigger] x@[j]),
        decreases x.len() - i,
    {
        let c = x[i];
        if !(('a' <= c && c <= 'd') || c == 'n' || c == 'p') {
            assert(!is_boot_letter(s@[i as int]));
            return false;
        }
        i = i + 1;
    }
    true
}

/// A checked `-machine`/`-cpu` model name.
#[derive(Debug, PartialEq, Eq)]
pub struct MachineCpu(String);

impl View for MachineCpu {
    type V = Seq<char>;

    closed spec fn view(&self) -> Seq<char> {
        self.0@
    }
}

impl Clone for MachineCpu {
    fn clone(&self) -> (r: MachineCpu)
        ensures
            r@ == self@,
    {
        proof {
            use_type_invariant(self);
        }
        MachineCpu(self.0.clone())
    }
}

/// The message for a bad machine or CPU name.
pub open spec fn model_error(field: Seq<char>) -> Seq<char> {
    INVALID@ + field + ": "@ + field + " "@ + MACHINE_CPU_MESSAGE@ + "."@
}

impl MachineCpu {
    #[verifier::type_invariant]
    spec fn is_checked(self) -> bool {
        is_model_name(self.0@)
    }

    /// Check `raw` for the named field (`machine` or `cpu`).
    pub fn parse(field: &str, raw: &str) -> (r: Result<MachineCpu, HardwareSpecError>)
        ensures
            match r {
                Ok(m) => is_model_name(raw@) && m@ == raw@,
                Err(e) => !is_model_name(raw@) && e.0@ == model_error(field@),
            },
    {
        if is_valid_machine_cpu(raw) {
            Ok(MachineCpu(raw.to_string()))
        } else {
            let mut m = text::cat5(INVALID, field, ": ", field, " ");
            m.append(MACHINE_CPU_MESSAGE);
            m.append(".");
            Err(HardwareSpecError(m))
        }
    }

    /// The checked model name.
    pub fn as_str(&self) -> (r: &str)
        ensures
            r@ == self@,
            is_model_name(r@),
    {
        proof {
            use_type_invariant(self);
        }
        self.0.as_str()
    }
}

/// A checked `-boot order=` value.
#[derive(Debug, PartialEq, Eq)]
pub struct BootOrder(String);

impl View for BootOrder {
    type V = Seq<char>;

    closed spec fn view(&self) -> Seq<char> {
        self.0@
    }
}

impl Clone for BootOrder {
    fn clone(&self) -> (r: BootOrder)
        ensures
            r@ == self@,
    {
        proof {
            use_type_invariant(self);
        }
        BootOrder(self.0.clone())
    }
}

/// The message for a bad boot order.
pub open spec fn boot_error() -> Seq<char> {
    INVALID@ + "boot: "@ + BOOT_ORDER_MESSAGE@ + "."@
}

impl BootOrder {
    #[verifier::type_invariant]
    spec fn is_checked(self) -> bool {
        is_boot_order(self.0@)
    }

    /// Check a boot-order string.
    pub fn parse(raw: &str) -> (r: Result<BootOrder, HardwareSpecError>)
        ensures
            match r {
                Ok(b) => is_boot_order(raw@) && b@ == raw@,
                Err(e) => !is_boot_order(raw@) && e.0@ == boot_error(),
            },
    {
        if is_valid_boot_order(raw) {
            Ok(BootOrder(raw.to_string()))
        } else {
            Err(HardwareSpecError(text::cat4(INVALID, "boot: ", BOOT_ORDER_MESSAGE, ".")))
        }
    }

    /// The checked boot order.
    pub fn as_str(&self) -> (r: &str)
        ensures
            r@ == self@,
            is_boot_order(r@),
    {
        proof {
            use_type_invariant(self);
        }
        self.0.as_str()
    }
}

// ---------------------------------------------------------------------------
// Candidate specs
// ---------------------------------------------------------------------------

/// A single guest disk as requested.
#[derive(Debug, Clone, PartialEq, Eq)]
pub struct DiskParams {
    /// Name of a disk image in the Image Store.
    pub image: String,
    /// Disk controller.
    pub interface: DiskInterface,
    /// Image format pinned explicitly into argv.
    pub format: ImageFormat,
    /// Attach the disk read-only.
    pub readonly: bool,
}

/// A CD-ROM drive as requested.
#[derive(Debug, Clone, PartialEq, Eq)]
pub struct CdromParams {
    /// Name of an ISO in the read-only ISO Store.
    pub iso: String,
}

/// A single user-mode port-forward as requested.
#[derive(Debug, Clone, PartialEq, Eq)]
pub struct HostForwardParams {
    /// Host port to bind.
    pub host_port: i64,
    /// Guest port the forward targets.
    pub guest_port: i64,
    /// Forward protocol.
    pub proto: NetProtocol,
}

/// The guest NIC as requested.
#[derive(Debug, Clone, PartialEq, Eq)]
pub struct NetworkParams {
    /// Networking backend.
    pub mode: NetworkMode,
    /// Guest NIC model.
    pub model: NicModel,
    /// User-mode inbound port-forwards.
    pub host_forwards: Vec<HostForwardParams>,
}

impl Default for NetworkParams {
    fn default() -> (r: NetworkParams)
        ensures
            r.mode == NetworkMode::User,
            r.model == NicModel::VirtioNetPci,
            r.host_forwards@.len() == 0,
    {
        NetworkParams {
            mode: NetworkMode::User,
            model: NicModel::VirtioNetPci,
            host_forwards: Vec::new(),
        }
    }
}

/// A candidate Hardware Spec: its closed sets are already enums, its texts and numbers are
/// not checked yet.
#[derive(Debug, Clone, PartialEq, Eq)]
pub struct HardwareSpecParams {
    /// QEMU machine type.
    pub machine: String,
    /// CPU model passed to `-cpu`.
    pub cpu: String,
    /// Number of virtual CPUs (1-255).
    pub vcpus: i64,
    /// Guest RAM in MiB (1-1048576).
    pub memory_mb: i64,
    /// Accelerator selection.
    pub accel: AccelMode,
    /// Guest Display mode.
    pub display: DisplayMode,
    /// Display adapter. It decides whether the display can be recorded, and adds no argument to
    /// the command line.
    pub display_device: DisplayDevice,
    /// Guest disks, each referencing an image by name in the Image Store.
    pub disks: Vec<DiskParams>,
    /// Optional CD-ROM drive backed by an ISO from the read-only ISO Store.
    pub cdrom: Option<CdromParams>,
    /// Optional boot order as QEMU drive letters.
    pub boot: Option<String>,
    /// Optional kernel image to direct-boot, by name in the Image Store.
    pub kernel: Option<String>,
    /// Optional initial RAM disk, by name in the Image Store. Requires `kernel`.
    pub initrd: Option<String>,
    /// Optional device tree blob, by name in the Image Store. Requires `kernel`.
    pub dtb: Option<String>,
    /// Optional kernel command line. Requires `kernel`.
    pub append_cmdline: Option<String>,
    /// Whether the host folder is shared. It is refused where none is configured, and adds no
    /// argument to the command line.
    pub share: bool,
    /// Whether a Serial Port is attached. It decides how the port is prepared, read and written
    /// to, and adds no argument to the command line.
    pub serial: bool,
    /// Optional name that the spooled Serial Port log is kept under. It adds no argument to the
    /// command line.
    pub serial_spool: Option<String>,
    /// Guest NIC.
    pub network: NetworkParams,
    /// Raw QEMU arguments; refused unless the operator enabled them.
    pub extra_args: Option<Vec<String>>,
}

/// The machine a spec has unless it names one.
pub fn default_machine() -> (r: String)
    ensures
        r@ == "q35"@,
{
    "q35".to_string()
}

/// The CPU model a spec has unless it names one.
pub fn default_cpu() -> (r: String)
    ensures
        r@ == "max"@,
{
    "max".to_string()
}

/// The number of virtual CPUs a spec has unless it names one.
pub fn default_vcpus() -> (r: i64)
    ensures
        r == 1,
{
    1
}

/// The guest RAM in MiB a spec has unless it names one.
pub fn default_memory_mb() -> (r: i64)
    ensures
        r == 256,
{
    256
}

impl Default for HardwareSpecParams {
    /// The candidate in which nothing is requested.
    fn default() -> (r: HardwareSpecParams)
        ensures
            r.machine@ == "q35"@,
            r.cpu@ == "max"@,
            r.vcpus == 1,
            r.memory_mb == 256,
            r.accel == AccelMode::Auto,
            r.display == DisplayMode::NoDisplay,
            r.display_device == DisplayDevice::NoDevice,
            r.disks@.len() == 0,
            r.cdrom is None,
            r.boot is None,
            r.kernel is None,
            r.initrd is None,
            r.dtb is None,
            r.append_cmdline is None,
            !r.share,
            !r.serial,
            r.serial_spool is None,
            r.network.mode == NetworkMode::User,
            r.network.model == NicModel::VirtioNetPci,
            r.network.host_forwards@.len() == 0,
            r.extra_args is None,
    {
        HardwareSpecParams {
            machine: default_machine(),
            cpu: default_cpu(),
            vcpus: default_vcpus(),
            memory_mb: default_memory_mb(),
            accel: AccelMode::Auto,
            display: DisplayMode::NoDisplay,
            display_device: DisplayDevice::NoDevice,
            disks: Vec::new(),
            cdrom: None,
            boot: None,
            kernel: None,
            initrd: None,
            dtb: None,
            append_cmdline: None,
            share: false,
            serial: false,
            serial_spool: None,
            network: NetworkParams::default(),
            extra_args: None,
        }
    }
}

// ---------------------------------------------------------------------------
// Validated specs
// ---------------------------------------------------------------------------

/// A validated disk entry. Its name is checked against the Image Store when the argv is
/// generated.
#[derive(Debug, PartialEq, Eq)]
pub struct Disk {
    /// Bare image name in the Image Store.
    pub image: String,
    /// Disk controller.
    pub interface: DiskInterface,
    /// Explicit image format.
    pub format: ImageFormat,
    /// Whether the disk is attached read-only.
    pub readonly: bool,
}

impl Clone for Disk {
    fn clone(&self) -> (r: Disk)
        ensures
            r == *self,
    {
        Disk {
            image: self.image.clone(),
            interface: self.interface,
            format: self.format,
            readonly: self.readonly,
        }
    }
}

/// A validated CD-ROM entry.
#[derive(Debug, PartialEq, Eq)]
pub struct Cdrom {
    /// Bare ISO name in the ISO Store.
    pub iso: String,
}

impl Clone for Cdrom {
    fn clone(&self) -> (r: Cdrom)
        ensures
            r == *self,
    {
        Cdrom { iso: self.iso.clone() }
    }
}

/// A validated port-forward.
#[derive(Debug, Clone, Copy, PartialEq, Eq, Structural)]
pub struct HostForward {
    /// Host port (1-65535; bounded further to the configured range in the argv).
    pub host_port: u16,
    /// Guest port (1-65535).
    pub guest_port: u16,
    /// Forward protocol.
    pub proto: NetProtocol,
}

/// A validated guest NIC.
#[derive(Debug, PartialEq, Eq)]
pub struct Network {
    /// Networking backend.
    pub mode: NetworkMode,
    /// Guest NIC model.
    pub model: NicModel,
    /// User-mode inbound port-forwards.
    pub host_forwards: Vec<HostForward>,
}

impl Clone for Network {
    fn clone(&self) -> (r: Network)
        ensures
            r.mode == self.mode,
            r.model == self.model,
            r.host_forwards@ == self.host_forwards@,
    {
        let mut forwards: Vec<HostForward> = Vec::new();
        let mut i: usize = 0;
        while i < self.host_forwards.len()
            invariant
                i <= self.host_forwards.len(),
                forwards@ == self.host_forwards@.take(i as int),
            decreases self.host_forwards.len() - i,
        {
            forwards.push(self.host_forwards[i]);
            i = i + 1;
            assert(self.host_forwards@.take(i as int) == self.host_forwards@.take(i - 1).push(
                self.host_forwards@[i - 1],
            ));
        }
        assert(self.host_forwards@.take(self.host_forwards@.len() as int)
            == self.host_forwards@);
        Network { mode: self.mode, model: self.model, host_forwards: forwards }
    }
}

/// A fully validated Hardware Spec.
#[derive(Debug, PartialEq, Eq)]
pub struct HardwareSpec {
    /// Checked machine type.
    pub machine: MachineCpu,
    /// Checked CPU model.
    pub cpu: MachineCpu,
    /// Virtual CPUs (1-255).
    pub vcpus: u32,
    /// Guest RAM in MiB (1-1048576).
    pub memory_mb: u32,
    /// Requested accelerator mode.
    pub accel: AccelMode,
    /// Guest Display mode.
    pub display: DisplayMode,
    /// Display adapter. It decides whether the display can be recorded, and adds no argument to
    /// the command line.
    pub display_device: DisplayDevice,
    /// Guest disks.
    pub disks: Vec<Disk>,
    /// Optional CD-ROM.
    pub cdrom: Option<Cdrom>,
    /// Optional checked boot order.
    pub boot: Option<BootOrder>,
    /// Optional kernel image (by name in the Image Store) to direct-boot.
    pub kernel: Option<String>,
    /// Optional initial RAM disk (by name in the Image Store). Only set with `kernel`.
    pub initrd: Option<String>,
    /// Optional device tree blob (by name in the Image Store). Only set with `kernel`.
    pub dtb: Option<String>,
    /// Optional kernel command line. Only set with `kernel`.
    pub append_cmdline: Option<String>,
    /// Whether the host folder is shared. It is refused where none is configured, and adds no
    /// argument to the command line.
    pub share: bool,
    /// Whether a Serial Port is attached. It decides how the port is prepared, read and written
    /// to, and adds no argument to the command line.
    pub serial: bool,
    /// Optional name that the spooled Serial Port log is kept under. It adds no argument to the
    /// command line.
    pub serial_spool: Option<String>,
    /// Guest NIC.
    pub network: Network,
    /// Optional raw arguments.
    pub extra_args: Option<Vec<String>>,
}

/// Two optional texts are the same.
pub open spec fn same_name(a: Option<String>, b: Option<String>) -> bool {
    text::string_of(a) == text::string_of(b)
}

/// Two optional lists of arguments are the same.
pub open spec fn same_args(a: Option<Vec<String>>, b: Option<Vec<String>>) -> bool {
    match (a, b) {
        (None, None) => true,
        (Some(x), Some(y)) => text::texts(x@) == text::texts(y@),
        _ => false,
    }
}

impl HardwareSpec {
    /// Two specs describe the same hardware.
    pub open spec fn same(self, other: HardwareSpec) -> bool {
        &&& self.machine@ == other.machine@
        &&& self.cpu@ == other.cpu@
        &&& self.vcpus == other.vcpus
        &&& self.memory_mb == other.memory_mb
        &&& self.accel == other.accel
        &&& self.display == other.display
        &&& self.display_device == other.display_device
        &&& self.disks@ == other.disks@
        &&& self.cdrom == other.cdrom
        &&& match (self.boot, other.boot) {
            (None, None) => true,
            (Some(a), Some(b)) => a@ == b@,
            _ => false,
        }
        &&& same_name(self.kernel, other.kernel)
        &&& same_name(self.initrd, other.initrd)
        &&& same_name(self.dtb, other.dtb)
        &&& same_name(self.append_cmdline, other.append_cmdline)
        &&& self.share == other.share
        &&& self.serial == other.serial
        &&& same_name(self.serial_spool, other.serial_spool)
        &&& self.network.mode == other.network.mode
        &&& self.network.model == other.network.model
        &&& self.network.host_forwards@ == other.network.host_forwards@
        &&& same_args(self.extra_args, other.extra_args)
    }
}

impl Clone for HardwareSpec {
    fn clone(&self) -> (r: HardwareSpec)
        ensures
            r.same(*self),
    {
        let mut disks: Vec<Disk> = Vec::new();
        let mut i: usize = 0;
        while i < self.disks.len()
            invariant
                i <= self.disks.len(),
                disks@ == self.disks@.take(i as int),
            decreases self.disks.len() - i,
        {
            disks.push(self.disks[i].clone());
            i = i + 1;
            assert(self.disks@.take(i as int) == self.disks@.take(i - 1).push(
                self.disks@[i - 1],
            ));
        }
        assert(self.disks@.take(self.disks@.len() as int) == self.disks@);
        HardwareSpec {
            machine: self.machine.clone(),
            cpu: self.cpu.clone(),
            vcpus: self.vcpus,
            memory_mb: self.memory_mb,
            accel: self.accel,
            display: self.display,
            display_device: self.display_device,
            disks,
            cdrom: match &self.cdrom {
                Some(c) => Some(c.clone()),
                None => None,
            },
            boot: match &self.boot {
                Some(b) => Some(b.clone()),
                None => None,
            },
            kernel: text::clone_option(&self.kernel),
            initrd: text::clone_option(&self.initrd),
            dtb: text::clone_option(&self.dtb),
            append_cmdline: text::clone_option(&self.append_cmdline),
            share: self.share,
            serial: self.serial,
            serial_spool: text::clone_option(&self.serial_spool),
            network: self.network.clone(),
            extra_args: match &self.extra_args {
                Some(a) => Some(text::clone_strings(a)),
                None => None,
            },
        }
    }
}

// ---------------------------------------------------------------------------
// Validation
// ---------------------------------------------------------------------------

/// The message for a number out of range.
pub open spec fn range_error(field: Seq<char>, raw: int, lo: int, hi: int) -> Seq<char> {
    INVALID@ + field + ": "@ + field + " must be an integer between "@ + text::decimal_int(lo)
        + " and "@ + text::decimal_int(hi) + " (got "@ + text::decimal_int(raw) + ")."@
}

/// The message for an empty name.
pub open spec fn empty_error(field: Seq<char>) -> Seq<char> {
    INVALID@ + field + ": "@ + field + " must be a non-empty string."@
}

/// Why a number is refused, if it is.
pub open spec fn range_problem(field: Seq<char>, raw: int, lo: int, hi: int) -> Option<Seq<char>> {
    if raw < lo || raw > hi {
        Some(range_error(field, raw, lo, hi))
    } else {
        None
    }
}

fn validate_int_in(field: &str, raw: i64, lo: i64, hi: i64) -> (r: Result<i64, HardwareSpecError>)
    ensures
        match r {
            Ok(n) => n == raw && lo <= raw <= hi,
            Err(e) => range_problem(field@, raw as int, lo as int, hi as int) == Some(e.0@),
        },
{
    if raw < lo || raw > hi {
        let lo_text = text::decimal_i64(lo);
        let hi_text = text::decimal_i64(hi);
        let raw_text = text::decimal_i64(raw);
        let mut m = text::cat5(INVALID, field, ": ", field, " must be an integer between ");
        m.append(lo_text.as_str());
        m.append(" and ");
        m.append(hi_text.as_str());
        m.append(" (got ");
        m.append(raw_text.as_str());
        m.append(").");
        return Err(HardwareSpecError(m));
    }
    Ok(raw)
}

/// Why a disk is refused, if it is.
pub open spec fn disk_problem(d: DiskParams) -> Option<Seq<char>> {
    if d.image@.len() == 0 {
        Some(empty_error("image"@))
    } else {
        None
    }
}

/// A validated disk holds what was requested.
pub open spec fn disk_holds(d: Disk, p: DiskParams) -> bool {
    d.image@ == p.image@ && d.interface == p.interface && d.format == p.format && d.readonly
        == p.readonly
}

fn empty_name(field: &str) -> (r: HardwareSpecError)
    ensures
        r.0@ == empty_error(field@),
{
    HardwareSpecError(text::cat5(INVALID, field, ": ", field, " must be a non-empty string."))
}

fn validate_disk(d: &DiskParams) -> (r: Result<Disk, HardwareSpecError>)
    ensures
        match r {
            Ok(disk) => disk_problem(*d) is None && disk_holds(disk, *d),
            Err(e) => disk_problem(*d) == Some(e.0@),
        },
{
    if d.image.as_str().is_empty() {
        return Err(empty_name("image"));
    }
    Ok(
        Disk {
            image: d.image.clone(),
            interface: d.interface,
            format: d.format,
            readonly: d.readonly,
        },
    )
}

/// Why a list of disks is refused, if it is: the first disk that is.
pub open spec fn disks_problem(disks: Seq<DiskParams>) -> Option<Seq<char>>
    decreases disks.len(),
{
    if disks.len() == 0 {
        None
    } else {
        config::first(disk_problem(disks[0]), disks_problem(disks.skip(1)))
    }
}

/// Validated disks hold what was requested, in order.
pub open spec fn disks_hold(disks: Seq<Disk>, params: Seq<DiskParams>) -> bool {
    disks.len() == params.len() && forall|i: int|
        0 <= i < disks.len() ==> disk_holds(#[trigger] disks[i], params[i])
}

fn validate_disks(params: &Vec<DiskParams>) -> (r: Result<Vec<Disk>, HardwareSpecError>)
    ensures
        match r {
            Ok(disks) => disks_problem(params@) is None && disks_hold(disks@, params@),
            Err(e) => disks_problem(params@) == Some(e.0@),
        },
{
    let mut out: Vec<Disk> = Vec::new();
    let mut i: usize = 0;
    assert(params@.skip(0) =~= params@);
    while i < params.len()
        invariant
            i <= params.len(),
            disks_problem(params@.skip(i as int)) == disks_problem(params@),
            disks_hold(out@, params@.take(i as int)),
        decreases params.len() - i,
    {
        assert(params@.skip(i as int).skip(1) =~= params@.skip(i + 1));
        match validate_disk(&params[i]) {
            Ok(d) => out.push(d),
            Err(e) => return Err(e),
        }
        i = i + 1;
    }
    assert(params@.take(params@.len() as int) =~= params@);
    Ok(out)
}

/// Why a CD-ROM is refused, if it is.
pub open spec fn cdrom_problem(c: Option<CdromParams>) -> Option<Seq<char>> {
    match c {
        Some(p) => if p.iso@.len() == 0 {
            Some(empty_error("iso"@))
        } else {
            None
        },
        None => None,
    }
}

fn validate_cdrom(c: &CdromParams) -> (r: Result<Cdrom, HardwareSpecError>)
    ensures
        match r {
            Ok(cdrom) => c.iso@.len() > 0 && cdrom.iso@ == c.iso@,
            Err(e) => c.iso@.len() == 0 && e.0@ == empty_error("iso"@),
        },
{
    if c.iso.as_str().is_empty() {
        return Err(empty_name("iso"));
    }
    Ok(Cdrom { iso: c.iso.clone() })
}

/// Why a port-forward is refused, if it is.
pub open spec fn forward_problem(f: HostForwardParams) -> Option<Seq<char>> {
    config::first(
        range_problem("hostPort"@, f.host_port as int, 1, 65535),
        range_problem("guestPort"@, f.guest_port as int, 1, 65535),
    )
}

/// A validated port-forward holds what was requested.
pub open spec fn forward_holds(f: HostForward, p: HostForwardParams) -> bool {
    f.host_port == p.host_port && f.guest_port == p.guest_port && f.proto == p.proto
}

fn validate_host_forward(f: &HostForwardParams) -> (r: Result<HostForward, HardwareSpecError>)
    ensures
        match r {
            Ok(forward) => forward_problem(*f) is None && forward_holds(forward, *f),
            Err(e) => forward_problem(*f) == Some(e.0@),
        },
{
    let host_port: u16 = match validate_int_in("hostPort", f.host_port, 1, 65535) {
        Ok(n) => n as u16,
        Err(e) => return Err(e),
    };
    let guest_port: u16 = match validate_int_in("guestPort", f.guest_port, 1, 65535) {
        Ok(n) => n as u16,
        Err(e) => return Err(e),
    };
    Ok(HostForward { host_port, guest_port, proto: f.proto })
}

/// Why a list of port-forwards is refused, if it is: the first forward that is.
pub open spec fn forwards_problem(forwards: Seq<HostForwardParams>) -> Option<Seq<char>>
    decreases forwards.len(),
{
    if forwards.len() == 0 {
        None
    } else {
        config::first(forward_problem(forwards[0]), forwards_problem(forwards.skip(1)))
    }
}

/// Validated port-forwards hold what was requested, in order.
pub open spec fn forwards_hold(forwards: Seq<HostForward>, params: Seq<HostForwardParams>) -> bool {
    forwards.len() == params.len() && forall|i: int|
        0 <= i < forwards.len() ==> forward_holds(#[trigger] forwards[i], params[i])
}

fn validate_network(n: &NetworkParams) -> (r: Result<Network, HardwareSpecError>)
    ensures
        match r {
            Ok(network) => {
                &&& forwards_problem(n.host_forwards@) is None
                &&& network.mode == n.mode
                &&& network.model == n.model
                &&& forwards_hold(network.host_forwards@, n.host_forwards@)
            },
            Err(e) => forwards_problem(n.host_forwards@) == Some(e.0@),
        },
{
    let mut out: Vec<HostForward> = Vec::new();
    let mut i: usize = 0;
    let ghost all = n.host_forwards@;
    assert(all.skip(0) =~= all);
    while i < n.host_forwards.len()
        invariant
            i <= n.host_forwards.len(),
            all == n.host_forwards@,
            forwards_problem(all.skip(i as int)) == forwards_problem(all),
            forwards_hold(out@, all.take(i as int)),
        decreases n.host_forwards.len() - i,
    {
        assert(all.skip(i as int).skip(1) =~= all.skip(i + 1));
        match validate_host_forward(&n.host_forwards[i]) {
            Ok(f) => out.push(f),
            Err(e) => return Err(e),
        }
        i = i + 1;
    }
    assert(all.take(all.len() as int) =~= all);
    Ok(Network { mode: n.mode, model: n.model, host_forwards: out })
}

/// Why an optional name is refused, if it is.
pub open spec fn name_problem(field: Seq<char>, value: Option<String>) -> Option<Seq<char>> {
    match value {
        Some(s) => if s@.len() == 0 {
            Some(empty_error(field))
        } else {
            None
        },
        None => None,
    }
}

fn validate_optional_name(field: &str, value: Option<String>) -> (r: Result<
    Option<String>,
    HardwareSpecError,
>)
    ensures
        match r {
            Ok(v) => name_problem(field@, value) is None && v == value,
            Err(e) => name_problem(field@, value) == Some(e.0@),
        },
{
    match value {
        Some(s) => {
            if s.as_str().is_empty() {
                Err(empty_name(field))
            } else {
                Ok(Some(s))
            }
        },
        None => Ok(None),
    }
}

/// A kernel command line: one to 2048 characters, none of them an ASCII control character.
pub open spec fn is_cmdline(s: Seq<char>) -> bool {
    0 < s.len() <= 2048 && forall|i: int|
        0 <= i < s.len() ==> !(#[trigger] s[i] <= '\u{1f}' || s[i] == '\u{7f}')
}

/// Why a kernel command line is refused, if it is.
pub open spec fn cmdline_problem(value: Option<String>) -> Option<Seq<char>> {
    match value {
        Some(s) => if is_cmdline(s@) {
            None
        } else {
            Some(INVALID@ + "appendCmdline: "@ + APPEND_CMDLINE_MESSAGE@)
        },
        None => None,
    }
}

fn validate_append_cmdline(s: &str) -> (r: Result<(), HardwareSpecError>)
    ensures
        match r {
            Ok(_) => is_cmdline(s@),
            Err(e) => !is_cmdline(s@) && e.0@ == INVALID@ + "appendCmdline: "@
                + APPEND_CMDLINE_MESSAGE@,
        },
{
    let x = text::to_chars(s);
    let mut ok = x.len() > 0 && x.len() <= 2048;
    let mut i: usize = 0;
    while i < x.len()
        invariant
            i <= x.len(),
            x@ == s@,
            ok == (0 < x@.len() <= 2048 && forall|j: int|
                0 <= j < i ==> !(#[trigger] x@[j] <= '\u{1f}' || x@[j] == '\u{7f}')),
        decreases x.len() - i,
    {
        if x[i] <= '\u{1f}' || x[i] == '\u{7f}' {
            ok = false;
        }
        i = i + 1;
    }
    if ok {
        Ok(())
    } else {
        Err(HardwareSpecError(text::cat3(INVALID, "appendCmdline: ", APPEND_CMDLINE_MESSAGE)))
    }
}

/// Why an initial RAM disk without a kernel is refused.
pub const INITRD_NEEDS_KERNEL: &'static str =
    "Invalid Hardware Spec — initrd: initrd requires kernel (an initial RAM disk is only passed to a direct-booted kernel). Set kernel, or remove initrd.";

/// Why a device tree without a kernel is refused.
pub const DTB_NEEDS_KERNEL: &'static str =
    "Invalid Hardware Spec — dtb: dtb requires kernel (a device tree is only passed to a direct-booted kernel). Set kernel, or remove dtb.";

/// Why a kernel command line without a kernel is refused.
pub const APPEND_NEEDS_KERNEL: &'static str =
    "Invalid Hardware Spec — appendCmdline: appendCmdline requires kernel (a command line is only passed to a direct-booted kernel). Set kernel, or remove appendCmdline.";

/// Why a machine or CPU name is refused, if it is.
pub open spec fn model_problem(field: Seq<char>, raw: Seq<char>) -> Option<Seq<char>> {
    if is_model_name(raw) {
        None
    } else {
        Some(model_error(field))
    }
}

/// Why a boot order is refused, if it is.
pub open spec fn boot_problem(boot: Option<String>) -> Option<Seq<char>> {
    match boot {
        Some(b) => if is_boot_order(b@) {
            None
        } else {
            Some(boot_error())
        },
        None => None,
    }
}

/// Why boot artifacts do not go together, if they do not.
pub open spec fn kernel_problem(p: HardwareSpecParams) -> Option<Seq<char>> {
    if p.initrd is Some && p.kernel is None {
        Some(INITRD_NEEDS_KERNEL@)
    } else if p.dtb is Some && p.kernel is None {
        Some(DTB_NEEDS_KERNEL@)
    } else if p.append_cmdline is Some && p.kernel is None {
        Some(APPEND_NEEDS_KERNEL@)
    } else {
        None
    }
}

/// Why a candidate is refused, if it is: the first field, in checking order, that is wrong.
pub open spec fn spec_problem(p: HardwareSpecParams) -> Option<Seq<char>> {
    config::first(
        config::first(
            model_problem("machine"@, p.machine@),
            config::first(
                model_problem("cpu"@, p.cpu@),
                config::first(
                    range_problem("vcpus"@, p.vcpus as int, 1, 255),
                    range_problem("memoryMb"@, p.memory_mb as int, 1, 1_048_576),
                ),
            ),
        ),
        config::first(
            config::first(
                boot_problem(p.boot),
                config::first(
                    disks_problem(p.disks@),
                    config::first(
                        cdrom_problem(p.cdrom),
                        forwards_problem(p.network.host_forwards@),
                    ),
                ),
            ),
            config::first(
                name_problem("kernel"@, p.kernel),
                config::first(
                    name_problem("initrd"@, p.initrd),
                    config::first(
                        name_problem("dtb"@, p.dtb),
                        config::first(cmdline_problem(p.append_cmdline), kernel_problem(p)),
                    ),
                ),
            ),
        ),
    )
}

impl HardwareSpec {
    /// The spec holds what was requested.
    pub open spec fn holds(self, p: HardwareSpecParams) -> bool {
        &&& self.machine@ == p.machine@
        &&& self.cpu@ == p.cpu@
        &&& self.vcpus == p.vcpus
        &&& self.memory_mb == p.memory_mb
        &&& self.accel == p.accel
        &&& self.display == p.display
        &&& self.display_device == p.display_device
        &&& disks_hold(self.disks@, p.disks@)
        &&& match (self.cdrom, p.cdrom) {
            (None, None) => true,
            (Some(a), Some(b)) => a.iso@ == b.iso@,
            _ => false,
        }
        &&& match (self.boot, p.boot) {
            (None, None) => true,
            (Some(a), Some(b)) => a@ == b@,
            _ => false,
        }
        &&& same_name(self.kernel, p.kernel)
        &&& same_name(self.initrd, p.initrd)
        &&& same_name(self.dtb, p.dtb)
        &&& same_name(self.append_cmdline, p.append_cmdline)
        &&& self.share == p.share
        &&& self.serial == p.serial
        &&& same_name(self.serial_spool, p.serial_spool)
        &&& self.network.mode == p.network.mode
        &&& self.network.model == p.network.model
        &&& forwards_hold(self.network.host_forwards@, p.network.host_forwards@)
        &&& same_args(self.extra_args, p.extra_args)
    }
}

/// Validate a candidate spec. Refuses it with a message naming the first offending field, or
/// returns the spec it describes.
pub fn parse_hardware_spec(params: HardwareSpecParams) -> (r: Result<
    HardwareSpec,
    HardwareSpecError,
>)
    ensures
        match r {
            Ok(spec) => spec_problem(params) is None && spec.holds(params),
            Err(e) => spec_problem(params) == Some(e.0@),
        },
{
    let machine = match MachineCpu::parse("machine", params.machine.as_str()) {
        Ok(m) => m,
        Err(e) => return Err(e),
    };
    let cpu = match MachineCpu::parse("cpu", params.cpu.as_str()) {
        Ok(m) => m,
        Err(e) => return Err(e),
    };
    let vcpus: u32 = match validate_int_in("vcpus", params.vcpus, 1, 255) {
        Ok(n) => n as u32,
        Err(e) => return Err(e),
    };
    let memory_mb: u32 = match validate_int_in("memoryMb", params.memory_mb, 1, 1_048_576) {
        Ok(n) => n as u32,
        Err(e) => return Err(e),
    };
    let boot = match &params.boot {
        None => None,
        Some(b) => match BootOrder::parse(b.as_str()) {
            Ok(order) => Some(order),
            Err(e) => return Err(e),
        },
    };
    let disks = match validate_disks(&params.disks) {
        Ok(d) => d,
        Err(e) => return Err(e),
    };
    let cdrom = match &params.cdrom {
        None => None,
        Some(c) => match validate_cdrom(c) {
            Ok(cdrom) => Some(cdrom),
            Err(e) => return Err(e),
        },
    };
    let network = match validate_network(&params.network) {
        Ok(n) => n,
        Err(e) => return Err(e),
    };
    let kernel = match validate_optional_name("kernel", params.kernel) {
        Ok(k) => k,
        Err(e) => return Err(e),
    };
    let initrd = match validate_optional_name("initrd", params.initrd) {
        Ok(i) => i,
        Err(e) => return Err(e),
    };
    let dtb = match validate_optional_name("dtb", params.dtb) {
        Ok(d) => d,
        Err(e) => return Err(e),
    };
    let append_cmdline = params.append_cmdline;
    if let Some(cmdline) = &append_cmdline {
        match validate_append_cmdline(cmdline.as_str()) {
            Ok(()) => {},
            Err(e) => return Err(e),
        }
    }
    if initrd.is_some() && kernel.is_none() {
        return Err(HardwareSpecError(INITRD_NEEDS_KERNEL.to_string()));
    }
    if dtb.is_some() && kernel.is_none() {
        return Err(HardwareSpecError(DTB_NEEDS_KERNEL.to_string()));
    }
    if append_cmdline.is_some() && kernel.is_none() {
        return Err(HardwareSpecError(APPEND_NEEDS_KERNEL.to_string()));
    }
    Ok(
        HardwareSpec {
            machine,
            cpu,
            vcpus,
            memory_mb,
            accel: params.accel,
            display: params.display,
            display_device: params.display_device,
            disks,
            cdrom,
            boot,
            kernel,
            initrd,
            dtb,
            append_cmdline,
            share: params.share,
            serial: params.serial,
            serial_spool: params.serial_spool,
            network,
            extra_args: params.extra_args,
        },
    )
}

// ---------------------------------------------------------------------------
// Laws
// ---------------------------------------------------------------------------

/// A text that QEMU takes as one value in a list of properties: it cannot end the value, name
/// another property, or look like an option of its own.
pub open spec fn is_inert(s: Seq<char>) -> bool {
    &&& s.len() > 0
    &&& s[0] != '-'
    &&& forall|i: int|
        0 <= i < s.len() ==> (#[trigger] s[i]) != ',' && s[i] != '=' && !text::is_white_space(s[i])
            && !text::is_control(s[i])
}

/// A machine type, a CPU model or a boot order that is accepted cannot smuggle in another
/// option.
pub proof fn accepted_fields_are_inert(s: Seq<char>)
    ensures
        is_model_name(s) ==> is_inert(s),
        is_boot_order(s) ==> is_inert(s),
{
    if is_model_name(s) {
        assert forall|i: int| 0 <= i < s.len() implies (#[trigger] s[i]) != ',' && s[i] != '='
            && !text::is_white_space(s[i]) && !text::is_control(s[i]) by {
            assert(is_model_char(s[i]));
        }
    }
    if is_boot_order(s) {
        assert(is_boot_letter(s[0]));
        assert forall|i: int| 0 <= i < s.len() implies (#[trigger] s[i]) != ',' && s[i] != '='
            && !text::is_white_space(s[i]) && !text::is_control(s[i]) by {
            assert(is_boot_letter(s[i]));
        }
    }
}

/// `c` can stand in a machine or CPU name.
pub open spec fn in_model_names(c: char) -> bool {
    ('0' <= c && c <= '9') || ('A' <= c && c <= 'Z') || ('a' <= c && c <= 'z') || c == '.' || c
        == '_' || c == '+' || c == '-'
}

/// `s` can be a machine or CPU name: it does not begin with punctuation.
pub open spec fn can_name_a_model(s: Seq<char>) -> bool {
    s.len() > 0 && s[0] != '.' && s[0] != '_' && s[0] != '+' && s[0] != '-' && forall|i: int|
        0 <= i < s.len() ==> in_model_names(#[trigger] s[i])
}

proof fn lemma_model_name(s: Seq<char>)
    ensures
        is_model_name(s) == can_name_a_model(s),
{
    if is_model_name(s) {
        assert forall|i: int| 0 <= i < s.len() implies in_model_names(#[trigger] s[i]) by {
            assert(is_model_char(s[i]));
        }
    }
    if can_name_a_model(s) {
        assert(in_model_names(s[0]));
        assert forall|i: int| 0 <= i < s.len() implies is_model_char(#[trigger] s[i]) by {
            assert(in_model_names(s[i]));
        }
    }
}

proof fn lemma_disks_problem(disks: Seq<DiskParams>)
    ensures
        disks_problem(disks) is None <==> forall|i: int|
            0 <= i < disks.len() ==> (#[trigger] disks[i]).image@.len() > 0,
        disks_problem(disks) matches Some(m) ==> text::has_prefix(m, INVALID@),
    decreases disks.len(),
{
    if disks.len() > 0 {
        lemma_disks_problem(disks.skip(1));
        assert(empty_error("image"@).take(INVALID@.len() as int) =~= INVALID@);
        if disks_problem(disks) is None {
            assert forall|i: int| 0 <= i < disks.len() implies (#[trigger] disks[i]).image@.len()
                > 0 by {
                if i > 0 {
                    assert(disks.skip(1)[i - 1] == disks[i]);
                }
            }
        }
    }
}

proof fn lemma_range_lead(field: Seq<char>, raw: int, lo: int, hi: int)
    ensures
        text::has_prefix(range_error(field, raw, lo, hi), INVALID@),
{
    assert(range_error(field, raw, lo, hi).take(INVALID@.len() as int) =~= INVALID@);
}

proof fn lemma_forwards_problem(forwards: Seq<HostForwardParams>)
    ensures
        forwards_problem(forwards) is None <==> forall|i: int|
            0 <= i < forwards.len() ==> 1 <= (#[trigger] forwards[i]).host_port <= 65535 && 1
                <= forwards[i].guest_port <= 65535,
        forwards_problem(forwards) matches Some(m) ==> text::has_prefix(m, INVALID@),
    decreases forwards.len(),
{
    if forwards.len() > 0 {
        lemma_forwards_problem(forwards.skip(1));
        lemma_range_lead("hostPort"@, forwards[0].host_port as int, 1, 65535);
        lemma_range_lead("guestPort"@, forwards[0].guest_port as int, 1, 65535);
        if forwards_problem(forwards) is None {
            assert forall|i: int| 0 <= i < forwards.len() implies 1 <= (
            #[trigger] forwards[i]).host_port <= 65535 && 1 <= forwards[i].guest_port <= 65535 by {
                if i > 0 {
                    assert(forwards.skip(1)[i - 1] == forwards[i]);
                }
            }
        }
    }
}

/// A candidate is accepted exactly where each of its fields is in order: the names and the boot
/// order in their alphabets, the numbers in their ranges, no name empty, the command line
/// without control characters and not too long, and nothing of a direct boot without a kernel.
/// A refusal says that the Hardware Spec is invalid.
pub proof fn candidates_are_accepted_by_their_fields(p: HardwareSpecParams)
    ensures
        spec_problem(p) is None <==> {
            &&& can_name_a_model(p.machine@)
            &&& can_name_a_model(p.cpu@)
            &&& 1 <= p.vcpus <= 255
            &&& 1 <= p.memory_mb <= 1024 * 1024
            &&& p.boot matches Some(b) ==> b@.len() > 0 && forall|i: int|
                0 <= i < b@.len() ==> seq!['a', 'b', 'c', 'd', 'n', 'p'].contains(#[trigger] b@[i])
            &&& forall|i: int|
                0 <= i < p.disks@.len() ==> (#[trigger] p.disks@[i]).image@.len() > 0
            &&& p.cdrom matches Some(c) ==> c.iso@.len() > 0
            &&& forall|i: int|
                0 <= i < p.network.host_forwards@.len() ==> 1 <= (
                #[trigger] p.network.host_forwards@[i]).host_port <= 65535 && 1
                    <= p.network.host_forwards@[i].guest_port <= 65535
            &&& p.kernel matches Some(k) ==> k@.len() > 0
            &&& p.initrd matches Some(k) ==> k@.len() > 0 && p.kernel is Some
            &&& p.dtb matches Some(d) ==> d@.len() > 0 && p.kernel is Some
            &&& p.append_cmdline matches Some(a) ==> p.kernel is Some && 0 < a@.len() <= 2048
                && forall|i: int|
                0 <= i < a@.len() ==> (' ' <= #[trigger] a@[i] && a@[i] != '\u{7f}')
        },
        spec_problem(p) matches Some(m) ==> text::has_prefix(m, INVALID@),
{
    lemma_model_name(p.machine@);
    lemma_model_name(p.cpu@);
    lemma_disks_problem(p.disks@);
    lemma_forwards_problem(p.network.host_forwards@);
    lemma_range_lead("vcpus"@, p.vcpus as int, 1, 255);
    lemma_range_lead("memoryMb"@, p.memory_mb as int, 1, 1_048_576);
    let letters = seq!['a', 'b', 'c', 'd', 'n', 'p'];
    assert(letters[0] == 'a' && letters[1] == 'b' && letters[2] == 'c' && letters[3] == 'd'
        && letters[4] == 'n' && letters[5] == 'p');
    if let Some(b) = p.boot {
        if is_boot_order(b@) {
            assert forall|i: int| 0 <= i < b@.len() implies letters.contains(#[trigger] b@[i]) by {
                assert(is_boot_letter(b@[i]));
            }
        }
        if b@.len() > 0 && forall|i: int|
            0 <= i < b@.len() ==> letters.contains(#[trigger] b@[i]) {
            assert forall|i: int| 0 <= i < b@.len() implies is_boot_letter(#[trigger] b@[i]) by {
                let k = letters.index_of(b@[i]);
            }
        }
    }
    let lead = INVALID@.len() as int;
    assert(model_error("machine"@).take(lead) =~= INVALID@);
    assert(model_error("cpu"@).take(lead) =~= INVALID@);
    assert(boot_error().take(lead) =~= INVALID@);
    assert(empty_error("iso"@).take(lead) =~= INVALID@);
    assert(empty_error("kernel"@).take(lead) =~= INVALID@);
    assert(empty_error("initrd"@).take(lead) =~= INVALID@);
    assert(empty_error("dtb"@).take(lead) =~= INVALID@);
    assert((INVALID@ + "appendCmdline: "@ + APPEND_CMDLINE_MESSAGE@).take(lead) =~= INVALID@);
    lemma_kernel_leads();
}

proof fn lemma_kernel_leads()
    ensures
        text::has_prefix(INITRD_NEEDS_KERNEL@, INVALID@),
        text::has_prefix(DTB_NEEDS_KERNEL@, INVALID@),
        text::has_prefix(APPEND_NEEDS_KERNEL@, INVALID@),
{
    reveal_strlit("Invalid Hardware Spec — ");
    reveal_strlit(
        "Invalid Hardware Spec — initrd: initrd requires kernel (an initial RAM disk is only passed to a direct-booted kernel). Set kernel, or remove initrd.",
    );
    reveal_strlit(
        "Invalid Hardware Spec — dtb: dtb requires kernel (a device tree is only passed to a direct-booted kernel). Set kernel, or remove dtb.",
    );
    reveal_strlit(
        "Invalid Hardware Spec — appendCmdline: appendCmdline requires kernel (a command line is only passed to a direct-booted kernel). Set kernel, or remove appendCmdline.",
    );
    let n = INVALID@.len() as int;
    assert(INITRD_NEEDS_KERNEL@.take(n) =~= INVALID@);
    assert(DTB_NEEDS_KERNEL@.take(n) =~= INVALID@);
    assert(APPEND_NEEDS_KERNEL@.take(n) =~= INVALID@);
}

/// An accepted spec is the hardware that was asked for, field by field: no disk, forward or
/// argument is lost, added or altered.
pub proof fn specs_are_what_was_requested(spec: HardwareSpec, p: HardwareSpecParams)
    requires
        spec.holds(p),
    ensures
        spec.machine@ == p.machine@,
        spec.cpu@ == p.cpu@,
        spec.vcpus == p.vcpus,
        spec.memory_mb == p.memory_mb,
        spec.accel == p.accel,
        spec.display == p.display,
        spec.display_device == p.display_device,
        spec.disks@.len() == p.disks@.len(),
        forall|i: int|
            0 <= i < p.disks@.len() ==> {
                let d = #[trigger] spec.disks@[i];
                d.image@ == p.disks@[i].image@ && d.interface == p.disks@[i].interface && d.format
                    == p.disks@[i].format && d.readonly == p.disks@[i].readonly
            },
        spec.cdrom is Some == p.cdrom is Some,
        p.cdrom is Some ==> spec.cdrom->0.iso@ == p.cdrom->0.iso@,
        spec.boot is Some == p.boot is Some,
        p.boot is Some ==> spec.boot->0@ == p.boot->0@,
        spec.kernel is Some == p.kernel is Some,
        p.kernel is Some ==> spec.kernel->0@ == p.kernel->0@,
        spec.initrd is Some == p.initrd is Some,
        p.initrd is Some ==> spec.initrd->0@ == p.initrd->0@,
        spec.dtb is Some == p.dtb is Some,
        p.dtb is Some ==> spec.dtb->0@ == p.dtb->0@,
        spec.append_cmdline is Some == p.append_cmdline is Some,
        p.append_cmdline is Some ==> spec.append_cmdline->0@ == p.append_cmdline->0@,
        spec.share == p.share,
        spec.serial == p.serial,
        spec.serial_spool is Some == p.serial_spool is Some,
        p.serial_spool is Some ==> spec.serial_spool->0@ == p.serial_spool->0@,
        spec.network.mode == p.network.mode,
        spec.network.model == p.network.model,
        spec.network.host_forwards@.len() == p.network.host_forwards@.len(),
        forall|i: int|
            0 <= i < p.network.host_forwards@.len() ==> {
                let f = #[trigger] spec.network.host_forwards@[i];
                f.host_port == p.network.host_forwards@[i].host_port && f.guest_port
                    == p.network.host_forwards@[i].guest_port && f.proto
                    == p.network.host_forwards@[i].proto
            },
        spec.extra_args is Some == p.extra_args is Some,
        p.extra_args is Some ==> spec.extra_args->0@.len() == p.extra_args->0@.len() && forall|i: int|

            0 <= i < p.extra_args->0@.len() ==> (#[trigger] spec.extra_args->0@[i])@
                == p.extra_args->0@[i]@,
{
    assert forall|i: int| 0 <= i < p.disks@.len() implies {
        let d = #[trigger] spec.disks@[i];
        d.image@ == p.disks@[i].image@ && d.interface == p.disks@[i].interface && d.format
            == p.disks@[i].format && d.readonly == p.disks@[i].readonly
    } by {
        assert(disk_holds(spec.disks@[i], p.disks@[i]));
    }
    assert forall|i: int| 0 <= i < p.network.host_forwards@.len() implies {
        let f = #[trigger] spec.network.host_forwards@[i];
        f.host_port == p.network.host_forwards@[i].host_port && f.guest_port
            == p.network.host_forwards@[i].guest_port && f.proto
            == p.network.host_forwards@[i].proto
    } by {
        assert(forward_holds(spec.network.host_forwards@[i], p.network.host_forwards@[i]));
    }
    if p.extra_args is Some {
        let a = text::texts(spec.extra_args->0@);
        let b = text::texts(p.extra_args->0@);
        assert(a.len() == spec.extra_args->0@.len() && b.len() == p.extra_args->0@.len());
        assert forall|i: int| 0 <= i < p.extra_args->0@.len() implies (
        #[trigger] spec.extra_args->0@[i])@ == p.extra_args->0@[i]@ by {
            assert(a[i] == spec.extra_args->0@[i]@);
            assert(b[i] == p.extra_args->0@[i]@);
        }
    }
}

/// Two specs that describe the same hardware agree in every field.
pub proof fn same_specs_agree(a: HardwareSpec, b: HardwareSpec)
    requires
        a.same(b),
    ensures
        a.machine@ == b.machine@,
        a.cpu@ == b.cpu@,
        a.vcpus == b.vcpus,
        a.memory_mb == b.memory_mb,
        a.accel == b.accel,
        a.display == b.display,
        a.display_device == b.display_device,
        a.disks@ == b.disks@,
        a.cdrom == b.cdrom,
        text::string_of(a.kernel) == text::string_of(b.kernel),
        text::string_of(a.initrd) == text::string_of(b.initrd),
        text::string_of(a.dtb) == text::string_of(b.dtb),
        text::string_of(a.append_cmdline) == text::string_of(b.append_cmdline),
        a.share == b.share,
        a.serial == b.serial,
        text::string_of(a.serial_spool) == text::string_of(b.serial_spool),
        a.network.mode == b.network.mode,
        a.network.model == b.network.model,
        a.network.host_forwards@ == b.network.host_forwards@,
        a.boot is Some == b.boot is Some,
        a.boot is Some ==> a.boot->0@ == b.boot->0@,
        a.extra_args is Some == b.extra_args is Some,
        a.extra_args is Some ==> text::texts(a.extra_args->0@) == text::texts(b.extra_args->0@),
{
}

/// The choices have the names by which QEMU knows them.
pub proof fn choices_have_their_names()
    ensures
        Accel::Kvm.name() == "kvm"@ && Accel::Tcg.name() == "tcg"@,
        DiskInterface::Virtio.name() == "virtio"@ && DiskInterface::Ide.name() == "ide"@
            && DiskInterface::Scsi.name() == "scsi"@ && DiskInterface::Sd.name() == "sd"@,
        NicModel::VirtioNetPci.name() == "virtio-net-pci"@ && NicModel::E1000.name() == "e1000"@
            && NicModel::Rtl8139.name() == "rtl8139"@ && NicModel::UsbNet.name() == "usb-net"@,
        NetworkMode::User.name() == "user"@ && NetworkMode::Tap.name() == "tap"@
            && NetworkMode::Bridge.name() == "bridge"@ && NetworkMode::NoNetwork.name() == "none"@,
        NetProtocol::Tcp.name() == "tcp"@ && NetProtocol::Udp.name() == "udp"@,
{
}

/// A refusal of a number gives its bounds and what was asked for.
pub proof fn range_refusals_name_the_numbers(field: Seq<char>, raw: int, lo: int, hi: int)
    ensures
        range_problem(field, raw, lo, hi) is None <==> lo <= raw && raw <= hi,
        text::has_infix(range_error(field, raw, lo, hi), field),
        text::has_infix(range_error(field, raw, lo, hi), text::decimal_int(raw)),
        text::has_infix(range_error(field, raw, lo, hi), text::decimal_int(lo)),
        text::has_infix(range_error(field, raw, lo, hi), text::decimal_int(hi)),
{
    let e = range_error(field, raw, lo, hi);
    let tail1 = ": "@ + field + " must be an integer between "@ + text::decimal_int(lo) + " and "@
        + text::decimal_int(hi) + " (got "@ + text::decimal_int(raw) + ")."@;
    assert(e =~= INVALID@ + field + tail1);
    text::parts_are_found(INVALID@, field, tail1, e);
    let a = INVALID@ + field + ": "@ + field + " must be an integer between "@;
    let tail2 = " and "@ + text::decimal_int(hi) + " (got "@ + text::decimal_int(raw) + ")."@;
    assert(e =~= a + text::decimal_int(lo) + tail2);
    text::parts_are_found(a, text::decimal_int(lo), tail2, e);
    let b = a + text::decimal_int(lo) + " and "@;
    let tail3 = " (got "@ + text::decimal_int(raw) + ")."@;
    assert(e =~= b + text::decimal_int(hi) + tail3);
    text::parts_are_found(b, text::decimal_int(hi), tail3, e);
    let c = b + text::decimal_int(hi) + " (got "@;
    assert(e =~= c + text::decimal_int(raw) + ")."@);
    text::parts_are_found(c, text::decimal_int(raw), ")."@, e);
}

/// What each field of a candidate is refused with, in the order in which the fields are checked.
pub open spec fn field_refusals(p: HardwareSpecParams) -> Seq<Option<Seq<char>>> {
    seq![
        model_problem("machine"@, p.machine@),
        model_problem("cpu"@, p.cpu@),
        range_problem("vcpus"@, p.vcpus as int, 1, 255),
        range_problem("memoryMb"@, p.memory_mb as int, 1, 1_048_576),
        boot_problem(p.boot),
        disks_problem(p.disks@),
        cdrom_problem(p.cdrom),
        forwards_problem(p.network.host_forwards@),
        name_problem("kernel"@, p.kernel),
        name_problem("initrd"@, p.initrd),
        name_problem("dtb"@, p.dtb),
        cmdline_problem(p.append_cmdline),
        kernel_problem(p),
    ]
}

/// A candidate is refused with what the first of its fields that is not in order is refused with.
pub proof fn the_first_bad_field_is_reported(p: HardwareSpecParams, k: int)
    requires
        0 <= k < field_refusals(p).len(),
        field_refusals(p)[k] is Some,
        forall|i: int| 0 <= i < k ==> #[trigger] field_refusals(p)[i] is None,
    ensures
        spec_problem(p) == field_refusals(p)[k],
{
    let all = field_refusals(p);
    assert(all.len() == 13);
    assert(k > 0 ==> all[0] is None);
    assert(k > 1 ==> all[1] is None);
    assert(k > 2 ==> all[2] is None);
    assert(k > 3 ==> all[3] is None);
    assert(k > 4 ==> all[4] is None);
    assert(k > 5 ==> all[5] is None);
    assert(k > 6 ==> all[6] is None);
    assert(k > 7 ==> all[7] is None);
    assert(k > 8 ==> all[8] is None);
    assert(k > 9 ==> all[9] is None);
    assert(k > 10 ==> all[10] is None);
    assert(k > 11 ==> all[11] is None);
}

/// A field that is not in order is refused in words of its own: the name of the field, and what it
/// must be. Of several disks or forwards the first that is not in order is refused, and of a
/// forward the host port before the guest port.
pub proof fn fields_are_refused_by_name(
    p: HardwareSpecParams,
    field: Seq<char>,
    raw: Seq<char>,
    name: Option<String>,
    d: int,
    f: int,
)
    ensures
        !can_name_a_model(raw) ==> model_problem(field, raw) == Some(
            INVALID@ + field + ": "@ + field + " "@ + MACHINE_CPU_MESSAGE@ + "."@,
        ),
        boot_problem(p.boot) matches Some(m) ==> m == INVALID@ + "boot: "@ + BOOT_ORDER_MESSAGE@
            + "."@,
        0 <= d < p.disks@.len() && p.disks@[d].image@.len() == 0 ==> disks_problem(p.disks@)
            == Some(
            INVALID@ + "image"@ + ": "@ + "image"@ + " must be a non-empty string."@,
        ),
        p.cdrom matches Some(c) ==> c.iso@.len() == 0 ==> cdrom_problem(p.cdrom) == Some(
            INVALID@ + "iso"@ + ": "@ + "iso"@ + " must be a non-empty string."@,
        ),
        0 <= f < p.network.host_forwards@.len() && !(is_port(
            p.network.host_forwards@[f].host_port as int,
        ) && is_port(p.network.host_forwards@[f].guest_port as int)) && (forall|i: int|
            0 <= i < f ==> is_port((#[trigger] p.network.host_forwards@[i]).host_port as int)
                && is_port(p.network.host_forwards@[i].guest_port as int)) ==> forwards_problem(
            p.network.host_forwards@,
        ) == Some(
            if !is_port(p.network.host_forwards@[f].host_port as int) {
                range_error("hostPort"@, p.network.host_forwards@[f].host_port as int, 1, 65535)
            } else {
                range_error("guestPort"@, p.network.host_forwards@[f].guest_port as int, 1, 65535)
            },
        ),
        name matches Some(n) ==> n@.len() == 0 ==> name_problem(field, name) == Some(
            INVALID@ + field + ": "@ + field + " must be a non-empty string."@,
        ),
        cmdline_problem(p.append_cmdline) matches Some(m) ==> m == INVALID@ + "appendCmdline: "@
            + APPEND_CMDLINE_MESSAGE@,
        p.kernel is None && p.initrd is Some ==> kernel_problem(p) == Some(INITRD_NEEDS_KERNEL@),
        p.kernel is None && p.initrd is None && p.dtb is Some ==> kernel_problem(p) == Some(
            DTB_NEEDS_KERNEL@,
        ),
        p.kernel is None && p.initrd is None && p.dtb is None && p.append_cmdline is Some
            ==> kernel_problem(p) == Some(APPEND_NEEDS_KERNEL@),
{
    lemma_model_name(raw);
    if 0 <= d < p.disks@.len() && p.disks@[d].image@.len() == 0 {
        lemma_empty_disk(p.disks@, d);
    }
    let forwards = p.network.host_forwards@;
    if 0 <= f < forwards.len() && !(is_port(forwards[f].host_port as int) && is_port(
        forwards[f].guest_port as int,
    )) && (forall|i: int|
        0 <= i < f ==> is_port((#[trigger] forwards[i]).host_port as int) && is_port(
            forwards[i].guest_port as int,
        )) {
        lemma_bad_forward(forwards, f);
    }
}

/// A number is a port.
pub open spec fn is_port(n: int) -> bool {
    1 <= n && n <= 65535
}

proof fn lemma_empty_disk(disks: Seq<DiskParams>, d: int)
    requires
        0 <= d < disks.len(),
        disks[d].image@.len() == 0,
    ensures
        disks_problem(disks) == Some(empty_error("image"@)),
    decreases disks.len(),
{
    if d > 0 {
        assert(disks.skip(1)[d - 1] == disks[d]);
        lemma_empty_disk(disks.skip(1), d - 1);
    }
}

proof fn lemma_bad_forward(forwards: Seq<HostForwardParams>, f: int)
    requires
        0 <= f < forwards.len(),
        !(is_port(forwards[f].host_port as int) && is_port(forwards[f].guest_port as int)),
        forall|i: int|
            0 <= i < f ==> is_port((#[trigger] forwards[i]).host_port as int) && is_port(
                forwards[i].guest_port as int,
            ),
    ensures
        forwards_problem(forwards) == Some(
            if !is_port(forwards[f].host_port as int) {
                range_error("hostPort"@, forwards[f].host_port as int, 1, 65535)
            } else {
                range_error("guestPort"@, forwards[f].guest_port as int, 1, 65535)
            },
        ),
    decreases forwards.len(),
{
    if f > 0 {
        let rest = forwards.skip(1);
        assert(is_port(forwards[0].host_port as int));
        assert(rest[f - 1] == forwards[f]);
        assert forall|i: int| 0 <= i < f - 1 implies is_port((#[trigger] rest[i]).host_port as int)
            && is_port(rest[i].guest_port as int) by {
            assert(rest[i] == forwards[i + 1]);
        }
        lemma_bad_forward(rest, f - 1);
    }
}

/// What is said of a parse is all that it gives: its value, or the text of its error.
pub proof fn parses_are_seen_whole<T>(
    r: Result<T, HardwareSpecError>,
    s: Result<T, Seq<char>>,
    x: Result<String, HardwareSpecError>,
    y: Result<Seq<char>, Seq<char>>,
    v: Result<Vec<String>, HardwareSpecError>,
    w: Result<Seq<Seq<char>>, Seq<char>>,
)
    ensures
        agrees(r, s) <==> (r is Ok && s is Ok && r->Ok_0 == s->Ok_0) || (r is Err && s is Err
            && r->Err_0.0@ == s->Err_0),
        path_agrees(x, y) <==> (x is Ok && y is Ok && x->Ok_0@ == y->Ok_0) || (x is Err && y is Err
            && x->Err_0.0@ == y->Err_0),
        args_agree(v, w) <==> (v is Ok && w is Ok && text::texts(v->Ok_0@) == w->Ok_0) || (v is Err
            && w is Err && v->Err_0.0@ == w->Err_0),
{
}

} // verus!
