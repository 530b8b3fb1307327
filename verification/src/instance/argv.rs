//! The generator of the `qemu-system-*` argument vector.
//!
//! The vector is a function of a validated spec, the options, and what is known of the Image
//! Store and the ISO Store. It is headless and minimal, and starts the machine frozen.

use vstd::prelude::*;

use crate::config;
use crate::config::PortRange;
use crate::instance::hardware_spec;
use crate::instance::hardware_spec::{
    Accel, Cdrom, Disk, DisplayMode, HardwareSpec, HardwareSpecError, Network, NetworkMode,
    NicModel,
};
use crate::instance::image_store;
use crate::instance::iso_store;
use crate::instance::store_path;
use crate::instance::store_path::StoreSnapshot;
use crate::text;

verus! {

/// The bind address of the loopback VNC Display.
pub const VNC_LOOPBACK_HOST: &'static str = "127.0.0.1";

/// The fixed VNC display number: exactly one Instance runs at a time.
pub const VNC_DISPLAY_NUMBER: u16 = 0;

/// The TCP port of the VNC Display: QEMU maps display `N` to port `5900 + N`.
pub const VNC_LOOPBACK_PORT: u16 = 5900;

/// Inputs of the generator that are not part of the Hardware Spec.
#[derive(Debug, Clone)]
pub struct ArgvOptions {
    /// The concrete accelerator.
    pub accel: Accel,
    /// Path of the server-managed QMP UNIX socket.
    pub qmp_socket_path: String,
    /// Path of the Image Store directory; required when the spec has disks or a kernel.
    pub image_dir: Option<String>,
    /// Path of the read-only ISO Store; required when the spec has a cdrom.
    pub iso_dir: Option<String>,
    /// Inclusive range that a forward's host port must fall within; the non-privileged ports
    /// when `None`.
    pub hostfwd_port_range: Option<PortRange>,
    /// Whether host-level (`tap`/`bridge`) networking is permitted.
    pub allow_host_net: bool,
    /// Hard cap on the memory in MiB; `None` skips the check.
    pub max_memory_mb: Option<u32>,
    /// Hard cap on the virtual CPUs; `None` skips the check.
    pub max_vcpus: Option<u32>,
    /// Whether raw extra arguments are permitted.
    pub allow_raw_args: bool,
}

/// What is known of the two stores.
#[derive(Debug, Clone)]
pub struct Stores {
    /// The Image Store.
    pub images: StoreSnapshot,
    /// The ISO Store.
    pub isos: StoreSnapshot,
}

impl Stores {
    /// Neither store exists.
    pub fn missing() -> (r: Stores)
        ensures
            r.images.real_dir is None,
            r.images.leaves@.len() == 0,
            r.isos.real_dir is None,
            r.isos.leaves@.len() == 0,
    {
        Stores { images: StoreSnapshot::missing(), isos: StoreSnapshot::missing() }
    }
}

// ---------------------------------------------------------------------------
// Option strings
// ---------------------------------------------------------------------------

/// How one character is written in an option value: a comma is doubled.
pub open spec fn escaped_char(c: char) -> Seq<char> {
    if c == ',' {
        seq![',', ',']
    } else {
        seq![c]
    }
}

/// A text written as an option value: every comma is doubled.
pub open spec fn escaped(s: Seq<char>) -> Seq<char>
    decreases s.len(),
{
    if s.len() == 0 {
        Seq::empty()
    } else {
        escaped_char(s[0]) + escaped(s.skip(1))
    }
}

/// The first value in an option string, as QEMU reads it: up to the first comma that is not
/// doubled, with doubled commas standing for one.
pub open spec fn read_value(s: Seq<char>) -> Seq<char>
    decreases s.len(),
{
    if s.len() == 0 {
        Seq::empty()
    } else if s[0] != ',' {
        seq![s[0]] + read_value(s.skip(1))
    } else if s.len() > 1 && s[1] == ',' {
        seq![','] + read_value(s.skip(2))
    } else {
        Seq::empty()
    }
}

proof fn lemma_escaped_push(s: Seq<char>, c: char)
    ensures
        escaped(s.push(c)) == escaped(s) + escaped_char(c),
    decreases s.len(),
{
    if s.len() == 0 {
        assert(s.push(c).skip(1) =~= Seq::<char>::empty());
        assert(escaped(Seq::<char>::empty()) =~= Seq::<char>::empty());
        assert(s =~= Seq::<char>::empty());
        assert(escaped(s.push(c)) =~= escaped(s) + escaped_char(c));
    } else {
        assert(s.push(c).skip(1) =~= s.skip(1).push(c));
        lemma_escaped_push(s.skip(1), c);
        assert(escaped(s.push(c)) =~= escaped(s) + escaped_char(c));
    }
}

/// Write `value` as an option value: double its commas.
pub fn escape_qemu_opts_value(value: &str) -> (r: String)
    ensures
        r@ == escaped(value@),
{
    let x = text::to_chars(value);
    let mut out = String::new();
    let mut i: usize = 0;
    assert(x@.take(0) =~= Seq::<char>::empty());
    while i < x.len()
        invariant
            i <= x.len(),
            out@ == escaped(x@.take(i as int)),
        decreases x.len() - i,
    {
        let c = x[i];
        proof {
            lemma_escaped_push(x@.take(i as int), c);
            assert(x@.take(i + 1) =~= x@.take(i as int).push(c));
        }
        let ghost before = out@;
        out.push(c);
        if c == ',' {
            out.push(',');
        }
        assert(out@ =~= before + escaped_char(c));
        i = i + 1;
    }
    assert(x@.take(x@.len() as int) =~= x@);
    out
}

// ---------------------------------------------------------------------------
// Sequencing
// ---------------------------------------------------------------------------

/// Arguments followed by arguments; the first refusal stands.
pub open spec fn followed_by(
    a: Result<Seq<Seq<char>>, Seq<char>>,
    b: Result<Seq<Seq<char>>, Seq<char>>,
) -> Result<Seq<Seq<char>>, Seq<char>> {
    match (a, b) {
        (Err(m), _) => Err(m),
        (Ok(_), Err(m)) => Err(m),
        (Ok(x), Ok(y)) => Ok(x + y),
    }
}

/// No arguments.
pub open spec fn nothing() -> Result<Seq<Seq<char>>, Seq<char>> {
    Ok(Seq::empty())
}

// ---------------------------------------------------------------------------
// Fixed hardware
// ---------------------------------------------------------------------------

/// The Raspberry Pi machine types, whose CPU, core count and memory are fixed.
pub const RASPI_MACHINES: [&'static str; 6] = [
    "raspi0",
    "raspi1ap",
    "raspi2b",
    "raspi3ap",
    "raspi3b",
    "raspi4b",
];

/// The machine is a fixed-hardware Raspberry Pi board.
pub open spec fn is_raspi(machine: Seq<char>) -> bool {
    exists|i: int| 0 <= i < 6 && (#[trigger] RASPI_MACHINES[i])@ == machine
}

/// Whether the machine is a fixed-hardware Raspberry Pi board.
pub fn is_raspi_machine(machine: &str) -> (r: bool)
    ensures
        r == is_raspi(machine@),
{
    let mut i: usize = 0;
    while i < 6
        invariant
            i <= 6,
            forall|j: int| 0 <= j < i ==> (#[trigger] RASPI_MACHINES[j])@ != machine@,
        decreases 6 - i,
    {
        if text::str_eq(RASPI_MACHINES[i], machine) {
            return true;
        }
        i = i + 1;
    }
    false
}

// ---------------------------------------------------------------------------
// Caps
// ---------------------------------------------------------------------------

/// Why a spec is over the operator's caps, if it is.
pub open spec fn cap_problem(spec: HardwareSpec, options: ArgvOptions) -> Option<Seq<char>> {
    if options.max_memory_mb is Some && spec.memory_mb > options.max_memory_mb->0 {
        let cap = text::decimal(options.max_memory_mb->0 as nat);
        Some(
            "memoryMb "@ + text::decimal(spec.memory_mb as nat)
                + " exceeds QMP_MCP_MAX_MEMORY_MB="@ + cap + ". Request "@ + cap
                + " MiB or less, or raise QMP_MCP_MAX_MEMORY_MB."@,
        )
    } else if options.max_vcpus is Some && spec.vcpus > options.max_vcpus->0 {
        let cap = text::decimal(options.max_vcpus->0 as nat);
        Some(
            "vcpus "@ + text::decimal(spec.vcpus as nat) + " exceeds QMP_MCP_MAX_VCPUS="@ + cap
                + ". Request "@ + cap + " vCPU(s) or less, or raise QMP_MCP_MAX_VCPUS."@,
        )
    } else {
        None
    }
}

fn assert_within_resource_caps(spec: &HardwareSpec, options: &ArgvOptions) -> (r: Result<
    (),
    HardwareSpecError,
>)
    ensures
        match r {
            Ok(_) => cap_problem(*spec, *options) is None,
            Err(e) => cap_problem(*spec, *options) == Some(e.0@),
        },
{
    if let Some(cap) = options.max_memory_mb {
        if spec.memory_mb > cap {
            let asked = text::decimal_u64(spec.memory_mb as u64);
            let cap_text = text::decimal_u64(cap as u64);
            let mut m = text::cat5(
                "memoryMb ",
                asked.as_str(),
                " exceeds QMP_MCP_MAX_MEMORY_MB=",
                cap_text.as_str(),
                ". Request ",
            );
            m.append(cap_text.as_str());
            m.append(" MiB or less, or raise QMP_MCP_MAX_MEMORY_MB.");
            return Err(HardwareSpecError(m));
        }
    }
    if let Some(cap) = options.max_vcpus {
        if spec.vcpus > cap {
            let asked = text::decimal_u64(spec.vcpus as u64);
            let cap_text = text::decimal_u64(cap as u64);
            let mut m = text::cat5(
                "vcpus ",
                asked.as_str(),
                " exceeds QMP_MCP_MAX_VCPUS=",
                cap_text.as_str(),
                ". Request ",
            );
            m.append(cap_text.as_str());
            m.append(" vCPU(s) or less, or raise QMP_MCP_MAX_VCPUS.");
            return Err(HardwareSpecError(m));
        }
    }
    Ok(())
}

// ---------------------------------------------------------------------------
// Drives
// ---------------------------------------------------------------------------

/// A configured directory, unless it is blank.
pub open spec fn configured(dir: Option<String>) -> Option<Seq<char>> {
    match dir {
        Some(d) => if text::is_blank(d@) {
            None
        } else {
            Some(d@)
        },
        None => None,
    }
}

fn configured_dir(dir: &Option<String>) -> (r: Option<&str>)
    ensures
        text::text_of(r) == configured(*dir),
{
    match dir {
        Some(d) => {
            if text::blank(d.as_str()) {
                None
            } else {
                Some(d.as_str())
            }
        },
        None => None,
    }
}

/// The value of the `-drive` argument of a disk at `path`.
pub open spec fn drive_value(disk: Disk, path: Seq<char>) -> Seq<char> {
    let parts = "file="@ + escaped(path) + ",format="@ + disk.format.name() + ",if="@
        + disk.interface.name() + ",media=disk"@;
    if disk.readonly {
        parts + ",readonly=on"@
    } else {
        parts
    }
}

/// The arguments of a disk, or why it is refused.
pub open spec fn drive_args(
    disk: Disk,
    image_dir: Option<String>,
    images: StoreSnapshot,
) -> Result<Seq<Seq<char>>, Seq<char>> {
    match configured(image_dir) {
        None => Err(
            "Disk \""@ + disk.image@
                + "\" was requested but the Image Store directory is not configured. Set QMP_MCP_IMAGE_DIR to the Image Store path."@,
        ),
        Some(dir) => match store_path::resolution(
            disk.image@,
            dir,
            image_store::image_wording(),
            images,
        ) {
            Err(m) => Err("Invalid disk reference: "@ + m),
            Ok(path) => Ok(seq!["-drive"@, drive_value(disk, path)]),
        },
    }
}

fn build_drive_args(disk: &Disk, image_dir: &Option<String>, images: &StoreSnapshot) -> (r: Result<
    Vec<String>,
    HardwareSpecError,
>)
    ensures
        hardware_spec::args_agree(r, drive_args(*disk, *image_dir, *images)),
{
    let dir = match configured_dir(image_dir) {
        Some(d) => d,
        None => {
            return Err(
                HardwareSpecError(
                    text::cat3(
                        "Disk \"",
                        disk.image.as_str(),
                        "\" was requested but the Image Store directory is not configured. Set QMP_MCP_IMAGE_DIR to the Image Store path.",
                    ),
                ),
            );
        },
    };
    let path = match image_store::resolve_image_path(disk.image.as_str(), dir, images) {
        Ok(p) => p,
        Err(e) => return Err(
            HardwareSpecError(text::cat2("Invalid disk reference: ", e.0.as_str())),
        ),
    };
    let file = escape_qemu_opts_value(path.as_str());
    let mut value = text::cat5(
        "file=",
        file.as_str(),
        ",format=",
        disk.format.as_str(),
        ",if=",
    );
    value.append(disk.interface.as_str());
    value.append(",media=disk");
    if disk.readonly {
        value.append(",readonly=on");
    }
    let mut args: Vec<String> = Vec::new();
    args.push("-drive".to_string());
    args.push(value);
    assert(text::texts(args@) =~= seq!["-drive"@, drive_value(*disk, path@)]);
    Ok(args)
}

/// The arguments of all disks, in order.
pub open spec fn drives_args(
    disks: Seq<Disk>,
    image_dir: Option<String>,
    images: StoreSnapshot,
) -> Result<Seq<Seq<char>>, Seq<char>>
    decreases disks.len(),
{
    if disks.len() == 0 {
        nothing()
    } else {
        followed_by(
            drives_args(disks.drop_last(), image_dir, images),
            drive_args(disks.last(), image_dir, images),
        )
    }
}

proof fn lemma_drives_refusal(
    disks: Seq<Disk>,
    n: int,
    image_dir: Option<String>,
    images: StoreSnapshot,
)
    requires
        0 <= n <= disks.len(),
        drives_args(disks.take(n), image_dir, images) is Err,
    ensures
        drives_args(disks, image_dir, images) == drives_args(disks.take(n), image_dir, images),
    decreases disks.len(),
{
    if n == disks.len() {
        assert(disks.take(n) =~= disks);
    } else {
        assert(disks.drop_last().take(n) =~= disks.take(n));
        lemma_drives_refusal(disks.drop_last(), n, image_dir, images);
    }
}

fn build_drives_args(
    disks: &Vec<Disk>,
    image_dir: &Option<String>,
    images: &StoreSnapshot,
) -> (r: Result<Vec<String>, HardwareSpecError>)
    ensures
        hardware_spec::args_agree(r, drives_args(disks@, *image_dir, *images)),
{
    broadcast use text::group_texts;

    let mut out: Vec<String> = Vec::new();
    let mut i: usize = 0;
    assert(disks@.take(0) =~= Seq::<Disk>::empty());
    while i < disks.len()
        invariant
            i <= disks.len(),
            drives_args(disks@.take(i as int), *image_dir, *images) == Ok::<
                Seq<Seq<char>>,
                Seq<char>,
            >(text::texts(out@)),
        decreases disks.len() - i,
    {
        assert(disks@.take(i + 1).drop_last() =~= disks@.take(i as int));
        assert(disks@.take(i + 1).last() == disks@[i as int]);
        match build_drive_args(&disks[i], image_dir, images) {
            Ok(args) => {
                let ghost before = text::texts(out@);
                let ghost added = text::texts(args@);
                let mut args = args;
                out.append(&mut args);
                assert(text::texts(out@) == before + added);
            },
            Err(e) => {
                proof {
                    lemma_drives_refusal(disks@, i + 1, *image_dir, *images);
                }
                return Err(e);
            },
        }
        i = i + 1;
    }
    assert(disks@.take(disks@.len() as int) =~= disks@);
    Ok(out)
}

/// The arguments of a CD-ROM, or why it is refused.
pub open spec fn cdrom_args(
    cdrom: Option<Cdrom>,
    iso_dir: Option<String>,
    isos: StoreSnapshot,
) -> Result<Seq<Seq<char>>, Seq<char>> {
    match cdrom {
        None => nothing(),
        Some(c) => match configured(iso_dir) {
            None => Err(
                "A CD-ROM with ISO \""@ + c.iso@
                    + "\" was requested but the ISO Store directory is not configured. Set QMP_MCP_ISO_DIR to the read-only ISO Store path."@,
            ),
            Some(dir) => match store_path::resolution(c.iso@, dir, iso_store::iso_wording(), isos) {
                Err(m) => Err("Invalid ISO reference: "@ + m),
                Ok(path) => Ok(
                    seq![
                        "-drive"@,
                        "file="@ + escaped(path) + ",media=cdrom,readonly=on,format=raw"@,
                    ],
                ),
            },
        },
    }
}

fn build_cdrom_args(cdrom: &Option<Cdrom>, iso_dir: &Option<String>, isos: &StoreSnapshot) -> (r:
    Result<Vec<String>, HardwareSpecError>)
    ensures
        hardware_spec::args_agree(r, cdrom_args(*cdrom, *iso_dir, *isos)),
{
    broadcast use text::group_texts;

    let c = match cdrom {
        Some(c) => c,
        None => return Ok(Vec::new()),
    };
    let dir = match configured_dir(iso_dir) {
        Some(d) => d,
        None => {
            return Err(
                HardwareSpecError(
                    text::cat3(
                        "A CD-ROM with ISO \"",
                        c.iso.as_str(),
                        "\" was requested but the ISO Store directory is not configured. Set QMP_MCP_ISO_DIR to the read-only ISO Store path.",
                    ),
                ),
            );
        },
    };
    let path = match iso_store::resolve_iso_path(c.iso.as_str(), dir, isos) {
        Ok(p) => p,
        Err(e) => return Err(
            HardwareSpecError(text::cat2("Invalid ISO reference: ", e.0.as_str())),
        ),
    };
    let file = escape_qemu_opts_value(path.as_str());
    let mut args: Vec<String> = Vec::new();
    args.push("-drive".to_string());
    args.push(text::cat3("file=", file.as_str(), ",media=cdrom,readonly=on,format=raw"));
    assert(text::texts(args@) =~= cdrom_args(*cdrom, *iso_dir, *isos)->Ok_0);
    Ok(args)
}

// ---------------------------------------------------------------------------
// Direct kernel boot
// ---------------------------------------------------------------------------

/// The path of a boot artifact, or why it is refused.
pub open spec fn boot_artifact(
    name: Seq<char>,
    image_dir: Option<String>,
    kind: Seq<char>,
    images: StoreSnapshot,
) -> Result<Seq<char>, Seq<char>> {
    match configured(image_dir) {
        None => Err(
            "A "@ + kind + " (\""@ + name
                + "\") was requested but the Image Store directory is not configured. Set QMP_MCP_IMAGE_DIR to the Image Store path."@,
        ),
        Some(dir) => match store_path::resolution(name, dir, image_store::image_wording(), images) {
            Err(m) => Err("Invalid "@ + kind + " reference: "@ + m),
            Ok(path) => Ok(path),
        },
    }
}

fn resolve_boot_artifact(
    name: &str,
    image_dir: &Option<String>,
    kind: &str,
    images: &StoreSnapshot,
) -> (r: Result<String, HardwareSpecError>)
    ensures
        hardware_spec::path_agrees(r, boot_artifact(name@, *image_dir, kind@, *images)),
{
    let dir = match configured_dir(image_dir) {
        Some(d) => d,
        None => {
            return Err(
                HardwareSpecError(
                    text::cat5(
                        "A ",
                        kind,
                        " (\"",
                        name,
                        "\") was requested but the Image Store directory is not configured. Set QMP_MCP_IMAGE_DIR to the Image Store path.",
                    ),
                ),
            );
        },
    };
    match image_store::resolve_image_path(name, dir, images) {
        Ok(p) => Ok(p),
        Err(e) => Err(
            HardwareSpecError(text::cat4("Invalid ", kind, " reference: ", e.0.as_str())),
        ),
    }
}

/// The arguments of an optional boot artifact.
pub open spec fn artifact_args(
    flag: Seq<char>,
    name: Option<String>,
    image_dir: Option<String>,
    kind: Seq<char>,
    images: StoreSnapshot,
) -> Result<Seq<Seq<char>>, Seq<char>> {
    match name {
        None => nothing(),
        Some(n) => match boot_artifact(n@, image_dir, kind, images) {
            Err(m) => Err(m),
            Ok(path) => Ok(seq![flag, path]),
        },
    }
}

fn build_artifact_args(
    flag: &str,
    name: &Option<String>,
    image_dir: &Option<String>,
    kind: &str,
    images: &StoreSnapshot,
) -> (r: Result<Vec<String>, HardwareSpecError>)
    ensures
        hardware_spec::args_agree(r, artifact_args(flag@, *name, *image_dir, kind@, *images)),
{
    broadcast use text::group_texts;

    match name {
        None => Ok(Vec::new()),
        Some(n) => match resolve_boot_artifact(n.as_str(), image_dir, kind, images) {
            Err(e) => Err(e),
            Ok(path) => {
                let mut args: Vec<String> = Vec::new();
                args.push(flag.to_string());
                args.push(path);
                assert(text::texts(args@) =~= artifact_args(
                    flag@,
                    *name,
                    *image_dir,
                    kind@,
                    *images,
                )->Ok_0);
                Ok(args)
            },
        },
    }
}

// ---------------------------------------------------------------------------
// Network
// ---------------------------------------------------------------------------

/// The range that host ports must fall in.
pub open spec fn port_range(options: ArgvOptions) -> PortRange {
    match options.hostfwd_port_range {
        Some(r) => r,
        None => config::default_hostfwd_range(),
    }
}

/// The message for a host port outside the range.
pub open spec fn port_refusal(port: u16, range: PortRange) -> Seq<char> {
    let low = text::decimal(range.low as nat);
    let high = text::decimal(range.high as nat);
    "Host port-forward hostPort "@ + text::decimal(port as nat)
        + " is outside the allowed host-port range "@ + low + "-"@ + high
        + " (QMP_MCP_HOSTFWD_PORT_RANGE). Choose a hostPort within "@ + low + "-"@ + high
        + ", or widen the range via QMP_MCP_HOSTFWD_PORT_RANGE."@
}

/// The `hostfwd` property of a port-forward, pinned to the loopback address.
pub open spec fn forward_value(f: hardware_spec::HostForward) -> Seq<char> {
    ",hostfwd="@ + f.proto.name() + ":127.0.0.1:"@ + text::decimal(f.host_port as nat) + "-:"@
        + text::decimal(f.guest_port as nat)
}

/// The user-mode backend with its port-forwards, or why one is refused.
pub open spec fn user_netdev(
    forwards: Seq<hardware_spec::HostForward>,
    range: PortRange,
) -> Result<Seq<char>, Seq<char>>
    decreases forwards.len(),
{
    if forwards.len() == 0 {
        Ok("user,id=net0"@)
    } else {
        match user_netdev(forwards.drop_last(), range) {
            Err(m) => Err(m),
            Ok(before) => {
                let f = forwards.last();
                if f.host_port < range.low || f.host_port > range.high {
                    Err(port_refusal(f.host_port, range))
                } else {
                    Ok(before + forward_value(f))
                }
            },
        }
    }
}

proof fn lemma_user_netdev_refusal(
    forwards: Seq<hardware_spec::HostForward>,
    n: int,
    range: PortRange,
)
    requires
        0 <= n <= forwards.len(),
        user_netdev(forwards.take(n), range) is Err,
    ensures
        user_netdev(forwards, range) == user_netdev(forwards.take(n), range),
    decreases forwards.len(),
{
    if n == forwards.len() {
        assert(forwards.take(n) =~= forwards);
    } else {
        assert(forwards.drop_last().take(n) =~= forwards.take(n));
        lemma_user_netdev_refusal(forwards.drop_last(), n, range);
    }
}

/// Why a NIC cannot attach, if it cannot: forwards without user mode, or a model whose bus
/// the machine lacks.
pub open spec fn nic_problem(network: Network, machine: Seq<char>) -> Option<Seq<char>> {
    if network.mode != NetworkMode::User && network.host_forwards@.len() > 0 {
        Some(
            "network.hostForwards are only valid for user-mode networking (mode \"user\"), but mode is \""@
                + network.mode.name() + "\". Remove hostForwards, or use mode \"user\"."@,
        )
    } else if network.mode == NetworkMode::NoNetwork {
        None
    } else if network.model == NicModel::UsbNet && !is_raspi(machine) {
        Some(
            "network.model \"usb-net\" needs a USB bus, but machine \""@ + machine
                + "\" has none (only the raspi* boards expose a built-in USB bus). Use a PCI NIC (virtio-net-pci/e1000/rtl8139), or network.mode \"none\"."@,
        )
    } else if network.model != NicModel::UsbNet && is_raspi(machine) {
        Some(
            "network.model \""@ + network.model.name()
                + "\" is a PCI NIC, but the raspi* board \""@ + machine
                + "\" has no PCI bus. Use network.model \"usb-net\", or network.mode \"none\" for no networking."@,
        )
    } else {
        None
    }
}

/// The message that refuses host-level networking.
pub open spec fn host_net_refusal(mode: Seq<char>) -> Seq<char> {
    "network.mode \""@ + mode + "\" requests host-level ("@ + mode
        + ") networking, which puts the guest on the host LAN and needs host privileges, so it is refused by default (ADR-0009). Use mode \"user\" for default user-mode networking, or set QMP_MCP_ALLOW_HOST_NET=true to opt in (the operator must provision the host bridge/tap; the server does not configure the host)."@
}

/// The arguments of the NIC, or why it is refused.
pub open spec fn network_args(
    network: Network,
    machine: Seq<char>,
    options: ArgvOptions,
) -> Result<Seq<Seq<char>>, Seq<char>> {
    let device = escaped(network.model.name()) + ",netdev=net0"@;
    match nic_problem(network, machine) {
        Some(m) => Err(m),
        None => match network.mode {
            NetworkMode::NoNetwork => nothing(),
            NetworkMode::User => match user_netdev(network.host_forwards@, port_range(options)) {
                Err(m) => Err(m),
                Ok(netdev) => Ok(seq!["-netdev"@, netdev, "-device"@, device]),
            },
            _ => if !options.allow_host_net {
                Err(host_net_refusal(network.mode.name()))
            } else {
                Ok(
                    seq![
                        "-netdev"@,
                        escaped(network.mode.name()) + ",id=net0"@,
                        "-device"@,
                        device,
                    ],
                )
            },
        },
    }
}

fn check_nic(network: &Network, machine: &str) -> (r: Result<(), HardwareSpecError>)
    ensures
        match r {
            Ok(_) => nic_problem(*network, machine@) is None,
            Err(e) => nic_problem(*network, machine@) == Some(e.0@),
        },
{
    if network.mode != NetworkMode::User && network.host_forwards.len() > 0 {
        return Err(
            HardwareSpecError(
                text::cat3(
                    "network.hostForwards are only valid for user-mode networking (mode \"user\"), but mode is \"",
                    network.mode.as_str(),
                    "\". Remove hostForwards, or use mode \"user\".",
                ),
            ),
        );
    }
    if network.mode == NetworkMode::NoNetwork {
        return Ok(());
    }
    let raspi = is_raspi_machine(machine);
    if network.model == NicModel::UsbNet && !raspi {
        return Err(
            HardwareSpecError(
                text::cat3(
                    "network.model \"usb-net\" needs a USB bus, but machine \"",
                    machine,
                    "\" has none (only the raspi* boards expose a built-in USB bus). Use a PCI NIC (virtio-net-pci/e1000/rtl8139), or network.mode \"none\".",
                ),
            ),
        );
    }
    if network.model.is_pci() && raspi {
        return Err(
            HardwareSpecError(
                text::cat5(
                    "network.model \"",
                    network.model.as_str(),
                    "\" is a PCI NIC, but the raspi* board \"",
                    machine,
                    "\" has no PCI bus. Use network.model \"usb-net\", or network.mode \"none\" for no networking.",
                ),
            ),
        );
    }
    Ok(())
}

fn refuse_port(port: u16, range: PortRange) -> (r: HardwareSpecError)
    ensures
        r.0@ == port_refusal(port, range),
{
    let port_text = text::decimal_u64(port as u64);
    let low = text::decimal_u64(range.low as u64);
    let high = text::decimal_u64(range.high as u64);
    let mut m = text::cat5(
        "Host port-forward hostPort ",
        port_text.as_str(),
        " is outside the allowed host-port range ",
        low.as_str(),
        "-",
    );
    m.append(high.as_str());
    m.append(" (QMP_MCP_HOSTFWD_PORT_RANGE). Choose a hostPort within ");
    m.append(low.as_str());
    m.append("-");
    m.append(high.as_str());
    m.append(", or widen the range via QMP_MCP_HOSTFWD_PORT_RANGE.");
    HardwareSpecError(m)
}

fn build_user_netdev(forwards: &Vec<hardware_spec::HostForward>, range: PortRange) -> (r: Result<
    String,
    HardwareSpecError,
>)
    ensures
        hardware_spec::path_agrees(r, user_netdev(forwards@, range)),
{
    let mut out = "user,id=net0".to_string();
    let mut i: usize = 0;
    assert(forwards@.take(0) =~= Seq::<hardware_spec::HostForward>::empty());
    while i < forwards.len()
        invariant
            i <= forwards.len(),
            user_netdev(forwards@.take(i as int), range) == Ok::<Seq<char>, Seq<char>>(out@),
        decreases forwards.len() - i,
    {
        assert(forwards@.take(i + 1).drop_last() =~= forwards@.take(i as int));
        assert(forwards@.take(i + 1).last() == forwards@[i as int]);
        let f = &forwards[i];
        if f.host_port < range.low || f.host_port > range.high {
            proof {
                lemma_user_netdev_refusal(forwards@, i + 1, range);
            }
            return Err(refuse_port(f.host_port, range));
        }
        let host = text::decimal_u64(f.host_port as u64);
        let guest = text::decimal_u64(f.guest_port as u64);
        let mut value = text::cat5(
            ",hostfwd=",
            f.proto.as_str(),
            ":127.0.0.1:",
            host.as_str(),
            "-:",
        );
        value.append(guest.as_str());
        out.append(value.as_str());
        i = i + 1;
    }
    assert(forwards@.take(forwards@.len() as int) =~= forwards@);
    Ok(out)
}

fn four(a: &str, b: String, c: &str, d: String) -> (r: Vec<String>)
    ensures
        text::texts(r@) == seq![a@, b@, c@, d@],
{
    let mut args: Vec<String> = Vec::new();
    args.push(a.to_string());
    args.push(b);
    args.push(c.to_string());
    args.push(d);
    assert(text::texts(args@) =~= seq![a@, b@, c@, d@]);
    args
}

/// Render the arguments of the guest NIC. User mode emits NAT plus any loopback-pinned
/// port-forwards, each host port bounded to the configured range; host-level networking is
/// refused unless the operator allows it.
pub fn build_network_args(network: &Network, machine: &str, options: &ArgvOptions) -> (r: Result<
    Vec<String>,
    HardwareSpecError,
>)
    ensures
        hardware_spec::args_agree(r, network_args(*network, machine@, *options)),
{
    broadcast use text::group_texts;

    match check_nic(network, machine) {
        Ok(()) => {},
        Err(e) => return Err(e),
    }
    if network.mode == NetworkMode::NoNetwork {
        return Ok(Vec::new());
    }
    let model = escape_qemu_opts_value(network.model.as_str());
    let device = text::cat2(model.as_str(), ",netdev=net0");
    if network.mode == NetworkMode::User {
        let range = match options.hostfwd_port_range {
            Some(range) => range,
            None => config::default_hostfwd_port_range(),
        };
        return match build_user_netdev(&network.host_forwards, range) {
            Err(e) => Err(e),
            Ok(netdev) => Ok(four("-netdev", netdev, "-device", device)),
        };
    }
    if !options.allow_host_net {
        let mode = network.mode.as_str();
        return Err(
            HardwareSpecError(
                text::cat5(
                    "network.mode \"",
                    mode,
                    "\" requests host-level (",
                    mode,
                    ") networking, which puts the guest on the host LAN and needs host privileges, so it is refused by default (ADR-0009). Use mode \"user\" for default user-mode networking, or set QMP_MCP_ALLOW_HOST_NET=true to opt in (the operator must provision the host bridge/tap; the server does not configure the host).",
                ),
            ),
        );
    }
    let mode = escape_qemu_opts_value(network.mode.as_str());
    Ok(four("-netdev", text::cat2(mode.as_str(), ",id=net0"), "-device", device))
}

// ---------------------------------------------------------------------------
// The whole vector
// ---------------------------------------------------------------------------

/// Why raw arguments are refused.
pub const RAW_ARGS_REFUSED: &'static str =
    "extraArgs were supplied, but the raw-args escape hatch is disabled. Raw QEMU arguments are host-compromise-equivalent, so they are refused by default (ADR-0002). Set QMP_MCP_ALLOW_RAW_ARGS=true to opt in (trusted single-tenant hosts only), or remove extraArgs and express the hardware through the Hardware Spec.";

/// The machine, and the CPU, core count and memory where they are not fixed.
pub open spec fn machine_args(spec: HardwareSpec, options: ArgvOptions) -> Seq<Seq<char>> {
    let machine = seq!["-machine"@, escaped(spec.machine@) + ",accel="@ + options.accel.name()];
    if is_raspi(spec.machine@) {
        machine
    } else {
        machine + seq![
            "-cpu"@,
            spec.cpu@,
            "-smp"@,
            text::decimal(spec.vcpus as nat),
            "-m"@,
            text::decimal(spec.memory_mb as nat),
        ]
    }
}

/// The kernel, initial RAM disk, device tree and command line of a direct boot.
pub open spec fn kernel_args(
    spec: HardwareSpec,
    options: ArgvOptions,
    images: StoreSnapshot,
) -> Result<Seq<Seq<char>>, Seq<char>> {
    followed_by(
        followed_by(
            followed_by(
                artifact_args("-kernel"@, spec.kernel, options.image_dir, "kernel"@, images),
                artifact_args("-initrd"@, spec.initrd, options.image_dir, "initrd"@, images),
            ),
            artifact_args("-dtb"@, spec.dtb, options.image_dir, "dtb"@, images),
        ),
        Ok(
            match spec.append_cmdline {
                Some(c) => seq!["-append"@, c@],
                None => Seq::empty(),
            },
        ),
    )
}

/// The fixed flags and the Display.
pub open spec fn display_args(display: DisplayMode) -> Seq<Seq<char>> {
    let fixed = seq!["-nodefaults"@, "-nographic"@, "-S"@];
    match display {
        DisplayMode::NoDisplay => fixed,
        DisplayMode::Vnc => fixed + seq!["-vnc"@, "127.0.0.1:0,password=on"@],
    }
}

/// The boot order.
pub open spec fn boot_args(boot: Option<hardware_spec::BootOrder>) -> Seq<Seq<char>> {
    match boot {
        Some(b) => seq!["-boot"@, "order="@ + escaped(b@)],
        None => Seq::empty(),
    }
}

/// The QMP monitor socket.
pub open spec fn qmp_args(options: ArgvOptions) -> Seq<Seq<char>> {
    seq!["-qmp"@, "unix:"@ + options.qmp_socket_path@ + ",server=on,wait=off"@]
}

/// The raw arguments, or why they are refused.
pub open spec fn raw_args(spec: HardwareSpec, options: ArgvOptions) -> Result<
    Seq<Seq<char>>,
    Seq<char>,
> {
    match spec.extra_args {
        None => nothing(),
        Some(extra) => if extra@.len() == 0 {
            nothing()
        } else if !options.allow_raw_args {
            Err(RAW_ARGS_REFUSED@)
        } else {
            Ok(text::texts(extra@))
        },
    }
}

/// The caps, as a step of the generation that adds no arguments.
pub open spec fn caps_step(spec: HardwareSpec, options: ArgvOptions) -> Result<
    Seq<Seq<char>>,
    Seq<char>,
> {
    match cap_problem(spec, options) {
        Some(m) => Err(m),
        None => nothing(),
    }
}

/// The arguments up to and including the Display.
pub open spec fn argv_front(spec: HardwareSpec, options: ArgvOptions, stores: Stores) -> Result<
    Seq<Seq<char>>,
    Seq<char>,
> {
    followed_by(
        followed_by(
            followed_by(caps_step(spec, options), Ok(machine_args(spec, options))),
            kernel_args(spec, options, stores.images),
        ),
        Ok(display_args(spec.display)),
    )
}

/// The whole argument vector, or the first reason why the spec is refused. The display adapter,
/// the shared folder, the Serial Port and its log name have no part in it.
pub open spec fn argv(spec: HardwareSpec, options: ArgvOptions, stores: Stores) -> Result<
    Seq<Seq<char>>,
    Seq<char>,
> {
    followed_by(
        followed_by(
            followed_by(
                followed_by(
                    followed_by(
                        followed_by(
                            argv_front(spec, options, stores),
                            drives_args(spec.disks@, options.image_dir, stores.images),
                        ),
                        cdrom_args(spec.cdrom, options.iso_dir, stores.isos),
                    ),
                    Ok(boot_args(spec.boot)),
                ),
                network_args(spec.network, spec.machine@, options),
            ),
            Ok(qmp_args(options)),
        ),
        raw_args(spec, options),
    )
}

fn build_machine_args(spec: &HardwareSpec, options: &ArgvOptions) -> (r: Vec<String>)
    ensures
        text::texts(r@) == machine_args(*spec, *options),
{
    let machine = escape_qemu_opts_value(spec.machine.as_str());
    let mut argv: Vec<String> = Vec::new();
    argv.push("-machine".to_string());
    argv.push(text::cat3(machine.as_str(), ",accel=", options.accel.as_str()));
    if !is_raspi_machine(spec.machine.as_str()) {
        argv.push("-cpu".to_string());
        argv.push(spec.cpu.as_str().to_string());
        argv.push("-smp".to_string());
        argv.push(text::decimal_u64(spec.vcpus as u64));
        argv.push("-m".to_string());
        argv.push(text::decimal_u64(spec.memory_mb as u64));
    }
    assert(text::texts(argv@) =~= machine_args(*spec, *options));
    argv
}

fn build_kernel_args(spec: &HardwareSpec, options: &ArgvOptions, images: &StoreSnapshot) -> (r:
    Result<Vec<String>, HardwareSpecError>)
    ensures
        hardware_spec::args_agree(r, kernel_args(*spec, *options, *images)),
{
    broadcast use text::group_texts;

    let mut argv = match build_artifact_args(
        "-kernel",
        &spec.kernel,
        &options.image_dir,
        "kernel",
        images,
    ) {
        Ok(a) => a,
        Err(e) => return Err(e),
    };
    let mut initrd = match build_artifact_args(
        "-initrd",
        &spec.initrd,
        &options.image_dir,
        "initrd",
        images,
    ) {
        Ok(a) => a,
        Err(e) => return Err(e),
    };
    argv.append(&mut initrd);
    let mut dtb = match build_artifact_args("-dtb", &spec.dtb, &options.image_dir, "dtb", images) {
        Ok(a) => a,
        Err(e) => return Err(e),
    };
    argv.append(&mut dtb);
    let ghost before = text::texts(argv@);
    if let Some(cmdline) = &spec.append_cmdline {
        argv.push("-append".to_string());
        argv.push(cmdline.clone());
        assert(text::texts(argv@) =~= before + seq!["-append"@, cmdline@]);
    } else {
        assert(before =~= before + Seq::<Seq<char>>::empty());
    }
    Ok(argv)
}

fn build_display_args(display: DisplayMode) -> (r: Vec<String>)
    ensures
        text::texts(r@) == display_args(display),
{
    let mut argv: Vec<String> = Vec::new();
    argv.push("-nodefaults".to_string());
    argv.push("-nographic".to_string());
    argv.push("-S".to_string());
    if display == DisplayMode::Vnc {
        argv.push("-vnc".to_string());
        argv.push("127.0.0.1:0,password=on".to_string());
    }
    assert(text::texts(argv@) =~= display_args(display));
    argv
}

fn build_tail_args(spec: &HardwareSpec, options: &ArgvOptions) -> (r: Result<
    Vec<String>,
    HardwareSpecError,
>)
    ensures
        hardware_spec::args_agree(
            r,
            followed_by(Ok(qmp_args(*options)), raw_args(*spec, *options)),
        ),
{
    broadcast use text::group_texts;

    let mut argv: Vec<String> = Vec::new();
    argv.push("-qmp".to_string());
    argv.push(text::cat3("unix:", options.qmp_socket_path.as_str(), ",server=on,wait=off"));
    assert(text::texts(argv@) =~= qmp_args(*options));
    if let Some(extra) = &spec.extra_args {
        if extra.len() > 0 {
            if !options.allow_raw_args {
                return Err(HardwareSpecError(RAW_ARGS_REFUSED.to_string()));
            }
            let mut copy = text::clone_strings(extra);
            argv.append(&mut copy);
            return Ok(argv);
        }
    }
    assert(qmp_args(*options) =~= qmp_args(*options) + Seq::<Seq<char>>::empty());
    Ok(argv)
}

/// Generate the full `qemu-system-*` argument vector (excluding the program name) from a
/// validated spec.
pub fn build_argv(spec: &HardwareSpec, options: &ArgvOptions, stores: &Stores) -> (r: Result<
    Vec<String>,
    HardwareSpecError,
>)
    ensures
        hardware_spec::args_agree(r, argv(*spec, *options, *stores)),
{
    broadcast use text::group_texts;

    match assert_within_resource_caps(spec, options) {
        Ok(()) => {},
        Err(e) => return Err(e),
    }
    let mut out = build_machine_args(spec, options);
    assert(text::texts(out@) =~= Seq::<Seq<char>>::empty() + machine_args(*spec, *options));
    let mut kernel = match build_kernel_args(spec, options, &stores.images) {
        Ok(a) => a,
        Err(e) => return Err(e),
    };
    out.append(&mut kernel);
    let mut display = build_display_args(spec.display);
    out.append(&mut display);
    assert(argv_front(*spec, *options, *stores) == Ok::<Seq<Seq<char>>, Seq<char>>(
        text::texts(out@),
    ));
    let mut drives = match build_drives_args(&spec.disks, &options.image_dir, &stores.images) {
        Ok(a) => a,
        Err(e) => return Err(e),
    };
    out.append(&mut drives);
    let mut cdrom = match build_cdrom_args(&spec.cdrom, &options.iso_dir, &stores.isos) {
        Ok(a) => a,
        Err(e) => return Err(e),
    };
    out.append(&mut cdrom);
    let ghost before = text::texts(out@);
    if let Some(boot) = &spec.boot {
        let order = escape_qemu_opts_value(boot.as_str());
        out.push("-boot".to_string());
        out.push(text::cat2("order=", order.as_str()));
    }
    assert(text::texts(out@) =~= before + boot_args(spec.boot));
    let mut network = match build_network_args(&spec.network, spec.machine.as_str(), options) {
        Ok(a) => a,
        Err(e) => return Err(e),
    };
    out.append(&mut network);
    let ghost middle = text::texts(out@);
    match build_tail_args(spec, options) {
        Ok(tail) => {
            let ghost last = text::texts(tail@);
            let mut tail = tail;
            out.append(&mut tail);
            proof {
                let raw = raw_args(*spec, *options)->Ok_0;
                assert(middle + (qmp_args(*options) + raw) =~= middle + qmp_args(*options) + raw);
            }
            Ok(out)
        },
        Err(e) => Err(e),
    }
}

// ---------------------------------------------------------------------------
// Laws
// ---------------------------------------------------------------------------

/// An escaped text is read back as one value: whatever follows it in the option string, the
/// commas in the text split nothing off.
pub proof fn escaped_values_read_back(value: Seq<char>, rest: Seq<char>)
    requires
        rest.len() == 0 || (rest[0] == ',' && (rest.len() == 1 || rest[1] != ',')),
    ensures
        read_value(escaped(value) + rest) == value,
    decreases value.len(),
{
    let s = escaped(value) + rest;
    if value.len() == 0 {
        assert(s =~= rest);
        assert(read_value(rest) =~= value);
    } else {
        let tail = escaped(value.skip(1)) + rest;
        escaped_values_read_back(value.skip(1), rest);
        if value[0] == ',' {
            assert(s[0] == ',');
            assert(s[1] == ',');
            assert(s.skip(2) =~= tail);
            assert(seq![','] + value.skip(1) =~= value);
        } else {
            assert(s[0] == value[0]);
            assert(s.skip(1) =~= tail);
            assert(seq![value[0]] + value.skip(1) =~= value);
        }
    }
}

/// The `file` property of a generated drive is the resolved path, whatever commas the path
/// holds.
pub proof fn drive_path_is_one_property(disk: Disk, path: Seq<char>)
    ensures
        text::has_prefix(drive_value(disk, path), "file="@),
        read_value(drive_value(disk, path).skip("file="@.len() as int)) == path,
{
    reveal_strlit("file=");
    reveal_strlit(",format=");
    let rest = ",format="@ + disk.format.name() + ",if="@ + disk.interface.name() + ",media=disk"@
        + (if disk.readonly {
        ",readonly=on"@
    } else {
        Seq::empty()
    });
    let v = drive_value(disk, path);
    assert(v =~= "file="@ + (escaped(path) + rest));
    assert(v.skip("file="@.len() as int) =~= escaped(path) + rest);
    assert(v.take("file="@.len() as int) =~= "file="@);
    escaped_values_read_back(path, rest);
}

/// Where user-mode arguments are generated, every forwarded host port is inside the range.
pub proof fn forwarded_ports_are_in_range(
    forwards: Seq<hardware_spec::HostForward>,
    range: PortRange,
)
    requires
        user_netdev(forwards, range) is Ok,
    ensures
        forall|i: int|
            0 <= i < forwards.len() ==> range.low <= (#[trigger] forwards[i]).host_port
                <= range.high,
    decreases forwards.len(),
{
    if forwards.len() > 0 {
        forwarded_ports_are_in_range(forwards.drop_last(), range);
        assert forall|i: int| 0 <= i < forwards.len() implies range.low <= (#[trigger] forwards[i]).host_port
            <= range.high by {
            if i < forwards.len() - 1 {
                assert(forwards.drop_last()[i] == forwards[i]);
            }
        }
    }
}

/// A spec whose arguments are generated is within the operator's caps, uses host-level
/// networking only where it is allowed, and carries raw arguments only where they are.
pub proof fn generated_specs_are_permitted(
    spec: HardwareSpec,
    options: ArgvOptions,
    stores: Stores,
)
    requires
        argv(spec, options, stores) is Ok,
    ensures
        options.max_memory_mb matches Some(cap) ==> spec.memory_mb <= cap,
        options.max_vcpus matches Some(cap) ==> spec.vcpus <= cap,
        spec.network.mode == NetworkMode::Tap || spec.network.mode == NetworkMode::Bridge
            ==> options.allow_host_net,
        spec.extra_args matches Some(extra) ==> extra@.len() == 0 || options.allow_raw_args,
{
}

/// Every generated vector starts the machine frozen and wires the QMP socket, and it ends
/// with the raw arguments, if there are any.
pub proof fn generated_vectors_start_frozen(
    spec: HardwareSpec,
    options: ArgvOptions,
    stores: Stores,
    out: Seq<Seq<char>>,
)
    requires
        argv(spec, options, stores) == Ok::<Seq<Seq<char>>, Seq<char>>(out),
    ensures
        out.contains("-S"@),
        out.contains("-nodefaults"@),
        out.contains("-nographic"@),
        out.contains("unix:"@ + options.qmp_socket_path@ + ",server=on,wait=off"@),
        out.len() >= raw_args(spec, options)->Ok_0.len(),
        out.skip(out.len() - raw_args(spec, options)->Ok_0.len()) == raw_args(spec, options)->Ok_0,
{
    let caps: Seq<Seq<char>> = Seq::empty();
    let front = caps + machine_args(spec, options) + kernel_args(
        spec,
        options,
        stores.images,
    )->Ok_0;
    let display = display_args(spec.display);
    let middle = front + display + drives_args(
        spec.disks@,
        options.image_dir,
        stores.images,
    )->Ok_0 + cdrom_args(spec.cdrom, options.iso_dir, stores.isos)->Ok_0 + boot_args(spec.boot)
        + network_args(spec.network, spec.machine@, options)->Ok_0;
    let raw = raw_args(spec, options)->Ok_0;
    assert(out == middle + qmp_args(options) + raw);
    assert(display[0] == "-nodefaults"@ && display[1] == "-nographic"@ && display[2] == "-S"@);
    let k = front.len() as int;
    assert(out[k] == display[0]);
    assert(out[k + 1] == display[1]);
    assert(out[k + 2] == display[2]);
    assert(out[middle.len() as int + 1] == qmp_args(options)[1]);
    assert(out.skip(out.len() - raw.len()) =~= raw);
}

/// The arguments at `k` and after it are a flag and its value.
pub open spec fn pair_at(
    out: Seq<Seq<char>>,
    k: int,
    flag: Seq<char>,
    value: Seq<char>,
) -> bool {
    0 <= k && k + 1 < out.len() && out[k] == flag && out[k + 1] == value
}

/// A name resolves in a configured store, to this path.
pub open spec fn resolves_to(
    name: Seq<char>,
    dir: Option<String>,
    labels: store_path::LabelTexts,
    snapshot: StoreSnapshot,
    path: Seq<char>,
) -> bool {
    dir matches Some(d) && !text::is_blank(d@) && store_path::resolution(
        name,
        d@,
        labels,
        snapshot,
    ) == Ok::<Seq<char>, Seq<char>>(path)
}

/// A name resolves in a configured store.
pub open spec fn resolves(
    name: Seq<char>,
    dir: Option<String>,
    labels: store_path::LabelTexts,
    snapshot: StoreSnapshot,
) -> bool {
    dir matches Some(d) && !text::is_blank(d@) && store_path::resolution(
        name,
        d@,
        labels,
        snapshot,
    ) is Ok
}

/// How many arguments an optional flag with a value takes.
pub open spec fn two_if(present: bool) -> int {
    if present {
        2
    } else {
        0
    }
}

/// Every disk of a spec is attached, in the order of the spec and each once: the drive section
/// has two arguments for each, `-drive` and a value that names the path to which the image
/// resolves, its format, its controller and whether it is read-only. Where an image does not
/// resolve there are no arguments at all.
pub proof fn every_disk_is_attached(
    disks: Seq<Disk>,
    image_dir: Option<String>,
    images: StoreSnapshot,
)
    ensures
        drives_args(disks, image_dir, images) is Ok <==> forall|i: int|
            0 <= i < disks.len() ==> resolves(
                (#[trigger] disks[i]).image@,
                image_dir,
                image_store::image_wording(),
                images,
            ),
        drives_args(disks, image_dir, images) matches Ok(out) ==> out.len() == 2 * disks.len()
            && forall|i: int|
            0 <= i < disks.len() ==> out[2 * i] == "-drive"@ && {
                let d = #[trigger] disks[i];
                let path = store_path::resolution(
                    d.image@,
                    image_dir->0@,
                    image_store::image_wording(),
                    images,
                )->Ok_0;
                &&& resolves_to(d.image@, image_dir, image_store::image_wording(), images, path)
                &&& out[2 * i + 1] == "file="@ + escaped(path) + ",format="@ + d.format.name()
                    + ",if="@ + d.interface.name() + ",media=disk"@ + (if d.readonly {
                    ",readonly=on"@
                } else {
                    Seq::empty()
                })
            },
    decreases disks.len(),
{
    if disks.len() > 0 {
        let init = disks.drop_last();
        let last = disks.last();
        every_disk_is_attached(init, image_dir, images);
        assert(disks[disks.len() - 1] == last);
        assert forall|i: int| 0 <= i < init.len() implies init[i] == disks[i] by {}
        let before = drives_args(init, image_dir, images);
        let here = drive_args(last, image_dir, images);
        if drives_args(disks, image_dir, images) is Ok {
            assert forall|i: int| 0 <= i < disks.len() implies resolves(
                (#[trigger] disks[i]).image@,
                image_dir,
                image_store::image_wording(),
                images,
            ) by {
                if i < init.len() {
                    assert(resolves(
                        init[i].image@,
                        image_dir,
                        image_store::image_wording(),
                        images,
                    ));
                }
            }
            let out = drives_args(disks, image_dir, images)->Ok_0;
            assert(out == before->Ok_0 + here->Ok_0);
            assert(here->Ok_0.len() == 2);
            assert forall|i: int| 0 <= i < disks.len() implies out[2 * i] == "-drive"@ && {
                let d = #[trigger] disks[i];
                let path = store_path::resolution(
                    d.image@,
                    image_dir->0@,
                    image_store::image_wording(),
                    images,
                )->Ok_0;
                &&& resolves_to(d.image@, image_dir, image_store::image_wording(), images, path)
                &&& out[2 * i + 1] == "file="@ + escaped(path) + ",format="@ + d.format.name()
                    + ",if="@ + d.interface.name() + ",media=disk"@ + (if d.readonly {
                    ",readonly=on"@
                } else {
                    Seq::empty()
                })
            } by {
                if i < init.len() {
                    assert(init[i] == disks[i]);
                    assert(out[2 * i] == before->Ok_0[2 * i]);
                    assert(out[2 * i + 1] == before->Ok_0[2 * i + 1]);
                } else {
                    assert(out[2 * i] == here->Ok_0[0]);
                    assert(out[2 * i + 1] == here->Ok_0[1]);
                    let path = store_path::resolution(
                        last.image@,
                        image_dir->0@,
                        image_store::image_wording(),
                        images,
                    )->Ok_0;
                    assert(drive_value(last, path) =~= "file="@ + escaped(path) + ",format="@
                        + last.format.name() + ",if="@ + last.interface.name() + ",media=disk"@ + (
                    if last.readonly {
                        ",readonly=on"@
                    } else {
                        Seq::empty()
                    }));
                }
            }
        } else {
            if forall|i: int|
                0 <= i < disks.len() ==> resolves(
                    (#[trigger] disks[i]).image@,
                    image_dir,
                    image_store::image_wording(),
                    images,
                ) {
                assert(resolves(
                    disks[disks.len() - 1].image@,
                    image_dir,
                    image_store::image_wording(),
                    images,
                ));
                assert forall|i: int| 0 <= i < init.len() implies resolves(
                    (#[trigger] init[i]).image@,
                    image_dir,
                    image_store::image_wording(),
                    images,
                ) by {
                    assert(disks[i] == init[i]);
                }
            }
        }
    }
}

/// The property of a port-forward: its protocol and ports, pinned to the loopback address.
pub open spec fn forward_property(f: hardware_spec::HostForward) -> Seq<char> {
    "hostfwd="@ + f.proto.name() + ":127.0.0.1:"@ + text::decimal(f.host_port as nat) + "-:"@
        + text::decimal(f.guest_port as nat)
}

/// The user-mode backend holds a property for every port-forward, in order, after its own two,
/// and there is one exactly where each host port is in the range.
pub proof fn every_forward_is_set_up(
    forwards: Seq<hardware_spec::HostForward>,
    range: PortRange,
)
    ensures
        user_netdev(forwards, range) is Ok <==> forall|i: int|
            0 <= i < forwards.len() ==> range.low <= (#[trigger] forwards[i]).host_port
                <= range.high,
        user_netdev(forwards, range) matches Ok(netdev) ==> netdev == text::joined(
            seq!["user"@, "id=net0"@] + forwards.map_values(
                |f: hardware_spec::HostForward| forward_property(f),
            ),
            ","@,
        ),
    decreases forwards.len(),
{
    let own = seq!["user"@, "id=net0"@];
    let all = own + forwards.map_values(|f: hardware_spec::HostForward| forward_property(f));
    reveal_strlit(",");
    if forwards.len() == 0 {
        assert(all =~= own);
        reveal_strlit("user");
        reveal_strlit("id=net0");
        reveal_strlit("user,id=net0");
        assert(own.drop_last() =~= seq!["user"@]);
        assert(text::joined(own.drop_last(), ","@) == "user"@);
        assert(text::joined(own, ","@) =~= "user,id=net0"@);
    } else {
        let init = forwards.drop_last();
        let f = forwards.last();
        every_forward_is_set_up(init, range);
        assert(forwards[forwards.len() - 1] == f);
        if forall|i: int|
            0 <= i < forwards.len() ==> range.low <= (#[trigger] forwards[i]).host_port
                <= range.high {
            assert forall|i: int| 0 <= i < init.len() implies range.low <= (
            #[trigger] init[i]).host_port <= range.high by {
                assert(init[i] == forwards[i]);
            }
        }
        if user_netdev(forwards, range) is Ok {
            forwarded_ports_are_in_range(forwards, range);
            let before = own + init.map_values(
                |f: hardware_spec::HostForward| forward_property(f),
            );
            assert(all.drop_last() =~= before);
            assert(all.last() == forward_property(f));
            reveal_strlit(",hostfwd=");
            reveal_strlit("hostfwd=");
            assert(",hostfwd="@ =~= ","@ + "hostfwd="@);
            assert(forward_value(f) =~= ","@ + forward_property(f));
            assert(text::joined(all, ","@) =~= text::joined(before, ","@) + (","@
                + forward_property(f)));
        }
    }
}

/// A board is a fixed-hardware one exactly where it stands anywhere in the list of them.
pub proof fn listed_boards_have_fixed_hardware(machine: Seq<char>, i: int)
    ensures
        0 <= i < RASPI_MACHINES@.len() ==> is_raspi(RASPI_MACHINES@[i]@),
        is_raspi(machine) ==> exists|k: int|
            0 <= k < RASPI_MACHINES@.len() && (#[trigger] RASPI_MACHINES@[k])@ == machine,
        RASPI_MACHINES@.len() == 6,
{
    if 0 <= i < RASPI_MACHINES@.len() {
        assert(RASPI_MACHINES[i]@ == RASPI_MACHINES@[i]@);
    }
    if is_raspi(machine) {
        let k = choose|k: int| 0 <= k < 6 && (#[trigger] RASPI_MACHINES[k])@ == machine;
        assert(RASPI_MACHINES@[k]@ == machine);
    }
}

/// A network can be attached: forwards only in user mode and inside the range, a NIC only on a
/// bus that the machine has, host-level networking only where it is allowed.
pub open spec fn can_attach(network: Network, machine: Seq<char>, options: ArgvOptions) -> bool {
    &&& network.mode == NetworkMode::User || network.host_forwards@.len() == 0
    &&& network.mode == NetworkMode::NoNetwork || (network.model == NicModel::UsbNet) == is_raspi(
        machine,
    )
    &&& network.mode == NetworkMode::Tap || network.mode == NetworkMode::Bridge
        ==> options.allow_host_net
    &&& network.mode == NetworkMode::User ==> forall|i: int|
        0 <= i < network.host_forwards@.len() ==> port_range(options).low <= (
        #[trigger] network.host_forwards@[i]).host_port <= port_range(options).high
}

/// A vector is generated exactly where the spec is within the caps, all that it refers to
/// resolves in its store, its network can be attached, and raw arguments are allowed if it has
/// any.
pub proof fn vectors_are_generated_where_permitted(
    spec: HardwareSpec,
    options: ArgvOptions,
    stores: Stores,
)
    ensures
        argv(spec, options, stores) is Ok <==> {
            let artifact = |name: Option<String>|
                name matches Some(n) ==> resolves(
                    n@,
                    options.image_dir,
                    image_store::image_wording(),
                    stores.images,
                );
            &&& options.max_memory_mb matches Some(cap) ==> spec.memory_mb <= cap
            &&& options.max_vcpus matches Some(cap) ==> spec.vcpus <= cap
            &&& artifact(spec.kernel)
            &&& artifact(spec.initrd)
            &&& artifact(spec.dtb)
            &&& forall|i: int|
                0 <= i < spec.disks@.len() ==> resolves(
                    (#[trigger] spec.disks@[i]).image@,
                    options.image_dir,
                    image_store::image_wording(),
                    stores.images,
                )
            &&& spec.cdrom matches Some(c) ==> resolves(
                c.iso@,
                options.iso_dir,
                iso_store::iso_wording(),
                stores.isos,
            )
            &&& can_attach(spec.network, spec.machine@, options)
            &&& spec.extra_args matches Some(extra) ==> extra@.len() == 0 || options.allow_raw_args
        },
{
    every_disk_is_attached(spec.disks@, options.image_dir, stores.images);
    every_forward_is_set_up(spec.network.host_forwards@, port_range(options));
}

/// The parts of a vector, in the order in which they stand in it.
proof fn lemma_sections(
    spec: HardwareSpec,
    options: ArgvOptions,
    stores: Stores,
    out: Seq<Seq<char>>,
)
    requires
        argv(spec, options, stores) == Ok::<Seq<Seq<char>>, Seq<char>>(out),
    ensures
        ({
            let machine = machine_args(spec, options);
            let kernel = kernel_args(spec, options, stores.images)->Ok_0;
            let display = display_args(spec.display);
            let drives = drives_args(spec.disks@, options.image_dir, stores.images)->Ok_0;
            let cdrom = cdrom_args(spec.cdrom, options.iso_dir, stores.isos)->Ok_0;
            let boot = boot_args(spec.boot);
            let network = network_args(spec.network, spec.machine@, options)->Ok_0;
            &&& kernel_args(spec, options, stores.images) is Ok
            &&& drives_args(spec.disks@, options.image_dir, stores.images) is Ok
            &&& cdrom_args(spec.cdrom, options.iso_dir, stores.isos) is Ok
            &&& network_args(spec.network, spec.machine@, options) is Ok
            &&& raw_args(spec, options) is Ok
            &&& out == machine + kernel + display + drives + cdrom + boot + network + qmp_args(
                options,
            ) + raw_args(spec, options)->Ok_0
        }),
{
    let machine = machine_args(spec, options);
    let empty: Seq<Seq<char>> = Seq::empty();
    assert(empty + machine =~= machine);
}

/// Where each of nine sections stands in the sequence of them all.
proof fn lemma_places(
    a: Seq<Seq<char>>,
    b: Seq<Seq<char>>,
    c: Seq<Seq<char>>,
    d: Seq<Seq<char>>,
    e: Seq<Seq<char>>,
    f: Seq<Seq<char>>,
    g: Seq<Seq<char>>,
    h: Seq<Seq<char>>,
    k: Seq<Seq<char>>,
)
    ensures
        ({
            let out = a + b + c + d + e + f + g + h + k;
            let pc = a.len() as int + b.len();
            let pd = pc + c.len();
            let pe = pd + d.len();
            let pf = pe + e.len();
            let pg = pf + f.len();
            let ph = pg + g.len();
            let pk = ph + h.len();
            &&& out.len() == pk + k.len()
            &&& forall|j: int| 0 <= j < a.len() ==> out[j] == #[trigger] a[j]
            &&& forall|j: int| 0 <= j < b.len() ==> out[a.len() + j] == #[trigger] b[j]
            &&& forall|j: int| 0 <= j < c.len() ==> out[pc + j] == #[trigger] c[j]
            &&& forall|j: int| 0 <= j < d.len() ==> out[pd + j] == #[trigger] d[j]
            &&& forall|j: int| 0 <= j < e.len() ==> out[pe + j] == #[trigger] e[j]
            &&& forall|j: int| 0 <= j < f.len() ==> out[pf + j] == #[trigger] f[j]
            &&& forall|j: int| 0 <= j < g.len() ==> out[pg + j] == #[trigger] g[j]
            &&& forall|j: int| 0 <= j < h.len() ==> out[ph + j] == #[trigger] h[j]
            &&& forall|j: int| 0 <= j < k.len() ==> out[pk + j] == #[trigger] k[j]
        }),
{
}

/// The front of a vector is the machine with its accelerator, then, unless the board has fixed
/// hardware, the CPU, the CPU count and the memory, then what is booted directly, then the
/// flags that freeze and lock down the guest, and the Display.
#[verifier::rlimit(60)]
pub proof fn vectors_begin_with_the_machine(
    spec: HardwareSpec,
    options: ArgvOptions,
    stores: Stores,
    out: Seq<Seq<char>>,
)
    requires
        argv(spec, options, stores) == Ok::<Seq<Seq<char>>, Seq<char>>(out),
    ensures
        ({
            let m: int = if is_raspi(spec.machine@) {
                2
            } else {
                8
            };
            let i = m + two_if(spec.kernel is Some);
            let d = i + two_if(spec.initrd is Some);
            let a = d + two_if(spec.dtb is Some);
            let f = a + two_if(spec.append_cmdline is Some);
            let labels = image_store::image_wording();
            &&& pair_at(
                out,
                0,
                "-machine"@,
                escaped(spec.machine@) + ",accel="@ + options.accel.name(),
            )
            &&& !is_raspi(spec.machine@) ==> pair_at(out, 2, "-cpu"@, spec.cpu@) && pair_at(
                out,
                4,
                "-smp"@,
                text::decimal(spec.vcpus as nat),
            ) && pair_at(out, 6, "-m"@, text::decimal(spec.memory_mb as nat))
            &&& spec.kernel matches Some(n) ==> out[m] == "-kernel"@ && resolves_to(
                n@,
                options.image_dir,
                labels,
                stores.images,
                out[m + 1],
            )
            &&& spec.initrd matches Some(n) ==> out[i] == "-initrd"@ && resolves_to(
                n@,
                options.image_dir,
                labels,
                stores.images,
                out[i + 1],
            )
            &&& spec.dtb matches Some(n) ==> out[d] == "-dtb"@ && resolves_to(
                n@,
                options.image_dir,
                labels,
                stores.images,
                out[d + 1],
            )
            &&& spec.append_cmdline matches Some(c) ==> pair_at(out, a, "-append"@, c@)
            &&& out[f] == "-nodefaults"@
            &&& pair_at(out, f + 1, "-nographic"@, "-S"@)
            &&& spec.display == DisplayMode::Vnc ==> pair_at(
                out,
                f + 3,
                "-vnc"@,
                "127.0.0.1:0,password=on"@,
            )
        }),
{
    lemma_sections(spec, options, stores, out);
    let machine = machine_args(spec, options);
    let kernel = kernel_args(spec, options, stores.images)->Ok_0;
    let display = display_args(spec.display);
    lemma_kernel_section(spec, options, stores.images, kernel);
    let m = machine.len() as int;
    let k = kernel.len() as int;
    lemma_places(
        machine,
        kernel,
        display,
        drives_args(spec.disks@, options.image_dir, stores.images)->Ok_0,
        cdrom_args(spec.cdrom, options.iso_dir, stores.isos)->Ok_0,
        boot_args(spec.boot),
        network_args(spec.network, spec.machine@, options)->Ok_0,
        qmp_args(options),
        raw_args(spec, options)->Ok_0,
    );
    assert(out[0] == machine[0] && out[1] == machine[1]);
    if !is_raspi(spec.machine@) {
        assert(out[2] == machine[2] && out[3] == machine[3] && out[4] == machine[4] && out[5]
            == machine[5] && out[6] == machine[6] && out[7] == machine[7]);
    }
    let i = two_if(spec.kernel is Some);
    let d = i + two_if(spec.initrd is Some);
    let a = d + two_if(spec.dtb is Some);
    assert(spec.kernel is Some ==> out[m] == kernel[0] && out[m + 1] == kernel[1]);
    assert(spec.initrd is Some ==> out[m + i] == kernel[i] && out[m + i + 1] == kernel[i + 1]);
    assert(spec.dtb is Some ==> out[m + d] == kernel[d] && out[m + d + 1] == kernel[d + 1]);
    assert(spec.append_cmdline is Some ==> out[m + a] == kernel[a] && out[m + a + 1]
        == kernel[a + 1]);
    assert(out[m + k] == display[0] && out[m + k + 1] == display[1] && out[m + k + 2]
        == display[2]);
    if spec.display == DisplayMode::Vnc {
        assert(out[m + k + 3] == display[3] && out[m + k + 4] == display[4]);
    }
}

proof fn lemma_kernel_section(
    spec: HardwareSpec,
    options: ArgvOptions,
    images: StoreSnapshot,
    out: Seq<Seq<char>>,
)
    requires
        kernel_args(spec, options, images) == Ok::<Seq<Seq<char>>, Seq<char>>(out),
    ensures
        ({
            let i = two_if(spec.kernel is Some);
            let d = i + two_if(spec.initrd is Some);
            let a = d + two_if(spec.dtb is Some);
            let labels = image_store::image_wording();
            &&& out.len() == a + two_if(spec.append_cmdline is Some)
            &&& spec.kernel matches Some(n) ==> out[0] == "-kernel"@ && resolves_to(
                n@,
                options.image_dir,
                labels,
                images,
                out[1],
            )
            &&& spec.initrd matches Some(n) ==> out[i] == "-initrd"@ && resolves_to(
                n@,
                options.image_dir,
                labels,
                images,
                out[i + 1],
            )
            &&& spec.dtb matches Some(n) ==> out[d] == "-dtb"@ && resolves_to(
                n@,
                options.image_dir,
                labels,
                images,
                out[d + 1],
            )
            &&& spec.append_cmdline matches Some(c) ==> pair_at(out, a, "-append"@, c@)
        }),
{
    let kernel = artifact_args("-kernel"@, spec.kernel, options.image_dir, "kernel"@, images)->Ok_0;
    let initrd = artifact_args("-initrd"@, spec.initrd, options.image_dir, "initrd"@, images)->Ok_0;
    let dtb = artifact_args("-dtb"@, spec.dtb, options.image_dir, "dtb"@, images)->Ok_0;
    let append = match spec.append_cmdline {
        Some(c) => seq!["-append"@, c@],
        None => Seq::empty(),
    };
    assert(out == kernel + initrd + dtb + append);
    let i = kernel.len() as int;
    let d = i + initrd.len();
    let a = d + dtb.len();
    assert(spec.kernel is Some ==> out[0] == kernel[0] && out[1] == kernel[1]);
    assert(spec.initrd is Some ==> out[i] == initrd[0] && out[i + 1] == initrd[1]);
    assert(spec.dtb is Some ==> out[d] == dtb[0] && out[d + 1] == dtb[1]);
    assert(spec.append_cmdline is Some ==> out[a] == append[0] && out[a + 1] == append[1]);
}

/// The back of a vector is two arguments for each disk, the CD-ROM, the boot order, the network,
/// the QMP socket and the raw arguments, and nothing more: the vector is exactly as long as
/// these parts and the front of it.
#[verifier::rlimit(60)]
pub proof fn vectors_end_with_the_devices(
    spec: HardwareSpec,
    options: ArgvOptions,
    stores: Stores,
    out: Seq<Seq<char>>,
)
    requires
        argv(spec, options, stores) == Ok::<Seq<Seq<char>>, Seq<char>>(out),
    ensures
        ({
            let m: int = if is_raspi(spec.machine@) {
                2
            } else {
                8
            };
            let f = m + two_if(spec.kernel is Some) + two_if(spec.initrd is Some) + two_if(
                spec.dtb is Some,
            ) + two_if(spec.append_cmdline is Some);
            let v = f + 3 + two_if(spec.display == DisplayMode::Vnc);
            let c = v + 2 * spec.disks@.len();
            let b = c + two_if(spec.cdrom is Some);
            let n = b + two_if(spec.boot is Some);
            let q = n + 2 * two_if(spec.network.mode != NetworkMode::NoNetwork);
            let raw = q + 2;
            &&& forall|i: int|
                0 <= i < spec.disks@.len() ==> {
                    let d = #[trigger] spec.disks@[i];
                    let path = store_path::resolution(
                        d.image@,
                        options.image_dir->0@,
                        image_store::image_wording(),
                        stores.images,
                    )->Ok_0;
                    &&& resolves_to(
                        d.image@,
                        options.image_dir,
                        image_store::image_wording(),
                        stores.images,
                        path,
                    )
                    &&& pair_at(
                        out,
                        v + 2 * i,
                        "-drive"@,
                        "file="@ + escaped(path) + ",format="@ + d.format.name() + ",if="@
                            + d.interface.name() + ",media=disk"@ + (if d.readonly {
                            ",readonly=on"@
                        } else {
                            Seq::empty()
                        }),
                    )
                }
            &&& spec.cdrom matches Some(cd) ==> {
                let path = store_path::resolution(
                    cd.iso@,
                    options.iso_dir->0@,
                    iso_store::iso_wording(),
                    stores.isos,
                )->Ok_0;
                &&& resolves_to(
                    cd.iso@,
                    options.iso_dir,
                    iso_store::iso_wording(),
                    stores.isos,
                    path,
                )
                &&& pair_at(
                    out,
                    c,
                    "-drive"@,
                    "file="@ + escaped(path) + ",media=cdrom,readonly=on,format=raw"@,
                )
            }
            &&& spec.boot matches Some(order) ==> pair_at(
                out,
                b,
                "-boot"@,
                "order="@ + escaped(order@),
            )
            &&& spec.network.mode != NetworkMode::NoNetwork ==> out[n] == "-netdev"@ && pair_at(
                out,
                n + 2,
                "-device"@,
                escaped(spec.network.model.name()) + ",netdev=net0"@,
            )
            &&& spec.network.mode == NetworkMode::User ==> out[n + 1] == text::joined(
                seq!["user"@, "id=net0"@] + spec.network.host_forwards@.map_values(
                    |f: hardware_spec::HostForward| forward_property(f),
                ),
                ","@,
            )
            &&& spec.network.mode == NetworkMode::Tap || spec.network.mode == NetworkMode::Bridge
                ==> out[n + 1] == escaped(spec.network.mode.name()) + ",id=net0"@
            &&& pair_at(
                out,
                q,
                "-qmp"@,
                "unix:"@ + options.qmp_socket_path@ + ",server=on,wait=off"@,
            )
            &&& spec.extra_args is None ==> out.len() == raw
            &&& spec.extra_args matches Some(extra) ==> out.len() == raw + extra@.len() && forall|i: int|

                0 <= i < extra@.len() ==> out[raw + i] == (#[trigger] extra@[i])@
        }),
{
    lemma_sections(spec, options, stores, out);
    every_disk_is_attached(spec.disks@, options.image_dir, stores.images);
    every_forward_is_set_up(spec.network.host_forwards@, port_range(options));
    let machine = machine_args(spec, options);
    let kernel = kernel_args(spec, options, stores.images)->Ok_0;
    lemma_kernel_section(spec, options, stores.images, kernel);
    let display = display_args(spec.display);
    let drives = drives_args(spec.disks@, options.image_dir, stores.images)->Ok_0;
    let cdrom = cdrom_args(spec.cdrom, options.iso_dir, stores.isos)->Ok_0;
    let boot = boot_args(spec.boot);
    let network = network_args(spec.network, spec.machine@, options)->Ok_0;
    let qmp = qmp_args(options);
    let raw = raw_args(spec, options)->Ok_0;
    let v = (machine + kernel + display).len() as int;
    let c = v + drives.len();
    let b = c + cdrom.len();
    let n = b + boot.len();
    let q = n + network.len();
    let z = q + qmp.len();
    lemma_places(machine, kernel, display, drives, cdrom, boot, network, qmp, raw);
    assert forall|i: int| 0 <= i < spec.disks@.len() implies {
        let d = #[trigger] spec.disks@[i];
        out[v + 2 * i] == drives[2 * i] && out[v + 2 * i + 1] == drives[2 * i + 1]
    } by {
        assert(out[v + (2 * i)] == drives[2 * i]);
        assert(out[v + (2 * i + 1)] == drives[2 * i + 1]);
    }
    assert(spec.cdrom is Some ==> out[c] == cdrom[0] && out[c + 1] == cdrom[1]);
    assert(spec.boot is Some ==> out[b] == boot[0] && out[b + 1] == boot[1]);
    if spec.network.mode != NetworkMode::NoNetwork {
        assert(out[n] == network[0] && out[n + 1] == network[1] && out[n + 2] == network[2]
            && out[n + 3] == network[3]);
    }
    assert(out[q] == qmp[0] && out[q + 1] == qmp[1]);
    if let Some(extra) = spec.extra_args {
        assert(raw.len() == extra@.len());
        assert forall|i: int| 0 <= i < extra@.len() implies out[z + i] == (
        #[trigger] extra@[i])@ by {
            assert(out[z + i] == raw[i]);
        }
    }
}

/// A refusal over the caps names the cap and what was asked for, and there is one only over a
/// cap.
pub proof fn caps_are_upper_bounds(spec: HardwareSpec, options: ArgvOptions)
    ensures
        cap_problem(spec, options) is None <==> (options.max_memory_mb matches Some(cap)
            ==> spec.memory_mb <= cap) && (options.max_vcpus matches Some(cap) ==> spec.vcpus
            <= cap),
{
}

/// The range that host ports must fall in is the configured one, or else that of the ports that
/// need no privileges.
pub proof fn ranges_default_to_unprivileged_ports(options: ArgvOptions)
    ensures
        options.hostfwd_port_range matches Some(r) ==> port_range(options) == r,
        options.hostfwd_port_range is None ==> port_range(options).low == 1024 && port_range(
            options,
        ).high == 65535,
{
}

/// A comma in a value is doubled, and every other character stands for itself.
pub proof fn commas_are_doubled(a: Seq<char>, c: char, b: Seq<char>)
    ensures
        escaped(Seq::empty()) == Seq::<char>::empty(),
        escaped(seq![',']) == seq![',', ','],
        c != ',' ==> escaped(seq![c]) == seq![c],
        escaped(a + b) == escaped(a) + escaped(b),
    decreases a.len(),
{
    reveal_with_fuel(escaped, 2);
    assert(seq![','].skip(1) =~= Seq::<char>::empty());
    assert(seq![c].skip(1) =~= Seq::<char>::empty());
    assert(escaped(seq![',']) =~= seq![',', ',']);
    assert(c != ',' ==> escaped(seq![c]) =~= seq![c]);
    if a.len() == 0 {
        assert(a + b =~= b);
        assert(escaped(a) + escaped(b) =~= escaped(b));
    } else {
        commas_are_doubled(a.skip(1), c, b);
        assert((a + b).skip(1) =~= a.skip(1) + b);
        assert((a + b)[0] == a[0]);
        assert(escaped(a + b) =~= escaped(a) + escaped(b));
    }
}

/// What each part of a vector is refused with, in the order in which the parts are generated.
pub open spec fn part_refusals(
    spec: HardwareSpec,
    options: ArgvOptions,
    stores: Stores,
) -> Seq<Option<Seq<char>>> {
    seq![
        cap_problem(spec, options),
        config::failure(
            artifact_args("-kernel"@, spec.kernel, options.image_dir, "kernel"@, stores.images),
        ),
        config::failure(
            artifact_args("-initrd"@, spec.initrd, options.image_dir, "initrd"@, stores.images),
        ),
        config::failure(
            artifact_args("-dtb"@, spec.dtb, options.image_dir, "dtb"@, stores.images),
        ),
        config::failure(drives_args(spec.disks@, options.image_dir, stores.images)),
        config::failure(cdrom_args(spec.cdrom, options.iso_dir, stores.isos)),
        config::failure(network_args(spec.network, spec.machine@, options)),
        config::failure(raw_args(spec, options)),
    ]
}

/// A vector is refused with what the first part that cannot be generated is refused with.
pub proof fn the_first_bad_part_is_reported(
    spec: HardwareSpec,
    options: ArgvOptions,
    stores: Stores,
    k: int,
)
    requires
        0 <= k < part_refusals(spec, options, stores).len(),
        part_refusals(spec, options, stores)[k] is Some,
        forall|i: int| 0 <= i < k ==> #[trigger] part_refusals(spec, options, stores)[i] is None,
    ensures
        argv(spec, options, stores) == Err::<Seq<Seq<char>>, Seq<char>>(
            part_refusals(spec, options, stores)[k]->0,
        ),
{
    let all = part_refusals(spec, options, stores);
    assert(all.len() == 8);
    assert(k > 0 ==> all[0] is None);
    assert(k > 1 ==> all[1] is None);
    assert(k > 2 ==> all[2] is None);
    assert(k > 3 ==> all[3] is None);
    assert(k > 4 ==> all[4] is None);
    assert(k > 5 ==> all[5] is None);
    assert(k > 6 ==> all[6] is None);
}

/// A refusal over a cap says what was asked for and what the cap is; memory comes first.
pub proof fn cap_refusals_name_the_numbers(spec: HardwareSpec, options: ArgvOptions)
    ensures
        options.max_memory_mb matches Some(cap) ==> spec.memory_mb > cap ==> cap_problem(
            spec,
            options,
        ) == Some(
            "memoryMb "@ + text::decimal(spec.memory_mb as nat)
                + " exceeds QMP_MCP_MAX_MEMORY_MB="@ + text::decimal(cap as nat) + ". Request "@
                + text::decimal(cap as nat)
                + " MiB or less, or raise QMP_MCP_MAX_MEMORY_MB."@,
        ),
        (options.max_memory_mb matches Some(cap) ==> spec.memory_mb <= cap) && (
        options.max_vcpus matches Some(cap) && spec.vcpus > cap) ==> cap_problem(spec, options)
            == Some(
            "vcpus "@ + text::decimal(spec.vcpus as nat) + " exceeds QMP_MCP_MAX_VCPUS="@
                + text::decimal(options.max_vcpus->0 as nat) + ". Request "@ + text::decimal(
                options.max_vcpus->0 as nat,
            ) + " vCPU(s) or less, or raise QMP_MCP_MAX_VCPUS."@,
        ),
{
}

/// What is booted directly is a flag and the path of the image, or nothing where the spec names
/// none. A refusal says of what kind it is, and either names it or says why it does not resolve.
pub proof fn artifacts_are_flags_and_paths(
    flag: Seq<char>,
    name: Option<String>,
    dir: Option<String>,
    kind: Seq<char>,
    images: StoreSnapshot,
)
    ensures
        ({
            let r = artifact_args(flag, name, dir, kind, images);
            let set = dir is Some && !text::is_blank(dir->0@);
            let found = store_path::resolution(
                name->0@,
                dir->0@,
                image_store::image_wording(),
                images,
            );
            &&& name is None ==> r is Ok && r->Ok_0.len() == 0
            &&& name is Some && set && found is Ok ==> r is Ok && r->Ok_0.len() == 2 && r->Ok_0[0]
                == flag && r->Ok_0[1] == found->Ok_0
            &&& name is Some && !set ==> r == Err::<Seq<Seq<char>>, Seq<char>>(
                "A "@ + kind + " (\""@ + name->0@
                    + "\") was requested but the Image Store directory is not configured. Set QMP_MCP_IMAGE_DIR to the Image Store path."@,
            )
            &&& name is Some && set && found is Err ==> r == Err::<Seq<Seq<char>>, Seq<char>>(
                "Invalid "@ + kind + " reference: "@ + found->Err_0,
            )
        }),
{
}

/// Where an image does not resolve, the first such disk is what the refusal is about.
pub proof fn the_first_bad_disk_is_reported(
    disks: Seq<Disk>,
    dir: Option<String>,
    images: StoreSnapshot,
    k: int,
)
    requires
        0 <= k < disks.len(),
        !resolves(disks[k].image@, dir, image_store::image_wording(), images),
        forall|i: int|
            0 <= i < k ==> resolves(
                (#[trigger] disks[i]).image@,
                dir,
                image_store::image_wording(),
                images,
            ),
    ensures
        drives_args(disks, dir, images) == Err::<Seq<Seq<char>>, Seq<char>>(
            if dir is Some && !text::is_blank(dir->0@) {
                "Invalid disk reference: "@ + store_path::resolution(
                    disks[k].image@,
                    dir->0@,
                    image_store::image_wording(),
                    images,
                )->Err_0
            } else {
                "Disk \""@ + disks[k].image@
                    + "\" was requested but the Image Store directory is not configured. Set QMP_MCP_IMAGE_DIR to the Image Store path."@
            },
        ),
    decreases disks.len(),
{
    let init = disks.drop_last();
    if k < init.len() {
        assert(init[k] == disks[k]);
        assert forall|i: int| 0 <= i < k implies resolves(
            (#[trigger] init[i]).image@,
            dir,
            image_store::image_wording(),
            images,
        ) by {
            assert(init[i] == disks[i]);
        }
        the_first_bad_disk_is_reported(init, dir, images, k);
    } else {
        every_disk_is_attached(init, dir, images);
        assert forall|i: int| 0 <= i < init.len() implies resolves(
            (#[trigger] init[i]).image@,
            dir,
            image_store::image_wording(),
            images,
        ) by {
            assert(init[i] == disks[i]);
        }
        assert(disks.last() == disks[k]);
    }
}

/// A CD-ROM that does not resolve is refused, with its name where the ISO Store is not configured
/// and with the reason otherwise. Raw arguments are refused where they are not allowed.
pub proof fn media_and_raw_arguments_are_refused_plainly(
    cdrom: Option<Cdrom>,
    dir: Option<String>,
    isos: StoreSnapshot,
    spec: HardwareSpec,
    options: ArgvOptions,
)
    ensures
        ({
            let r = cdrom_args(cdrom, dir, isos);
            let set = dir is Some && !text::is_blank(dir->0@);
            let found = store_path::resolution(
                cdrom->0.iso@,
                dir->0@,
                iso_store::iso_wording(),
                isos,
            );
            &&& cdrom is None ==> r is Ok && r->Ok_0.len() == 0
            &&& cdrom is Some && !set ==> r == Err::<Seq<Seq<char>>, Seq<char>>(
                "A CD-ROM with ISO \""@ + cdrom->0.iso@
                    + "\" was requested but the ISO Store directory is not configured. Set QMP_MCP_ISO_DIR to the read-only ISO Store path."@,
            )
            &&& cdrom is Some && set && found is Err ==> r == Err::<Seq<Seq<char>>, Seq<char>>(
                "Invalid ISO reference: "@ + found->Err_0,
            )
        }),
        spec.extra_args is Some && spec.extra_args->0@.len() > 0 && !options.allow_raw_args
            ==> raw_args(spec, options) == Err::<Seq<Seq<char>>, Seq<char>>(RAW_ARGS_REFUSED@),
{
}

/// A network that cannot be attached is refused for its forwards, or else for its NIC, or else for
/// host-level networking, or else for the first forward out of range. The refusal names the mode,
/// the model and the machine, or the port and the range.
pub proof fn networks_are_refused_for_what_is_wrong(
    network: Network,
    machine: Seq<char>,
    options: ArgvOptions,
    k: int,
)
    ensures
        ({
            let r = network_args(network, machine, options);
            let refused = |m: Seq<char>| r == Err::<Seq<Seq<char>>, Seq<char>>(m);
            let misplaced = network.mode != NetworkMode::User && network.host_forwards@.len() > 0;
            let attached = network.mode != NetworkMode::NoNetwork;
            let usb = network.model == NicModel::UsbNet;
            let range = port_range(options);
            &&& misplaced ==> refused(
                "network.hostForwards are only valid for user-mode networking (mode \"user\"), but mode is \""@
                    + network.mode.name() + "\". Remove hostForwards, or use mode \"user\"."@,
            )
            &&& !misplaced && attached && usb && !is_raspi(machine) ==> refused(
                "network.model \"usb-net\" needs a USB bus, but machine \""@ + machine
                    + "\" has none (only the raspi* boards expose a built-in USB bus). Use a PCI NIC (virtio-net-pci/e1000/rtl8139), or network.mode \"none\"."@,
            )
            &&& !misplaced && attached && !usb && is_raspi(machine) ==> refused(
                "network.model \""@ + network.model.name()
                    + "\" is a PCI NIC, but the raspi* board \""@ + machine
                    + "\" has no PCI bus. Use network.model \"usb-net\", or network.mode \"none\" for no networking."@,
            )
            &&& !misplaced && attached && usb == is_raspi(machine) && network.mode
                != NetworkMode::User && !options.allow_host_net ==> refused(
                host_net_refusal(network.mode.name()),
            )
            &&& network.mode == NetworkMode::User && usb == is_raspi(machine) && 0 <= k
                < network.host_forwards@.len() && !(range.low <= network.host_forwards@[k].host_port
                <= range.high) && (forall|i: int|
                0 <= i < k ==> range.low <= (#[trigger] network.host_forwards@[i]).host_port
                    <= range.high) ==> refused(
                port_refusal(network.host_forwards@[k].host_port, range),
            )
        }),
        text::has_infix(
            host_net_refusal(network.mode.name()),
            "network.mode \""@ + network.mode.name() + "\" requests host-level"@,
        ),
{
    let range = port_range(options);
    if network.mode == NetworkMode::User && 0 <= k < network.host_forwards@.len() && !(range.low
        <= network.host_forwards@[k].host_port <= range.high) && (forall|i: int|
        0 <= i < k ==> range.low <= (#[trigger] network.host_forwards@[i]).host_port
            <= range.high) {
        lemma_first_bad_forward(network.host_forwards@, range, k);
    }
    let mode = network.mode.name();
    let lead = "network.mode \""@ + mode + "\" requests host-level"@;
    let m = host_net_refusal(mode);
    let tail = m.skip(lead.len() as int);
    reveal_strlit("\" requests host-level (");
    reveal_strlit("\" requests host-level");
    assert(m =~= Seq::empty() + lead + tail) by {
        let full = "network.mode \""@ + mode + "\" requests host-level ("@;
        assert(m.take(full.len() as int) =~= full);
        assert forall|i: int| 0 <= i < lead.len() implies m[i] == lead[i] by {
            assert(m[i] == full[i]);
            assert(full[i] == lead[i]);
        }
    }
    text::parts_are_found(Seq::empty(), lead, tail, m);
}

proof fn lemma_first_bad_forward(
    forwards: Seq<hardware_spec::HostForward>,
    range: PortRange,
    k: int,
)
    requires
        0 <= k < forwards.len(),
        !(range.low <= forwards[k].host_port <= range.high),
        forall|i: int|
            0 <= i < k ==> range.low <= (#[trigger] forwards[i]).host_port <= range.high,
    ensures
        user_netdev(forwards, range) == Err::<Seq<char>, Seq<char>>(
            port_refusal(forwards[k].host_port, range),
        ),
    decreases forwards.len(),
{
    let init = forwards.drop_last();
    if k < init.len() {
        assert(init[k] == forwards[k]);
        assert forall|i: int| 0 <= i < k implies range.low <= (#[trigger] init[i]).host_port
            <= range.high by {
            assert(init[i] == forwards[i]);
        }
        lemma_first_bad_forward(init, range, k);
    } else {
        every_forward_is_set_up(init, range);
        assert forall|i: int| 0 <= i < init.len() implies range.low <= (
        #[trigger] init[i]).host_port <= range.high by {
            assert(init[i] == forwards[i]);
        }
    }
}

/// A port that is out of range is refused with the port and the range.
pub proof fn port_refusals_name_the_numbers(port: u16, range: PortRange)
    ensures
        ({
            let span = text::decimal(range.low as nat) + "-"@ + text::decimal(range.high as nat);
            port_refusal(port, range) == "Host port-forward hostPort "@ + text::decimal(port as nat)
                + " is outside the allowed host-port range "@ + span
                + " (QMP_MCP_HOSTFWD_PORT_RANGE). Choose a hostPort within "@ + span
                + ", or widen the range via QMP_MCP_HOSTFWD_PORT_RANGE."@
        }),
{
    let low = text::decimal(range.low as nat);
    let high = text::decimal(range.high as nat);
    lemma_port_refusal(
        "Host port-forward hostPort "@ + text::decimal(port as nat)
            + " is outside the allowed host-port range "@,
        low,
        high,
        " (QMP_MCP_HOSTFWD_PORT_RANGE). Choose a hostPort within "@,
        ", or widen the range via QMP_MCP_HOSTFWD_PORT_RANGE."@,
    );
}

proof fn lemma_port_refusal(
    a: Seq<char>,
    low: Seq<char>,
    high: Seq<char>,
    b: Seq<char>,
    c: Seq<char>,
)
    ensures
        a + low + "-"@ + high + b + low + "-"@ + high + c == a + (low + "-"@ + high) + b + (low
            + "-"@ + high) + c,
{
    assert(a + low + "-"@ + high + b + low + "-"@ + high + c =~= a + (low + "-"@ + high) + b + (low
        + "-"@ + high) + c);
}

} // verus!
