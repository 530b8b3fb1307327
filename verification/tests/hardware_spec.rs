use qmp_mcp::config::PortRange;
use qmp_mcp::instance::accel::{
    qemu_arch_of_binary, qemu_binary_for_machine, resolve_accel, resolve_guest_accel,
};
use qmp_mcp::instance::argv::{build_argv, escape_qemu_opts_value, ArgvOptions, Stores};
use qmp_mcp::instance::hardware_spec::{
    parse_hardware_spec, Accel, AccelMode, CdromParams, DiskInterface, DiskParams, DisplayMode,
    HardwareSpec, HardwareSpecError, HardwareSpecParams, HostForwardParams, NetProtocol,
    NetworkMode, NetworkParams, NicModel,
};
use qmp_mcp::instance::image_store::ImageFormat;
use qmp_mcp::instance::store_path::{Leaf, StoreSnapshot};

const SOCK: &str = "/run/qmp-mcp/qmp.sock";

fn base() -> HardwareSpecParams {
    HardwareSpecParams::default()
}

fn spec(candidate: HardwareSpecParams) -> HardwareSpec {
    parse_hardware_spec(candidate).expect("valid spec")
}

fn disk(image: &str) -> DiskParams {
    DiskParams {
        image: image.to_string(),
        interface: DiskInterface::Virtio,
        format: ImageFormat::Qcow2,
        readonly: false,
    }
}

fn with_disk(disk: DiskParams) -> HardwareSpecParams {
    HardwareSpecParams {
        disks: vec![disk],
        ..base()
    }
}

fn cdrom(iso: &str) -> HardwareSpecParams {
    HardwareSpecParams {
        cdrom: Some(CdromParams {
            iso: iso.to_string(),
        }),
        ..base()
    }
}

fn on_network(network: NetworkParams) -> HardwareSpecParams {
    HardwareSpecParams { network, ..base() }
}

fn mode(mode: NetworkMode) -> NetworkParams {
    NetworkParams {
        mode,
        ..NetworkParams::default()
    }
}

fn model(model: NicModel) -> NetworkParams {
    NetworkParams {
        model,
        ..NetworkParams::default()
    }
}

fn forward(host_port: i64, guest_port: i64, proto: NetProtocol) -> HostForwardParams {
    HostForwardParams {
        host_port,
        guest_port,
        proto,
    }
}

fn forwarding(host_forwards: Vec<HostForwardParams>) -> NetworkParams {
    NetworkParams {
        host_forwards,
        ..NetworkParams::default()
    }
}

/// TCG, a fixed socket, no stores and no caps.
fn opts() -> ArgvOptions {
    ArgvOptions {
        accel: Accel::Tcg,
        qmp_socket_path: SOCK.to_string(),
        image_dir: None,
        iso_dir: None,
        hostfwd_port_range: None,
        allow_host_net: false,
        max_memory_mb: None,
        max_vcpus: None,
        allow_raw_args: false,
    }
}

/// The stores when the given directory is the one that exists, with the given entries.
fn stores(dir: &str, names: &[&str]) -> Stores {
    let there = StoreSnapshot {
        real_dir: Some(dir.to_string()),
        leaves: names
            .iter()
            .map(|n| (n.to_string(), Leaf::Real(format!("{dir}/{n}"))))
            .collect(),
    };
    Stores {
        images: there.clone(),
        isos: there,
    }
}

/// The argument vector where no store exists.
fn argv(candidate: HardwareSpecParams, options: &ArgvOptions) -> Result<Vec<String>, HardwareSpecError> {
    build_argv(&spec(candidate), options, &Stores::missing())
}

fn index_of(argv: &[String], flag: &str) -> usize {
    argv.iter().position(|s| s == flag).expect("flag present")
}

fn value_after<'a>(argv: &'a [String], flag: &str) -> &'a str {
    &argv[index_of(argv, flag) + 1]
}

#[test]
fn fills_every_field_with_a_default_for_an_empty_spec() {
    let s = spec(base());
    assert_eq!(s.machine.as_str(), "q35");
    assert_eq!(s.cpu.as_str(), "max");
    assert_eq!(s.vcpus, 1);
    assert_eq!(s.memory_mb, 256);
    assert_eq!(s.accel, AccelMode::Auto);
    assert_eq!(s.display, DisplayMode::NoDisplay);
    assert!(s.disks.is_empty());
    assert!(s.cdrom.is_none());
    assert!(s.boot.is_none());
    assert_eq!(s.network.mode, NetworkMode::User);
    assert_eq!(s.network.model, NicModel::VirtioNetPci);
    assert!(s.network.host_forwards.is_empty());
    assert!(s.extra_args.is_none());
}

#[test]
fn defaults_a_disk_entry() {
    let s = spec(with_disk(disk("root.qcow2")));
    assert_eq!(s.disks.len(), 1);
    assert_eq!(s.disks[0].image, "root.qcow2");
    assert_eq!(s.disks[0].interface, DiskInterface::Virtio);
    assert_eq!(s.disks[0].format, ImageFormat::Qcow2);
    assert!(!s.disks[0].readonly);
}

#[test]
fn names_the_offending_field_on_a_bad_value() {
    assert!(parse_hardware_spec(HardwareSpecParams { vcpus: 0, ..base() })
        .unwrap_err()
        .0
        .contains("vcpus"));
    assert!(parse_hardware_spec(HardwareSpecParams {
        memory_mb: 1_048_577,
        ..base()
    })
    .unwrap_err()
    .0
    .contains("memoryMb"));
}

#[test]
fn rejects_machine_and_cpu_with_injected_property() {
    let e = parse_hardware_spec(HardwareSpecParams {
        machine: "q35,accel=tcg".to_string(),
        ..base()
    })
    .unwrap_err();
    assert!(e.0.contains("machine"));
    assert!(parse_hardware_spec(HardwareSpecParams {
        cpu: "host,+vmx".to_string(),
        ..base()
    })
    .unwrap_err()
    .0
    .contains("cpu"));
    assert_eq!(
        spec(HardwareSpecParams {
            cpu: "max".to_string(),
            ..base()
        })
        .cpu
        .as_str(),
        "max"
    );
}

fn boot(order: &str) -> HardwareSpecParams {
    HardwareSpecParams {
        boot: Some(order.to_string()),
        ..base()
    }
}

#[test]
fn accepts_valid_boot_orders_and_rejects_injection() {
    assert_eq!(spec(boot("d")).boot.unwrap().as_str(), "d");
    assert_eq!(spec(boot("dc")).boot.unwrap().as_str(), "dc");
    assert_eq!(spec(boot("cdn")).boot.unwrap().as_str(), "cdn");
    for bad in ["c,menu=on", "d order=c", "c,reboot-timeout=-1", "z", ""] {
        assert!(
            parse_hardware_spec(boot(bad)).is_err(),
            "boot {bad:?} should be rejected"
        );
    }
}

#[test]
fn accepts_a_cdrom_by_name_and_rejects_unknown_field() {
    assert_eq!(spec(cdrom("debian.iso")).cdrom.unwrap().iso, "debian.iso");
    assert!(parse_hardware_spec(cdrom("")).is_err());
}

#[test]
fn network_defaults_and_port_forward_proto_default() {
    let s = spec(on_network(forwarding(vec![forward(8022, 22, NetProtocol::Tcp)])));
    assert_eq!(s.network.host_forwards[0].proto, NetProtocol::Tcp);
    assert_eq!(s.network.host_forwards[0].host_port, 8022);
}

#[test]
fn rejects_out_of_range_ports_and_non_enum_proto() {
    for port in [0, -1, 70000] {
        assert!(parse_hardware_spec(on_network(forwarding(vec![forward(
            2000,
            port,
            NetProtocol::Tcp
        )])))
        .is_err());
        assert!(parse_hardware_spec(on_network(forwarding(vec![forward(
            port,
            22,
            NetProtocol::Tcp
        )])))
        .is_err());
    }
}

#[test]
fn maps_machine_cpu_smp_memory_and_accel() {
    let argv = argv(
        HardwareSpecParams {
            machine: "pc".to_string(),
            cpu: "host".to_string(),
            vcpus: 4,
            memory_mb: 2048,
            ..base()
        },
        &opts(),
    )
    .unwrap();
    assert_eq!(value_after(&argv, "-machine"), "pc,accel=tcg");
    assert_eq!(value_after(&argv, "-cpu"), "host");
    assert_eq!(value_after(&argv, "-smp"), "4");
    assert_eq!(value_after(&argv, "-m"), "2048");
}

#[test]
fn encodes_kvm_accel_and_wires_qmp_socket_headless_frozen() {
    let mut o = opts();
    o.accel = Accel::Kvm;
    let argv = argv(base(), &o).unwrap();
    assert_eq!(value_after(&argv, "-machine"), "q35,accel=kvm");
    assert!(argv.iter().any(|s| s == "-nodefaults"));
    assert!(argv.iter().any(|s| s == "-nographic"));
    assert!(argv.iter().any(|s| s == "-S"));
    assert_eq!(
        value_after(&argv, "-qmp"),
        format!("unix:{SOCK},server=on,wait=off")
    );
}

#[test]
fn is_pure_same_inputs_same_argv() {
    assert_eq!(argv(base(), &opts()).unwrap(), argv(base(), &opts()).unwrap());
}

#[test]
fn display_none_stays_headless_no_vnc() {
    let argv = argv(base(), &opts()).unwrap();
    assert!(!argv.iter().any(|s| s == "-vnc"));
}

#[test]
fn display_vnc_emits_loopback_with_no_plaintext_password() {
    let argv = argv(
        HardwareSpecParams {
            display: DisplayMode::Vnc,
            ..base()
        },
        &opts(),
    )
    .unwrap();
    assert_eq!(value_after(&argv, "-vnc"), "127.0.0.1:0,password=on");
    assert!(!argv.join(" ").contains("password=on,"));
    assert!(argv.iter().any(|s| s == "-S"));
}

#[test]
fn rejects_memory_over_cap_naming_it() {
    let mut o = opts();
    o.max_memory_mb = Some(4096);
    let e = argv(
        HardwareSpecParams {
            memory_mb: 8192,
            ..base()
        },
        &o,
    )
    .unwrap_err();
    assert!(e
        .0
        .contains("memoryMb 8192 exceeds QMP_MCP_MAX_MEMORY_MB=4096"));
}

#[test]
fn rejects_vcpus_over_cap_naming_it() {
    let mut o = opts();
    o.max_vcpus = Some(2);
    let e = argv(HardwareSpecParams { vcpus: 8, ..base() }, &o).unwrap_err();
    assert!(e.0.contains("vcpus 8 exceeds QMP_MCP_MAX_VCPUS=2"));
}

#[test]
fn accepts_at_cap_and_skips_when_no_caps() {
    let mut o = opts();
    o.max_memory_mb = Some(4096);
    o.max_vcpus = Some(2);
    let at = argv(
        HardwareSpecParams {
            memory_mb: 4096,
            vcpus: 2,
            ..base()
        },
        &o,
    )
    .unwrap();
    assert_eq!(value_after(&at, "-m"), "4096");
    assert_eq!(value_after(&at, "-smp"), "2");
    assert!(argv(
        HardwareSpecParams {
            memory_mb: 1000000,
            vcpus: 200,
            ..base()
        },
        &opts()
    )
    .is_ok());
}

fn extra(args: &[&str]) -> HardwareSpecParams {
    HardwareSpecParams {
        extra_args: Some(args.iter().map(|a| a.to_string()).collect()),
        ..base()
    }
}

#[test]
fn appends_extra_args_only_when_allowed() {
    let mut o = opts();
    o.allow_raw_args = true;
    let argv = argv(extra(&["-vga", "std"]), &o).unwrap();
    assert_eq!(
        &argv[argv.len() - 2..],
        ["-vga".to_string(), "std".to_string()]
    );
}

#[test]
fn rejects_extra_args_by_default_naming_the_flag() {
    let e = argv(extra(&["-drive", "file=/etc/shadow"]), &opts()).unwrap_err();
    assert!(e.0.contains("QMP_MCP_ALLOW_RAW_ARGS"));
    let plain = argv(base(), &opts()).unwrap();
    assert_eq!(argv(extra(&[]), &opts()).unwrap(), plain);
}

#[test]
fn emits_drive_with_explicit_format_and_honours_readonly_interface() {
    let mut o = opts();
    o.image_dir = Some("/srv/images".to_string());
    let there = stores("/srv/images", &["root.qcow2"]);

    let argv = build_argv(&spec(with_disk(disk("root.qcow2"))), &o, &there).unwrap();
    let drive = value_after(&argv, "-drive");
    assert!(drive.contains("format=qcow2"));
    assert!(drive.contains("if=virtio"));
    assert!(drive.contains("media=disk"));
    assert!(!drive.contains("readonly=on"));

    let mut ide = disk("root.qcow2");
    ide.interface = DiskInterface::Ide;
    ide.readonly = true;
    let argv = build_argv(&spec(with_disk(ide)), &o, &there).unwrap();
    let drive = value_after(&argv, "-drive");
    assert!(drive.contains("if=ide"));
    assert!(drive.contains("readonly=on"));
}

#[test]
fn rejects_absolute_traversal_injection_and_missing_store() {
    let mut o = opts();
    o.image_dir = Some("/srv/images".to_string());
    let there = stores("/srv/images", &[]);

    for image in ["/etc/passwd", "../escape.qcow2", "root.qcow2,readonly=on"] {
        assert!(build_argv(&spec(with_disk(disk(image))), &o, &there).is_err());
    }
    let e = argv(with_disk(disk("root.qcow2")), &opts()).unwrap_err();
    assert!(e.0.contains("QMP_MCP_IMAGE_DIR"));
}

#[test]
fn comma_escapes_a_store_path_containing_a_comma() {
    let mut o = opts();
    o.image_dir = Some("/srv/hw,disks".to_string());
    let there = stores("/srv/hw,disks", &["root.qcow2"]);
    let argv = build_argv(&spec(with_disk(disk("root.qcow2"))), &o, &there).unwrap();
    let drive = value_after(&argv, "-drive");
    let escaped = "/srv/hw,disks/root.qcow2".replace(',', ",,");
    assert_eq!(
        drive,
        format!("file={escaped},format=qcow2,if=virtio,media=disk")
    );
    assert_eq!(drive.replace(",,", " ").split(',').count(), 4);
}

#[test]
fn hardware_spec_rejects_symlink_that_escapes_the_store() {
    let mut o = opts();
    o.image_dir = Some("/srv/images".to_string());
    let mut there = stores("/srv/images", &[]);
    there
        .images
        .leaves
        .push(("evil.qcow2".to_string(), Leaf::Real("/etc/passwd".to_string())));
    let e = build_argv(&spec(with_disk(disk("evil.qcow2"))), &o, &there).unwrap_err();
    assert!(e.0.contains("symlink escape"));
}

#[test]
fn emits_readonly_cdrom_with_explicit_raw_format() {
    let mut o = opts();
    o.iso_dir = Some("/srv/isos".to_string());
    let there = stores("/srv/isos", &["debian.iso"]);
    let made = build_argv(&spec(cdrom("debian.iso")), &o, &there).unwrap();
    let drive = value_after(&made, "-drive");
    assert!(drive.contains("media=cdrom"));
    assert!(drive.contains("readonly=on"));
    assert!(drive.contains("format=raw"));
    let e = argv(cdrom("debian.iso"), &opts()).unwrap_err();
    assert!(e.0.contains("QMP_MCP_ISO_DIR"));
}

#[test]
fn emits_boot_order_token_or_omits_it() {
    let ordered = argv(boot("dc"), &opts()).unwrap();
    assert_eq!(value_after(&ordered, "-boot"), "order=dc");
    let argv = argv(base(), &opts()).unwrap();
    assert!(!argv.iter().any(|s| s == "-boot"));
}

#[test]
fn emits_default_user_nic_and_honours_model() {
    let plain = argv(base(), &opts()).unwrap();
    assert_eq!(value_after(&plain, "-netdev"), "user,id=net0");
    assert_eq!(value_after(&plain, "-device"), "virtio-net-pci,netdev=net0");
    let argv = argv(on_network(model(NicModel::E1000)), &opts()).unwrap();
    assert_eq!(value_after(&argv, "-device"), "e1000,netdev=net0");
}

#[test]
fn emits_loopback_hostfwd_entries_from_validated_ints() {
    let mut o = opts();
    o.hostfwd_port_range = Some(PortRange {
        low: 1024,
        high: 65535,
    });
    let argv = argv(
        on_network(forwarding(vec![
            forward(8022, 22, NetProtocol::Tcp),
            forward(15353, 53, NetProtocol::Udp),
        ])),
        &o,
    )
    .unwrap();
    assert_eq!(
        value_after(&argv, "-netdev"),
        "user,id=net0,hostfwd=tcp:127.0.0.1:8022-:22,hostfwd=udp:127.0.0.1:15353-:53"
    );
}

#[test]
fn rejects_hostport_outside_range_naming_it() {
    let mut o = opts();
    o.hostfwd_port_range = Some(PortRange {
        low: 1024,
        high: 65535,
    });
    let low = || on_network(forwarding(vec![forward(80, 80, NetProtocol::Tcp)]));
    let e = argv(low(), &o).unwrap_err();
    assert!(e.0.contains("1024-65535"));
    assert!(e.0.contains("80"));
    assert!(e.0.contains("QMP_MCP_HOSTFWD_PORT_RANGE"));
    assert!(argv(low(), &opts()).unwrap_err().0.contains("1024-65535"));
}

#[test]
fn rejects_tap_bridge_by_default_and_emits_when_enabled() {
    let e = argv(on_network(mode(NetworkMode::Tap)), &opts()).unwrap_err();
    assert!(e.0.contains("QMP_MCP_ALLOW_HOST_NET"));
    assert!(argv(on_network(mode(NetworkMode::Bridge)), &opts())
        .unwrap_err()
        .0
        .contains("QMP_MCP_ALLOW_HOST_NET"));

    let mut o = opts();
    o.allow_host_net = true;
    let tap = argv(on_network(mode(NetworkMode::Tap)), &o).unwrap();
    assert_eq!(value_after(&tap, "-netdev"), "tap,id=net0");
    let mut bridge = mode(NetworkMode::Bridge);
    bridge.model = NicModel::E1000;
    let argv = argv(on_network(bridge), &o).unwrap();
    assert_eq!(value_after(&argv, "-netdev"), "bridge,id=net0");
    assert_eq!(value_after(&argv, "-device"), "e1000,netdev=net0");
}

#[test]
fn rejects_hostforwards_with_non_user_mode() {
    let mut o = opts();
    o.allow_host_net = true;
    let mut tap = mode(NetworkMode::Tap);
    tap.host_forwards = vec![forward(8022, 22, NetProtocol::Tcp)];
    let e = argv(on_network(tap), &o).unwrap_err();
    assert!(e.0.contains("hostForwards are only valid for user-mode"));
    assert!(e.0.contains("mode \"user\""));
}

#[test]
fn resolve_accel_covers_auto_kvm_tcg() {
    assert_eq!(
        resolve_accel(AccelMode::Auto, || true).unwrap().accel,
        Accel::Kvm
    );
    assert_eq!(
        resolve_accel(AccelMode::Auto, || false).unwrap().accel,
        Accel::Tcg
    );
    assert_eq!(
        resolve_accel(AccelMode::Tcg, || true).unwrap().accel,
        Accel::Tcg
    );
    assert_eq!(
        resolve_accel(AccelMode::Kvm, || true).unwrap().accel,
        Accel::Kvm
    );
    let e = resolve_accel(AccelMode::Kvm, || false).unwrap_err();
    assert!(e.0.contains("/dev/kvm"));
}

fn raspi(network: NetworkParams) -> HardwareSpecParams {
    HardwareSpecParams {
        machine: "raspi3b".to_string(),
        network,
        ..base()
    }
}

#[test]
fn omits_cpu_smp_mem_for_a_fixed_hardware_raspi_board() {
    let argv = argv(raspi(mode(NetworkMode::NoNetwork)), &opts()).unwrap();
    assert!(!argv.iter().any(|s| s == "-cpu"));
    assert!(!argv.iter().any(|s| s == "-smp"));
    assert!(!argv.iter().any(|s| s == "-m"));
    assert_eq!(value_after(&argv, "-machine"), "raspi3b,accel=tcg");
}

#[test]
fn emits_kernel_dtb_append_and_if_sd_for_raspi() {
    let mut o = opts();
    o.image_dir = Some("/srv/images".to_string());
    let there = stores("/srv/images", &["kernel8.img", "merged.dtb", "dietpi.img"]);
    let mut sd = disk("dietpi.img");
    sd.interface = DiskInterface::Sd;
    sd.format = ImageFormat::Raw;
    let argv = build_argv(
        &spec(HardwareSpecParams {
            display: DisplayMode::Vnc,
            kernel: Some("kernel8.img".to_string()),
            dtb: Some("merged.dtb".to_string()),
            append_cmdline: Some("console=tty1 root=/dev/mmcblk0p2 rootwait rw".to_string()),
            disks: vec![sd],
            ..raspi(model(NicModel::UsbNet))
        }),
        &o,
        &there,
    )
    .unwrap();
    assert!(value_after(&argv, "-kernel").ends_with("/kernel8.img"));
    assert!(value_after(&argv, "-dtb").ends_with("/merged.dtb"));
    assert_eq!(
        value_after(&argv, "-append"),
        "console=tty1 root=/dev/mmcblk0p2 rootwait rw"
    );
    assert!(value_after(&argv, "-drive").contains("if=sd"));
    assert!(index_of(&argv, "-kernel") < index_of(&argv, "-nodefaults"));
}

#[test]
fn keeps_cpu_smp_mem_for_a_non_raspi_direct_kernel_boot() {
    let mut o = opts();
    o.image_dir = Some("/srv/images".to_string());
    let argv = build_argv(
        &spec(HardwareSpecParams {
            machine: "virt".to_string(),
            cpu: "cortex-a72".to_string(),
            vcpus: 2,
            memory_mb: 512,
            kernel: Some("vmlinuz".to_string()),
            ..base()
        }),
        &o,
        &stores("/srv/images", &["vmlinuz"]),
    )
    .unwrap();
    assert_eq!(value_after(&argv, "-cpu"), "cortex-a72");
    assert_eq!(value_after(&argv, "-smp"), "2");
    assert_eq!(value_after(&argv, "-m"), "512");
    assert!(value_after(&argv, "-kernel").ends_with("/vmlinuz"));
}

#[test]
fn kernel_without_image_store_fails_closed() {
    let e = argv(
        HardwareSpecParams {
            kernel: Some("kernel8.img".to_string()),
            ..raspi(mode(NetworkMode::NoNetwork))
        },
        &opts(),
    )
    .unwrap_err();
    assert!(e.0.contains("QMP_MCP_IMAGE_DIR"));
}

#[test]
fn rejects_traversing_kernel_reference_at_argv_time() {
    let mut o = opts();
    o.image_dir = Some("/srv/images".to_string());
    let e = build_argv(
        &spec(HardwareSpecParams {
            kernel: Some("../vmlinuz".to_string()),
            ..raspi(mode(NetworkMode::NoNetwork))
        }),
        &o,
        &stores("/srv/images", &[]),
    )
    .unwrap_err();
    assert!(e.0.contains("kernel reference"));
}

#[test]
fn network_none_emits_no_nic() {
    let argv = argv(raspi(mode(NetworkMode::NoNetwork)), &opts()).unwrap();
    assert!(!argv.iter().any(|s| s == "-netdev"));
    assert!(!argv.iter().any(|s| s == "-device"));
}

#[test]
fn emits_usb_net_for_raspi_and_refuses_pci_or_usb_mismatch() {
    let usb = argv(raspi(model(NicModel::UsbNet)), &opts()).unwrap();
    assert_eq!(value_after(&usb, "-device"), "usb-net,netdev=net0");
    assert_eq!(value_after(&usb, "-netdev"), "user,id=net0");
    let e = argv(raspi(NetworkParams::default()), &opts()).unwrap_err();
    assert!(e.0.contains("no PCI bus"));
    assert!(e.0.contains("usb-net") && e.0.contains("none"));
    let e = argv(on_network(model(NicModel::UsbNet)), &opts()).unwrap_err();
    assert!(e.0.contains("usb-net") && e.0.contains("needs a USB bus"));
}

#[test]
fn rejects_dtb_or_append_without_kernel_and_bad_cmdline() {
    let e = parse_hardware_spec(HardwareSpecParams {
        dtb: Some("merged.dtb".to_string()),
        ..raspi(NetworkParams::default())
    })
    .unwrap_err();
    assert!(e.0.contains("dtb requires kernel"));
    let e = parse_hardware_spec(HardwareSpecParams {
        append_cmdline: Some("console=tty1".to_string()),
        ..raspi(NetworkParams::default())
    })
    .unwrap_err();
    assert!(e.0.contains("appendCmdline requires kernel"));
    assert!(parse_hardware_spec(HardwareSpecParams {
        kernel: Some("kernel8.img".to_string()),
        append_cmdline: Some("a\nb".to_string()),
        ..raspi(NetworkParams::default())
    })
    .is_err());
}

#[test]
fn accepts_sd_as_a_disk_interface() {
    let mut sd = disk("dietpi.img");
    sd.interface = DiskInterface::Sd;
    let s = spec(with_disk(sd));
    assert_eq!(s.disks[0].interface, DiskInterface::Sd);
}

#[test]
fn option_values_are_escaped_by_doubling_commas() {
    assert_eq!(escape_qemu_opts_value("a,b,,c"), "a,,b,,,,c");
    assert_eq!(escape_qemu_opts_value(""), "");
}

#[test]
fn the_emulator_follows_the_machine() {
    assert_eq!(qemu_binary_for_machine("virt"), "qemu-system-aarch64");
    assert_eq!(qemu_binary_for_machine("raspi3b"), "qemu-system-aarch64");
    assert_eq!(qemu_binary_for_machine("q35"), "qemu-system-x86_64");
    assert_eq!(qemu_arch_of_binary("/usr/bin/qemu-system-riscv64"), "riscv64");
    assert_eq!(qemu_arch_of_binary("kvm"), "kvm");
}

#[test]
fn an_automatic_choice_never_crosses_architectures() {
    let chosen =
        |guest: &str, machine: &str| resolve_guest_accel(AccelMode::Auto, guest, "x86_64", machine, true)
            .unwrap();
    assert_eq!(chosen("x86_64", "q35").accel, Accel::Kvm);
    assert_eq!(chosen("aarch64", "virt").accel, Accel::Tcg);
    assert!(chosen("aarch64", "virt").reason.contains("does not match host arch"));
    assert_eq!(
        resolve_guest_accel(AccelMode::Auto, "aarch64", "aarch64", "raspi3b", true)
            .unwrap()
            .accel,
        Accel::Tcg
    );
}

#[test]
fn an_initial_ram_disk_goes_with_a_kernel() {
    let mut options = opts();
    options.image_dir = Some("/srv/images".to_string());
    let there = stores("/srv/images", &["vmlinuz", "initrd.img"]);
    let candidate = HardwareSpecParams {
        kernel: Some("vmlinuz".to_string()),
        initrd: Some("initrd.img".to_string()),
        ..HardwareSpecParams::default()
    };
    let argv = build_argv(&spec(candidate), &options, &there).unwrap();
    let at = argv.iter().position(|a| a == "-kernel").unwrap();
    assert_eq!(
        argv[at..at + 4],
        ["-kernel", "/srv/images/vmlinuz", "-initrd", "/srv/images/initrd.img"]
    );

    let escaping = HardwareSpecParams {
        kernel: Some("vmlinuz".to_string()),
        initrd: Some("../initrd.img".to_string()),
        ..HardwareSpecParams::default()
    };
    let e = build_argv(&spec(escaping), &options, &there).unwrap_err();
    assert!(e.0.starts_with("Invalid initrd reference: "), "got: {}", e.0);

    let e = parse_hardware_spec(HardwareSpecParams {
        initrd: Some("initrd.img".to_string()),
        ..HardwareSpecParams::default()
    })
    .unwrap_err();
    assert!(e.0.contains("initrd requires kernel"), "got: {}", e.0);
    let e = parse_hardware_spec(HardwareSpecParams {
        kernel: Some("vmlinuz".to_string()),
        initrd: Some(String::new()),
        ..HardwareSpecParams::default()
    })
    .unwrap_err();
    assert!(e.0.contains("initrd"), "got: {}", e.0);
}

#[test]
fn a_kernel_command_line_is_held_to_the_ascii_control_characters() {
    let with = |cmdline: String| {
        parse_hardware_spec(HardwareSpecParams {
            kernel: Some("vmlinuz".to_string()),
            append_cmdline: Some(cmdline),
            ..HardwareSpecParams::default()
        })
    };
    for good in ["root=/dev/vda1 a,b", "\u{80}\u{85}\u{9f}", "\u{20}", "~", "\u{a0}é"] {
        assert!(with(good.to_string()).is_ok(), "{good:?} must be accepted");
    }
    for bad in ["", "\0", "a\tb", "a\u{1f}", "\u{7f}", "a\nb"] {
        let e = with(bad.to_string()).unwrap_err();
        assert!(e.0.contains("appendCmdline"), "{bad:?} gave {}", e.0);
    }
    assert!(with("x".repeat(2048)).is_ok());
    assert!(with("é".repeat(2048)).is_ok());
    assert!(with("x".repeat(2049)).is_err());
}
