use qmp_mcp::instance::base64::{base64_decode, base64_encode};
use qmp_mcp::instance::recording::{
    build_ffmpeg_args, capability, frame_delay, frame_interval, next_frame_step,
    parse_ffmpeg_encoders, recording_capability, recording_file_name, recording_frame_path,
    resolve_recording_path, screendump_path, stamped_file, validate_recording_name, EncoderSet,
    FrameAction, FrameEvent, Stamp,
};
use qmp_mcp::instance::serial::{
    dial_failed, format_bytes, guess_console_device, resolve_serial_spool_path, ring_drain,
    ring_push_bounded, ringbuf_read, ringbuf_result, ringbuf_write, serial_result,
    serial_socket_path, socket_bytes, socket_written, spool_tail, DialStep, SerialBackend,
    SerialFormat, SocketWrite,
};
use qmp_mcp::instance::vnc::{generate_vnc_password, password_from, set_password, GLYPHS};
use std::collections::VecDeque;
use std::sync::atomic::{AtomicUsize, Ordering::SeqCst};
use std::sync::Arc;

fn stamp(seq: u64) -> Stamp {
    Stamp {
        pid: 42,
        nanos: 1_700_000_000_000_000_000,
        seq,
    }
}

#[test]
fn base64_encode_matches_known_vectors() {
    assert_eq!(base64_encode(b""), "");
    assert_eq!(base64_encode(b"f"), "Zg==");
    assert_eq!(base64_encode(b"fo"), "Zm8=");
    assert_eq!(base64_encode(b"foo"), "Zm9v");
    assert_eq!(base64_encode(b"foob"), "Zm9vYg==");
    assert_eq!(base64_encode(b"fooba"), "Zm9vYmE=");
    assert_eq!(base64_encode(b"foobar"), "Zm9vYmFy");
}

#[test]
fn base64_decode_roundtrips_and_rejects_garbage() {
    assert_eq!(base64_decode("Aw==").unwrap(), vec![0x03]);
    assert_eq!(base64_decode("aGk=").unwrap(), b"hi");
    assert_eq!(base64_decode("").unwrap(), Vec::<u8>::new());
    let data = b"\x00\x01\x02hello\xff";
    assert_eq!(base64_decode(&base64_encode(data)).unwrap(), data);
    assert!(base64_decode("!!!!").is_err());
    assert!(base64_decode("aa=a").is_err());
    assert!(base64_decode("a").is_err());
    assert!(base64_decode("YWJja").is_err());
    assert_eq!(base64_decode("YWI").unwrap(), b"ab");
    assert_eq!(base64_decode("YWJj").unwrap(), b"abc");
}

#[test]
fn every_byte_survives_base64() {
    let all: Vec<u8> = (0..=255).collect();
    let text = base64_encode(&all);
    assert_eq!(text.len(), 344);
    assert_eq!(base64_decode(&text).unwrap(), all);
    assert!(text.contains('+') && text.contains('/'));
}

#[test]
fn ring_push_bounded_evicts_oldest_beyond_cap() {
    let mut ring = VecDeque::new();
    ring_push_bounded(&mut ring, b"abcdef", 4);
    assert_eq!(ring.iter().copied().collect::<Vec<u8>>(), b"cdef");
    ring_push_bounded(&mut ring, b"XY", 4);
    assert_eq!(ring.iter().copied().collect::<Vec<u8>>(), b"efXY");
    let mut ring = VecDeque::new();
    ring_push_bounded(&mut ring, b"0123456789", 3);
    assert_eq!(ring.iter().copied().collect::<Vec<u8>>(), b"789");
}

#[test]
fn a_ring_is_drained_from_its_front() {
    let mut ring = VecDeque::new();
    ring_push_bounded(&mut ring, b"abcdef", 10);
    assert_eq!(ring_drain(&mut ring, 2), b"ab");
    assert_eq!(ring_drain(&mut ring, 100), b"cdef");
    assert!(ring.is_empty());
    assert!(ring_drain(&mut ring, 1).is_empty());
}

#[test]
fn build_ffmpeg_args_wires_wallclock_vfr_and_tunes_only_libx264() {
    let args = build_ffmpeg_args("libx264", 22, 15, "yuv420p", "/out/rec.mkv");
    assert_eq!(
        args,
        vec![
            "-f",
            "image2pipe",
            "-use_wallclock_as_timestamps",
            "1",
            "-i",
            "pipe:0",
            "-c:v",
            "libx264",
            "-tune",
            "stillimage",
            "-crf",
            "22",
            "-pix_fmt",
            "yuv420p",
            "-fps_mode",
            "vfr",
            "-y",
            "/out/rec.mkv",
        ]
    );

    let args = build_ffmpeg_args("libx265", 28, 30, "yuv444p", "/out/rec.mkv");
    assert!(!args.iter().any(|a| a == "stillimage"));
    assert_eq!(
        args,
        vec![
            "-f",
            "image2pipe",
            "-use_wallclock_as_timestamps",
            "1",
            "-i",
            "pipe:0",
            "-c:v",
            "libx265",
            "-crf",
            "28",
            "-pix_fmt",
            "yuv444p",
            "-fps_mode",
            "vfr",
            "-y",
            "/out/rec.mkv",
        ]
    );

    let a = build_ffmpeg_args("libx264", 0, 5, "yuv420p", "/out/x.mkv");
    let b = build_ffmpeg_args("libx264", 0, 60, "yuv420p", "/out/x.mkv");
    assert_eq!(a, b);
    assert!(!a.iter().any(|arg| arg == "-framerate"));
}

#[test]
fn recording_capability_reason_precedence_and_availability() {
    let (available, reason) = recording_capability(None, Some("/out"), "libx264", || true);
    assert!(!available);
    assert!(reason.contains("QMP_MCP_FFMPEG_BINARY"), "got: {reason}");

    let (available, reason) =
        recording_capability(Some("/usr/bin/ffmpeg"), None, "libx264", || true);
    assert!(!available);
    assert!(reason.contains("QMP_MCP_RECORDING_DIR"), "got: {reason}");

    let (available, reason) =
        recording_capability(Some("/usr/bin/ffmpeg"), Some("/out"), "libx265", || false);
    assert!(!available);
    assert!(reason.contains("libx265"), "got: {reason}");
    assert!(reason.contains("QMP_MCP_RECORDING_CODEC"), "got: {reason}");

    let (available, reason) =
        recording_capability(Some("/usr/bin/ffmpeg"), Some("/out"), "libx264", || true);
    assert!(available);
    assert!(reason.contains("available"), "got: {reason}");
    assert_eq!(
        capability(Some("/usr/bin/ffmpeg"), Some("/out"), "libx264", true),
        (available, reason)
    );
}

#[test]
fn recording_capability_does_not_probe_encoder_until_ffmpeg_and_dir_present() {
    let probed = Arc::new(AtomicUsize::new(0));
    let p = Arc::clone(&probed);
    let _ = recording_capability(None, None, "libx264", || {
        p.fetch_add(1, SeqCst);
        true
    });
    assert_eq!(
        probed.load(SeqCst),
        0,
        "encoder probe must be short-circuited"
    );
}

#[test]
fn parse_ffmpeg_encoders_extracts_names_after_the_separator() {
    let output = "Encoders:\n V..... = Video\n ------\n \
         V....D libx264              libx264 H.264\n \
         V....D libx265              libx265 H.265\n \
         A....D aac                  AAC audio\n";
    let set = parse_ffmpeg_encoders(output);
    assert!(set.contains("libx264"));
    assert!(set.contains("libx265"));
    assert!(set.contains("aac"));
    assert_eq!(set.len(), 3);
    assert!(parse_ffmpeg_encoders("ffmpeg version 10\nunrelated\n").is_empty());
}

#[test]
fn an_encoder_listed_twice_counts_once() {
    let set = parse_ffmpeg_encoders("------\n V..... a x\n V....D a y\n V.....\n lower. b\n V.... c\n");
    assert_eq!(set.len(), 1);
    assert!(set.contains("a") && !set.contains("x"));
    assert!(EncoderSet::new().is_empty());
}

#[test]
fn resolve_recording_path_validates_names_and_generates_unique_ones() {
    let p = resolve_recording_path(Some("/out"), Some("demo"), stamp(0)).unwrap();
    assert_eq!(p, "/out/demo.mkv");

    for bad in ["../escape", "a/b", "/abs", ".hidden", "has space"] {
        let err = resolve_recording_path(Some("/out"), Some(bad), stamp(0)).unwrap_err();
        assert!(
            err.0.contains("QMP_MCP_RECORDING_DIR"),
            "name {bad:?} gave {:?}",
            err.0
        );
        assert!(validate_recording_name(bad).is_err());
    }

    let a = resolve_recording_path(Some("/out"), None, stamp(0)).unwrap();
    let b = resolve_recording_path(Some("/out"), None, stamp(1)).unwrap();
    assert_ne!(a, b);
    assert!(a.starts_with("/out/recording-") && a.ends_with(".mkv"));

    assert!(resolve_recording_path(None, Some("demo"), stamp(0))
        .unwrap_err()
        .0
        .contains("QMP_MCP_RECORDING_DIR"));
}

#[test]
fn screendump_path_is_server_chosen_contained_and_unique() {
    let dir = "/tmp/qmp-mcp/screendumps";
    let a = screendump_path(dir, stamp(0));
    let b = screendump_path(dir, stamp(1));
    assert_ne!(a, b, "each screendump path must be unique");
    for p in [&a, &b] {
        let name = p
            .strip_prefix(&format!("{dir}/"))
            .expect("path must be contained");
        assert!(!name.contains('/'));
        assert!(name.starts_with("screendump-") && name.ends_with(".png"));
    }
    assert_eq!(
        a,
        "/tmp/qmp-mcp/screendumps/screendump-42-1700000000000000000-0.png"
    );
    assert_ne!(recording_frame_path(dir, stamp(0)), a);
    assert_eq!(stamped_file("p", stamp(7), ".x"), "p-42-1700000000000000000-7.x");
    assert_eq!(recording_file_name(Some("demo"), stamp(7)), "demo.mkv");
}

#[test]
fn frames_are_taken_at_the_configured_rate() {
    assert_eq!(frame_interval(15), 66);
    assert_eq!(frame_interval(1), 1000);
    assert_eq!(frame_interval(0), 1000);
    assert_eq!(frame_delay(66, 50), 16);
    assert_eq!(frame_delay(66, 80), 0);
    assert_eq!(next_frame_step(FrameEvent::Unreadable), FrameAction::Wait);
    assert_eq!(next_frame_step(FrameEvent::FeedFailed), FrameAction::Stop);
}

#[test]
fn generate_vnc_password_is_eight_copy_safe_chars() {
    const ALPHABET: &[u8] = b"ABCDEFGHJKLMNPQRSTUVWXYZabcdefghijkmnpqrstuvwxyz23456789";
    for _ in 0..64 {
        let password = generate_vnc_password().expect("the system has random bytes");
        assert_eq!(password.len(), 8, "VNC password must be 8 chars");
        assert!(
            password.bytes().all(|b| ALPHABET.contains(&b)),
            "unexpected glyph in {password}"
        );
    }
    assert_ne!(generate_vnc_password(), generate_vnc_password());
}

#[test]
fn passwords_are_drawn_without_bias() {
    assert_eq!(GLYPHS.len(), 56);
    assert_eq!(password_from(&vec![0, 1, 2, 3, 4, 5, 6, 7]).unwrap(), "ABCDEFGH");
    assert_eq!(
        password_from(&vec![255, 224, 223, 56, 0, 0, 0, 0, 0, 0]).unwrap(),
        "9AAAAAAA"
    );
    assert_eq!(password_from(&vec![0; 7]), None);
    let call = set_password("abc");
    let args: serde_json::Value = serde_json::from_str(&call).unwrap();
    assert_eq!(args["password"], "abc");
    assert_eq!(args["protocol"], "vnc");
}

#[test]
fn serial_output_is_shown_as_text_or_base64() {
    let text = format_bytes(b"ok\xff", SerialFormat::Utf8);
    assert_eq!(text.output, "ok\u{fffd}");
    assert_eq!(text.format, "utf8");
    assert_eq!(text.bytes, 3);
    let coded = format_bytes(b"hi", SerialFormat::Base64);
    assert_eq!(coded.output, "aGk=");
    assert_eq!(coded.format, "base64");
    assert_eq!(serial_result("\u{e9}a".to_string(), SerialFormat::Utf8).bytes, 2);
    assert_eq!(spool_tail(&b"0123456789".to_vec(), 4, SerialFormat::Utf8).output, "6789");
    assert_eq!(spool_tail(&b"01".to_vec(), 4, SerialFormat::Utf8).output, "01");
}

#[test]
fn the_ring_of_qemu_is_read_and_written_by_command() {
    let read: serde_json::Value =
        serde_json::from_str(&ringbuf_read(512, SerialFormat::Utf8)).unwrap();
    assert_eq!(read["size"], 512);
    assert_eq!(read["format"], "utf8");
    let write: serde_json::Value =
        serde_json::from_str(&ringbuf_write("id\n\"", SerialFormat::Base64)).unwrap();
    assert_eq!(write["data"], "id\n\"");
    assert_eq!(write["format"], "base64");
    assert_eq!(read["device"], write["device"]);
    let shown = ringbuf_result("\"boot \\u0041\"", SerialFormat::Utf8);
    assert_eq!(shown.output, "boot A");
    assert_eq!(ringbuf_result("{}", SerialFormat::Utf8).output, "");
}

#[test]
fn serial_input_is_sent_as_its_bytes() {
    assert_eq!(socket_bytes("h\u{e9}", SerialFormat::Utf8).unwrap(), "h\u{e9}".as_bytes());
    assert_eq!(socket_bytes("Aw==", SerialFormat::Base64).unwrap(), vec![3]);
    assert!(socket_bytes("!", SerialFormat::Base64).is_err());
    assert_eq!(socket_written(3, SocketWrite::Written).unwrap().bytes_written, 3);
    let failed = socket_written(3, SocketWrite::Failed("gone".to_string())).unwrap_err();
    assert!(failed.0.contains("gone"));
    let stuck = socket_written(3, SocketWrite::TimedOut).unwrap_err();
    assert!(stuck.0.starts_with("Timed out after 2000ms writing to the Serial Port."));
}

#[test]
fn attach_serial_bridge_times_out_when_nothing_listens() {
    let path = serial_socket_path("/run/qmp-mcp/qmp.sock");
    assert!(path.starts_with("/run/qmp-mcp/") && path != "/run/qmp-mcp/qmp.sock");
    assert!(matches!(dial_failed(&path, "refused", false), DialStep::Retry));
    match dial_failed(&path, "refused", true) {
        DialStep::Fail(err) => {
            assert!(err.0.contains("Serial Port socket"));
            assert!(err.0.contains(&path));
        }
        DialStep::Retry => panic!("the dial goes on"),
    }
}

#[test]
fn serial_consoles_are_guessed_by_machine() {
    assert_eq!(guess_console_device("q35"), Some("ttyS0"));
    assert_eq!(guess_console_device("virt"), Some("ttyAMA0"));
    assert_eq!(SerialBackend::Socket.as_str(), "socket");
    assert!(SerialBackend::Socket.is_socket() && SerialBackend::Spool.is_spool());
    assert_eq!(SerialFormat::default(), SerialFormat::Utf8);
}

#[test]
fn a_spool_needs_a_directory_and_a_plain_name() {
    let at = |dir, name| resolve_serial_spool_path(dir, name);
    assert_eq!(at(Some("/log"), None).unwrap(), "/log/serial.log");
    assert_eq!(at(Some("/log"), Some("vm")).unwrap(), "/log/vm/serial.log");
    assert!(at(Some("/log"), Some("../vm")).is_err());
    assert!(at(None, None).unwrap_err().0.contains("QMP_MCP_SERIAL_SPOOL_DIR"));
}
