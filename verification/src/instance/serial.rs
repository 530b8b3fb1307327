//! The Serial Port: its backends, the bounded ring that holds captured output, and what
//! reading and writing it ask of QEMU.

use std::collections::VecDeque;

use vstd::prelude::*;
use vstd::utf8;

use crate::config;
use crate::instance::base64;
use crate::instance::orchestrator::LifecycleError;
use crate::qemu::json;
use crate::text;

verus! {

/// How long to wait for QEMU to accept on the serial socket, in milliseconds.
pub const SERIAL_DIAL_TIMEOUT: u64 = 2_000;

/// The delay between attempts to connect to the serial socket, in milliseconds.
pub const SERIAL_DIAL_INTERVAL: u64 = 25;

/// How many bytes are read from the serial socket at a time.
pub const SERIAL_READ_CHUNK: usize = 4_096;

/// How long one write to the serial socket may take, in milliseconds.
pub const SERIAL_WRITE_TIMEOUT: u64 = 2_000;

/// What carries the Serial Port's output.
#[derive(Debug, Clone, Copy, PartialEq, Eq, Structural)]
pub enum SerialBackend {
    /// A ring buffer inside QEMU, drained over QMP.
    Ringbuf,
    /// A log file, read from its end.
    Spool,
    /// A socket, drained into a ring in the server.
    Socket,
}

impl SerialBackend {
    /// The name of the backend.
    pub open spec fn name(self) -> Seq<char> {
        match self {
            SerialBackend::Ringbuf => "ringbuf"@,
            SerialBackend::Spool => "spool"@,
            SerialBackend::Socket => "socket"@,
        }
    }

    /// The name of the backend.
    pub fn as_str(self) -> (r: &'static str)
        ensures
            r@ == self.name(),
    {
        match self {
            SerialBackend::Ringbuf => "ringbuf",
            SerialBackend::Spool => "spool",
            SerialBackend::Socket => "socket",
        }
    }

    /// Whether output goes to a log file.
    pub fn is_spool(self) -> (r: bool)
        ensures
            r == (self == SerialBackend::Spool),
    {
        matches!(self, SerialBackend::Spool)
    }

    /// Whether output goes over a socket.
    pub fn is_socket(self) -> (r: bool)
        ensures
            r == (self == SerialBackend::Socket),
    {
        matches!(self, SerialBackend::Socket)
    }
}

/// How serial data is encoded in a text.
#[derive(Debug, Clone, Copy, PartialEq, Eq, Structural)]
pub enum SerialFormat {
    /// As UTF-8 text.
    Utf8,
    /// As base64.
    Base64,
}

impl Default for SerialFormat {
    fn default() -> (r: SerialFormat)
        ensures
            r == SerialFormat::Utf8,
    {
        SerialFormat::Utf8
    }
}

impl SerialFormat {
    /// The name of the format.
    pub open spec fn name(self) -> Seq<char> {
        match self {
            SerialFormat::Utf8 => "utf8"@,
            SerialFormat::Base64 => "base64"@,
        }
    }

    /// The name of the format.
    pub fn as_str(self) -> (r: &'static str)
        ensures
            r@ == self.name(),
    {
        match self {
            SerialFormat::Utf8 => "utf8",
            SerialFormat::Base64 => "base64",
        }
    }
}

/// The console device that a guest on a machine is expected to use.
pub open spec fn console_device(machine: Seq<char>) -> Option<Seq<char>> {
    if text::has_prefix(machine, "q35"@) || text::has_prefix(machine, "pc"@) || text::has_prefix(
        machine,
        "microvm"@,
    ) || text::has_prefix(machine, "isapc"@) {
        Some("ttyS0"@)
    } else if text::has_prefix(machine, "virt"@) {
        Some("ttyAMA0"@)
    } else {
        None
    }
}

/// The console device that a guest on a machine is expected to use, where it can be told.
pub fn guess_console_device(machine: &str) -> (r: Option<&'static str>)
    ensures
        text::text_of(r) == console_device(machine@),
{
    if text::starts_with(machine, "q35") || text::starts_with(machine, "pc") || text::starts_with(
        machine,
        "microvm",
    ) || text::starts_with(machine, "isapc") {
        Some("ttyS0")
    } else if text::starts_with(machine, "virt") {
        Some("ttyAMA0")
    } else {
        None
    }
}

/// The directory part of a path, up to and with its last separator.
pub open spec fn directory(path: Seq<char>) -> Seq<char>
    decreases path.len(),
{
    if path.len() == 0 || path.last() == '/' {
        path
    } else {
        directory(path.drop_last())
    }
}

/// The path of the serial socket, beside the QMP socket.
pub fn serial_socket_path(qmp_socket_path: &str) -> (r: String)
    ensures
        r@ == directory(qmp_socket_path@) + "serial.sock"@,
{
    let x = text::to_chars(qmp_socket_path);
    let mut end: usize = x.len();
    assert(x@.take(x@.len() as int) =~= x@);
    while end > 0 && x[end - 1] != '/'
        invariant
            x@ == qmp_socket_path@,
            end <= x.len(),
            directory(x@.take(end as int)) == directory(x@),
        decreases end,
    {
        assert(x@.take(end as int).drop_last() =~= x@.take(end - 1));
        end = end - 1;
    }
    let dir = text::from_chars(&x, 0, end);
    assert(dir@ =~= x@.take(end as int));
    text::cat2(dir.as_str(), "serial.sock")
}

/// The path of a spooled log, or why there is none.
pub open spec fn spool_target(dir: Option<Seq<char>>, name: Option<Seq<char>>) -> Result<
    Seq<char>,
    Seq<char>,
> {
    if !(dir matches Some(d) && !text::is_blank(d)) {
        Err(
            "The spool Serial Port backend requires QMP_MCP_SERIAL_SPOOL_DIR — the host directory serial logs are written under."@,
        )
    } else {
        match name {
            None => Ok(config::path_join(dir->0, "serial.log"@)),
            Some(n) => if text::is_safe_name(n) {
                Ok(config::path_join(config::path_join(dir->0, n), "serial.log"@))
            } else {
                Err(
                    "serialSpool \""@ + n
                        + "\" must match ^[A-Za-z0-9][A-Za-z0-9._-]* — a single directory name under QMP_MCP_SERIAL_SPOOL_DIR."@,
                )
            },
        }
    }
}

/// The path of the spooled log: `serial.log` under the operator's directory, in the
/// subdirectory that the spec names, if it names one.
pub fn resolve_serial_spool_path(dir: Option<&str>, name: Option<&str>) -> (r: Result<
    String,
    LifecycleError,
>)
    ensures
        match spool_target(text::text_of(dir), text::text_of(name)) {
            Ok(p) => r matches Ok(x) && x@ == p,
            Err(m) => r matches Err(e) && e.0@ == m,
        },
{
    let root = match dir {
        Some(d) => if text::blank(d) {
            None
        } else {
            Some(d)
        },
        None => None,
    };
    let root = match root {
        Some(d) => d,
        None => {
            return Err(
                LifecycleError(
                    "The spool Serial Port backend requires QMP_MCP_SERIAL_SPOOL_DIR — the host directory serial logs are written under.".to_string(),
                ),
            );
        },
    };
    match name {
        None => Ok(config::join(root, "serial.log")),
        Some(n) => {
            if text::safe_name(n) {
                let sub = config::join(root, n);
                Ok(config::join(sub.as_str(), "serial.log"))
            } else {
                Err(
                    LifecycleError(
                        text::cat3(
                            "serialSpool \"",
                            n,
                            "\" must match ^[A-Za-z0-9][A-Za-z0-9._-]* — a single directory name under QMP_MCP_SERIAL_SPOOL_DIR.",
                        ),
                    ),
                )
            }
        },
    }
}

// ---------------------------------------------------------------------------
// The ring
// ---------------------------------------------------------------------------

/// The last `n` bytes.
pub open spec fn last_bytes(bytes: Seq<u8>, n: nat) -> Seq<u8> {
    if bytes.len() <= n {
        bytes
    } else {
        bytes.skip(bytes.len() - n)
    }
}

/// Append bytes to a ring that holds at most `cap`; the oldest give way.
pub fn ring_push_bounded(ring: &mut VecDeque<u8>, data: &[u8], cap: usize)
    ensures
        final(ring)@ == last_bytes(old(ring)@ + data@, cap as nat),
{
    let mut i: usize = 0;
    assert(ring@ =~= ring@ + data@.take(0));
    while i < data.len()
        invariant
            i <= data@.len(),
            ring@ == old(ring)@ + data@.take(i as int),
        decreases data@.len() - i,
    {
        ring.push_back(data[i]);
        i = i + 1;
        assert(ring@ =~= old(ring)@ + data@.take(i as int));
    }
    assert(data@.take(data@.len() as int) =~= data@);
    let ghost whole = ring@;
    let ghost mut dropped: int = 0;
    assert(whole.skip(0) =~= whole);
    while ring.len() > cap
        invariant
            0 <= dropped <= whole.len(),
            ring@ == whole.skip(dropped),
            dropped == 0 || ring@.len() >= cap,
        decreases ring@.len(),
    {
        let _ = ring.pop_front();
        proof {
            dropped = dropped + 1;
            assert(ring@ =~= whole.skip(dropped));
        }
    }
}

/// Take up to `n` bytes from a ring, oldest first.
pub fn ring_drain(ring: &mut VecDeque<u8>, n: usize) -> (r: Vec<u8>)
    ensures
        old(ring)@.len() <= n ==> r@ == old(ring)@ && final(ring)@.len() == 0,
        old(ring)@.len() > n ==> r@ == old(ring)@.take(n as int) && final(ring)@ == old(
            ring)@.skip(n as int),
{
    let mut out: Vec<u8> = Vec::new();
    let ghost whole = ring@;
    assert(whole.skip(0) =~= whole);
    assert(whole.take(0) =~= out@);
    while out.len() < n && ring.len() > 0
        invariant
            out@.len() <= n,
            out@.len() <= whole.len(),
            out@ == whole.take(out@.len() as int),
            ring@ == whole.skip(out@.len() as int),
        decreases ring@.len(),
    {
        let ghost k = out@.len() as int;
        match ring.pop_front() {
            Some(b) => {
                out.push(b);
                assert(b == whole[k]);
                assert(ring@ =~= whole.skip(k + 1));
                assert(out@ =~= whole.take(k + 1));
            },
            None => {},
        }
    }
    assert(whole.take(whole.len() as int) =~= whole);
    out
}

// ---------------------------------------------------------------------------
// Reading
// ---------------------------------------------------------------------------

/// The text that `String::from_utf8_lossy` makes of bytes that are not UTF-8.
pub uninterp spec fn replaced_text(bytes: Seq<u8>) -> Seq<char>;

/// The text of bytes: what they spell in UTF-8, or with replacement characters where they
/// spell nothing.
pub open spec fn lossy_text(bytes: Seq<u8>) -> Seq<char> {
    if utf8::valid_utf8(bytes) {
        utf8::decode_utf8(bytes)
    } else {
        replaced_text(bytes)
    }
}

/// `String::from_utf8_lossy`. Trusted to decode valid UTF-8, and to depend on the bytes alone
/// otherwise.
#[verifier::external_body]
fn from_utf8_lossy(bytes: &[u8]) -> (r: String)
    ensures
        r@ == (if utf8::valid_utf8(bytes@) {
            utf8::decode_utf8(bytes@)
        } else {
            replaced_text(bytes@)
        }),
{
    String::from_utf8_lossy(bytes).into_owned()
}

/// Serial output in a format.
pub open spec fn formatted(bytes: Seq<u8>, format: SerialFormat) -> Seq<char> {
    match format {
        SerialFormat::Utf8 => lossy_text(bytes),
        SerialFormat::Base64 => base64::encoded(bytes),
    }
}

/// The result of reading the Serial Port.
#[derive(Debug, Clone, PartialEq, Eq)]
pub struct SerialReadResult {
    /// The output that was read.
    pub output: String,
    /// The encoding of `output`.
    pub format: String,
    /// How many characters `output` has.
    pub bytes: usize,
}

impl SerialReadResult {
    /// The result holds an output in a format.
    pub open spec fn holds(self, output: Seq<char>, format: SerialFormat) -> bool {
        &&& self.output@ == output
        &&& self.format@ == format.name()
        &&& self.bytes == output.len()
    }
}

/// The result that an output in a format is reported as.
pub fn serial_result(output: String, format: SerialFormat) -> (r: SerialReadResult)
    ensures
        r.holds(output@, format),
{
    let chars = text::to_chars(output.as_str());
    SerialReadResult { bytes: chars.len(), format: format.as_str().to_string(), output }
}

/// The result that bytes are reported as.
pub fn format_bytes(bytes: &[u8], format: SerialFormat) -> (r: SerialReadResult)
    ensures
        r.holds(formatted(bytes@, format), format),
{
    let output = match format {
        SerialFormat::Utf8 => from_utf8_lossy(bytes),
        SerialFormat::Base64 => base64::base64_encode(bytes),
    };
    serial_result(output, format)
}

/// The end of a spooled log that a read returns: at most `size` bytes of it.
pub fn spool_tail(log: &Vec<u8>, size: u32, format: SerialFormat) -> (r: SerialReadResult)
    ensures
        r.holds(formatted(last_bytes(log@, size as nat), format), format),
{
    let keep: usize = size as usize;
    let start: usize = if log.len() > keep {
        log.len() - keep
    } else {
        0
    };
    let mut bytes: Vec<u8> = Vec::new();
    let mut i: usize = start;
    assert(log@.subrange(start as int, start as int) =~= bytes@);
    while i < log.len()
        invariant
            start <= i <= log@.len(),
            bytes@ == log@.subrange(start as int, i as int),
        decreases log@.len() - i,
    {
        bytes.push(log[i]);
        i = i + 1;
        assert(bytes@ =~= log@.subrange(start as int, i as int));
    }
    assert(bytes@ =~= last_bytes(log@, size as nat));
    format_bytes(bytes.as_slice(), format)
}

/// The arguments of `ringbuf-read`, as JSON text.
pub open spec fn ringbuf_read_args(size: nat, format: SerialFormat) -> Seq<char> {
    "{\"device\":\"serial\",\"format\":\""@ + format.name() + "\",\"size\":"@ + text::decimal(size)
        + "}"@
}

/// The arguments of `ringbuf-read`, as JSON text.
pub fn ringbuf_read(size: u32, format: SerialFormat) -> (r: String)
    ensures
        r@ == ringbuf_read_args(size as nat, format),
{
    let n = text::decimal_u64(size as u64);
    text::cat5(
        "{\"device\":\"serial\",\"format\":\"",
        format.as_str(),
        "\",\"size\":",
        n.as_str(),
        "}",
    )
}

/// The output that `ringbuf-read` returned, from the JSON text of its reply: the string it
/// is, or nothing.
pub open spec fn ringbuf_output(reply: Seq<char>) -> Seq<char> {
    match json::json_string(reply) {
        Some(s) => s,
        None => Seq::empty(),
    }
}

/// The result of a read, from the JSON text of the reply to `ringbuf-read`.
pub fn ringbuf_result(reply: &str, format: SerialFormat) -> (r: SerialReadResult)
    ensures
        r.holds(ringbuf_output(reply@), format),
{
    let output = match json::string_value(reply) {
        Some(s) => s,
        None => String::new(),
    };
    serial_result(output, format)
}

// ---------------------------------------------------------------------------
// Writing
// ---------------------------------------------------------------------------

/// The result of writing to the Serial Port.
#[derive(Debug, Clone, Copy, PartialEq, Eq, Structural)]
pub struct SerialWriteResult {
    /// How many characters or bytes were written.
    pub bytes_written: usize,
}

/// The arguments of `ringbuf-write`, as JSON text.
pub open spec fn ringbuf_write_args(data: Seq<char>, format: SerialFormat) -> Seq<char> {
    "{\"data\":"@ + json::json_quoted(data) + ",\"device\":\"serial\",\"format\":\""@
        + format.name() + "\"}"@
}

/// The arguments of `ringbuf-write`, as JSON text.
pub fn ringbuf_write(data: &str, format: SerialFormat) -> (r: String)
    ensures
        r@ == ringbuf_write_args(data@, format),
{
    let quoted = json::quote(data);
    text::cat5(
        "{\"data\":",
        quoted.as_str(),
        ",\"device\":\"serial\",\"format\":\"",
        format.as_str(),
        "\"}",
    )
}

/// The bytes that a text in a format stands for, or why it is refused.
pub open spec fn raw_bytes(data: Seq<char>, format: SerialFormat) -> Result<Seq<u8>, Seq<char>> {
    match format {
        SerialFormat::Utf8 => Ok(utf8::encode_utf8(data)),
        SerialFormat::Base64 => base64::decoded(utf8::encode_utf8(data)),
    }
}

/// The bytes that a text in a format stands for.
pub fn socket_bytes(data: &str, format: SerialFormat) -> (r: Result<Vec<u8>, LifecycleError>)
    ensures
        match raw_bytes(data@, format) {
            Ok(b) => r matches Ok(v) && v@ == b,
            Err(m) => r matches Err(e) && e.0@ == m,
        },
{
    match format {
        SerialFormat::Utf8 => {
            let raw = data.as_bytes();
            let mut bytes: Vec<u8> = Vec::new();
            let mut i: usize = 0;
            assert(raw@.take(0) =~= bytes@);
            while i < raw.len()
                invariant
                    i <= raw@.len(),
                    bytes@ == raw@.take(i as int),
                decreases raw@.len() - i,
            {
                bytes.push(raw[i]);
                i = i + 1;
                assert(bytes@ =~= raw@.take(i as int));
            }
            assert(raw@.take(raw@.len() as int) =~= raw@);
            Ok(bytes)
        },
        SerialFormat::Base64 => match base64::base64_decode(data) {
            Ok(bytes) => Ok(bytes),
            Err(m) => Err(LifecycleError(m)),
        },
    }
}

/// What came of a write to the serial socket.
#[derive(Debug, Clone, PartialEq, Eq)]
pub enum SocketWrite {
    /// It was written.
    Written,
    /// It failed.
    Failed(String),
    /// It did not end within `SERIAL_WRITE_TIMEOUT`.
    TimedOut,
}

/// The message for a write to the serial socket that takes too long.
pub open spec fn write_timeout() -> Seq<char> {
    "Timed out after "@ + text::decimal(SERIAL_WRITE_TIMEOUT as nat)
        + "ms writing to the Serial Port. The guest is not draining its serial input — is it paused, has it panicked, or is nothing reading the console (no getty on the shown console device)?"@
}

/// The result of a write to the serial socket.
pub fn socket_written(n: usize, outcome: SocketWrite) -> (r: Result<
    SerialWriteResult,
    LifecycleError,
>)
    ensures
        match outcome {
            SocketWrite::Written => r == Ok::<SerialWriteResult, LifecycleError>(
                SerialWriteResult { bytes_written: n },
            ),
            SocketWrite::Failed(why) => r matches Err(e) && e.0@
                == "Failed to write to the Serial Port socket: "@ + why@,
            SocketWrite::TimedOut => r matches Err(e) && e.0@ == write_timeout(),
        },
{
    match outcome {
        SocketWrite::Written => Ok(SerialWriteResult { bytes_written: n }),
        SocketWrite::Failed(why) => Err(
            LifecycleError(
                text::cat2("Failed to write to the Serial Port socket: ", why.as_str()),
            ),
        ),
        SocketWrite::TimedOut => {
            let ms = text::decimal_u64(SERIAL_WRITE_TIMEOUT);
            Err(
                LifecycleError(
                    text::cat3(
                        "Timed out after ",
                        ms.as_str(),
                        "ms writing to the Serial Port. The guest is not draining its serial input — is it paused, has it panicked, or is nothing reading the console (no getty on the shown console device)?",
                    ),
                ),
            )
        },
    }
}

// ---------------------------------------------------------------------------
// Attaching
// ---------------------------------------------------------------------------

/// What an attempt to connect to the serial socket leads to.
#[derive(Debug, Clone, PartialEq, Eq)]
pub enum DialStep {
    /// Wait for `SERIAL_DIAL_INTERVAL`, then try again.
    Retry,
    /// Give up.
    Fail(LifecycleError),
}

/// What a failed attempt to connect to the serial socket leads to: another one, until the
/// time is up.
pub fn dial_failed(socket_path: &str, why: &str, late: bool) -> (r: DialStep)
    ensures
        if late {
            r matches DialStep::Fail(e) && e.0@ == "Failed to connect to the Serial Port socket at "@
                + socket_path@ + " within "@ + text::decimal(SERIAL_DIAL_TIMEOUT as nat) + "ms: "@
                + why@
                + ". The socket backend needs QEMU's server chardev to be listening."@
        } else {
            r is Retry
        },
{
    if late {
        let ms = text::decimal_u64(SERIAL_DIAL_TIMEOUT);
        let mut m = text::cat5(
            "Failed to connect to the Serial Port socket at ",
            socket_path,
            " within ",
            ms.as_str(),
            "ms: ",
        );
        m.append(why);
        m.append(". The socket backend needs QEMU's server chardev to be listening.");
        DialStep::Fail(LifecycleError(m))
    } else {
        DialStep::Retry
    }
}

// ---------------------------------------------------------------------------
// Laws
// ---------------------------------------------------------------------------

/// A ring never holds more than its cap, and what it holds are the newest bytes: pushing in
/// two parts is pushing the whole.
pub proof fn rings_keep_the_newest(ring: Seq<u8>, first: Seq<u8>, second: Seq<u8>, cap: nat)
    ensures
        last_bytes(ring + first, cap).len() <= cap,
        last_bytes(last_bytes(ring + first, cap) + second, cap) == last_bytes(
            ring + (first + second),
            cap,
        ),
{
    let whole = ring + (first + second);
    let kept = last_bytes(ring + first, cap) + second;
    assert(last_bytes(kept, cap) =~= last_bytes(whole, cap));
}

/// Draining a ring in two reads returns the same bytes, in the same order, as draining it in
/// one.
pub proof fn drains_add_up(ring: Seq<u8>, n: int, m: int)
    requires
        0 <= n,
        0 <= m,
        n + m <= ring.len(),
    ensures
        ring.take(n) + ring.skip(n).take(m) == ring.take(n + m),
        ring.skip(n).skip(m) == ring.skip(n + m),
{
    assert(ring.take(n) + ring.skip(n).take(m) =~= ring.take(n + m));
    assert(ring.skip(n).skip(m) =~= ring.skip(n + m));
}

/// Text that is written raw comes back as the same text when it is read.
pub proof fn utf8_reads_back(data: Seq<char>)
    ensures
        raw_bytes(data, SerialFormat::Utf8) matches Ok(b) && formatted(b, SerialFormat::Utf8)
            == data,
{
    utf8::encode_utf8_valid_utf8(data);
    utf8::encode_utf8_decode_utf8(data);
}

/// Bytes that are read as base64 are the same bytes when that text is written.
pub proof fn base64_writes_back(bytes: Seq<u8>)
    ensures
        raw_bytes(formatted(bytes, SerialFormat::Base64), SerialFormat::Base64) == Ok::<
            Seq<u8>,
            Seq<char>,
        >(bytes),
{
    base64::decoding_undoes_encoding(bytes);
}

/// Backends and formats go by their own names, which tell them apart.
pub proof fn backends_and_formats_have_their_names(
    a: SerialBackend,
    b: SerialBackend,
    f: SerialFormat,
    g: SerialFormat,
)
    ensures
        SerialBackend::Ringbuf.name() == "ringbuf"@,
        SerialBackend::Spool.name() == "spool"@,
        SerialBackend::Socket.name() == "socket"@,
        SerialFormat::Utf8.name() == "utf8"@,
        SerialFormat::Base64.name() == "base64"@,
        a.name() == b.name() ==> a == b,
        f.name() == g.name() ==> f == g,
{
    reveal_strlit("ringbuf");
    reveal_strlit("spool");
    reveal_strlit("socket");
    reveal_strlit("utf8");
    reveal_strlit("base64");
    assert("ringbuf"@.len() == 7 && "spool"@.len() == 5 && "socket"@.len() == 6);
    assert("utf8"@.len() == 4 && "base64"@.len() == 6);
}

/// The console of a PC machine is its first serial port and that of an ARM virtual machine its
/// first UART. It cannot be told of any other machine.
pub proof fn consoles_follow_the_machine(machine: Seq<char>)
    ensures
        ({
            let pc = "q35"@.is_prefix_of(machine) || "pc"@.is_prefix_of(machine)
                || "microvm"@.is_prefix_of(machine) || "isapc"@.is_prefix_of(machine);
            &&& pc ==> console_device(machine) == Some("ttyS0"@)
            &&& !pc && "virt"@.is_prefix_of(machine) ==> console_device(machine) == Some(
                "ttyAMA0"@,
            )
            &&& !pc && !"virt"@.is_prefix_of(machine) ==> console_device(machine) is None
        }),
{
    lemma_prefix("q35"@, machine);
    lemma_prefix("pc"@, machine);
    lemma_prefix("microvm"@, machine);
    lemma_prefix("isapc"@, machine);
    lemma_prefix("virt"@, machine);
}

proof fn lemma_prefix(p: Seq<char>, s: Seq<char>)
    ensures
        text::has_prefix(s, p) <==> p.is_prefix_of(s),
{
    if p.len() <= s.len() {
        assert(s.take(p.len() as int) =~= s.subrange(0, p.len() as int));
    }
}

/// The directory part of a path is what stands up to its last slash, that slash included, so that
/// the serial socket lies beside the QMP socket.
pub proof fn directories_end_at_the_last_slash(path: Seq<char>)
    ensures
        directory(path).is_prefix_of(path),
        directory(path).len() > 0 ==> directory(path).last() == '/',
        forall|i: int| directory(path).len() <= i < path.len() ==> #[trigger] path[i] != '/',
    decreases path.len(),
{
    if path.len() > 0 && path.last() != '/' {
        let init = path.drop_last();
        directories_end_at_the_last_slash(init);
        let n = directory(path).len() as int;
        assert(path.subrange(0, n) =~= init.subrange(0, n));
        assert forall|i: int| n <= i < path.len() implies #[trigger] path[i] != '/' by {
            if i < init.len() {
                assert(init[i] == path[i]);
            }
        }
    } else {
        assert(path.subrange(0, path.len() as int) =~= path);
    }
}

/// A log is spooled exactly where there is a directory for it and the name of its subdirectory, if
/// it has one, is safe. It lies then below that directory.
pub proof fn logs_are_spooled_below_their_directory(
    dir: Option<Seq<char>>,
    name: Option<Seq<char>>,
)
    ensures
        ({
            let r = spool_target(dir, name);
            let rooted = dir is Some && !text::is_blank(dir->0);
            &&& r is Ok <==> rooted && (name matches Some(n) ==> text::is_safe_name(n))
            &&& rooted && name is None ==> r == Ok::<Seq<char>, Seq<char>>(
                config::path_join(dir->0, "serial.log"@),
            )
            &&& rooted && name is Some && text::is_safe_name(name->0) ==> r == Ok::<
                Seq<char>,
                Seq<char>,
            >(config::path_join(config::path_join(dir->0, name->0), "serial.log"@))
            &&& !rooted ==> r == Err::<Seq<char>, Seq<char>>(
                "The spool Serial Port backend requires QMP_MCP_SERIAL_SPOOL_DIR — the host directory serial logs are written under."@,
            )
            &&& rooted && name is Some && !text::is_safe_name(name->0) ==> r == Err::<
                Seq<char>,
                Seq<char>,
            >(
                "serialSpool \""@ + name->0
                    + "\" must match ^[A-Za-z0-9][A-Za-z0-9._-]* — a single directory name under QMP_MCP_SERIAL_SPOOL_DIR."@,
            )
        }),
{
}

/// The last bytes are as many as there are, up to the bound, and they are the end of all of them.
pub proof fn last_bytes_are_the_end(bytes: Seq<u8>, n: nat)
    ensures
        last_bytes(bytes, n).is_suffix_of(bytes),
        bytes.len() <= n ==> last_bytes(bytes, n).len() == bytes.len(),
        bytes.len() > n ==> last_bytes(bytes, n).len() == n,
{
    let r = last_bytes(bytes, n);
    assert(r =~= bytes.subrange(bytes.len() - r.len(), bytes.len() as int));
}

/// Output is reported as the text that it spells, or as base64, whichever was asked for; bytes
/// that are UTF-8 lose nothing.
pub proof fn output_is_reported_as_asked(bytes: Seq<u8>, reply: Seq<char>)
    ensures
        utf8::valid_utf8(bytes) ==> formatted(bytes, SerialFormat::Utf8) == utf8::decode_utf8(bytes),
        !utf8::valid_utf8(bytes) ==> formatted(bytes, SerialFormat::Utf8) == replaced_text(bytes),
        formatted(bytes, SerialFormat::Base64) == base64::encoded(bytes),
        json::json_string(reply) matches Some(s) ==> ringbuf_output(reply) == s,
        json::json_string(reply) is None ==> ringbuf_output(reply).len() == 0,
{
}

/// A result holds the output, the name of the format, and how many characters the output has.
pub proof fn results_count_characters(r: SerialReadResult, output: Seq<char>, format: SerialFormat)
    ensures
        r.holds(output, format) <==> r.output@ == output && r.format@ == format.name() && r.bytes
            == r.output@.len(),
{
}

/// A text to write stands for its own bytes, or for those that it spells in base64, whichever was
/// said.
pub proof fn data_is_written_as_said(data: Seq<char>)
    ensures
        raw_bytes(data, SerialFormat::Utf8) == Ok::<Seq<u8>, Seq<char>>(utf8::encode_utf8(data)),
        raw_bytes(data, SerialFormat::Base64) == base64::decoded(utf8::encode_utf8(data)),
{
}

/// The ring inside QEMU is read and written by the device name, in the format that was asked for,
/// and with the size or the data that was.
pub proof fn ring_commands_say_what_was_asked(size: nat, data: Seq<char>, format: SerialFormat)
    ensures
        ringbuf_read_args(size, format) == "{\"device\":\"serial\",\"format\":\""@ + format.name()
            + "\",\"size\":"@ + text::decimal(size) + "}"@,
        ringbuf_write_args(data, format) == "{\"data\":"@ + json::json_quoted(data)
            + ",\"device\":\"serial\",\"format\":\""@ + format.name() + "\"}"@,
        text::has_infix(ringbuf_write_args(data, format), json::json_quoted(data)),
{
    let behind = ",\"device\":\"serial\",\"format\":\""@ + format.name() + "\"}"@;
    assert(ringbuf_write_args(data, format) =~= "{\"data\":"@ + json::json_quoted(data) + behind);
    text::parts_are_found(
        "{\"data\":"@,
        json::json_quoted(data),
        behind,
        ringbuf_write_args(data, format),
    );
}

/// A write that takes too long is given up after two seconds, and the message says so.
pub proof fn slow_writes_are_given_up()
    ensures
        write_timeout() == "Timed out after "@ + text::decimal(2_000)
            + "ms writing to the Serial Port. The guest is not draining its serial input — is it paused, has it panicked, or is nothing reading the console (no getty on the shown console device)?"@,
{
}

} // verus!
