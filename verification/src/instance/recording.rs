//! Display recording: whether it is available, where a recording is written, and how the
//! encoder is run.

use vstd::prelude::*;

use crate::config;
use crate::instance::orchestrator::LifecycleError;
use crate::text;

verus! {

/// How long the encoder has to finalize its file, in milliseconds.
pub const FFMPEG_FINALIZE_TIMEOUT: u64 = 5_000;

/// How long a killed encoder is waited for, in milliseconds.
pub const FFMPEG_KILL_TIMEOUT: u64 = 2_000;

/// How long a started encoder is watched for an immediate exit, in milliseconds.
pub const POST_SPAWN_LIVENESS_WINDOW: u64 = 150;

/// How long listing the encoders may take, in milliseconds.
pub const FFMPEG_PROBE_TIMEOUT: u64 = 5_000;

// ---------------------------------------------------------------------------
// Capability
// ---------------------------------------------------------------------------

/// An encoder program is configured.
pub open spec fn has_ffmpeg(ffmpeg: Option<Seq<char>>) -> bool {
    ffmpeg matches Some(b) && b.len() > 0
}

/// An output directory is configured.
pub open spec fn has_dir(dir: Option<Seq<char>>) -> bool {
    dir matches Some(d) && !text::is_blank(d)
}

/// Whether recording is available and why, given whether the codec is.
pub open spec fn capability_of(
    ffmpeg: Option<Seq<char>>,
    dir: Option<Seq<char>>,
    codec: Seq<char>,
    encoder_present: bool,
) -> (bool, Seq<char>) {
    if !has_ffmpeg(ffmpeg) {
        (
            false,
            "Display recording requires ffmpeg, which was not found. Install ffmpeg or set QMP_MCP_FFMPEG_BINARY to its path."@,
        )
    } else if !has_dir(dir) {
        (
            false,
            "Display recording requires an output directory. Set QMP_MCP_RECORDING_DIR to the host directory recordings are written under."@,
        )
    } else if !encoder_present {
        (
            false,
            "Display recording codec \""@ + codec
                + "\" is not compiled into this ffmpeg build (checked ffmpeg -encoders). Set QMP_MCP_RECORDING_CODEC to an available encoder (e.g. libx264), or rebuild ffmpeg with it."@,
        )
    } else {
        (
            true,
            "Display recording is available (ffmpeg present, codec \""@ + codec + "\")."@,
        )
    }
}

/// Whether recording is available and why, given whether the codec is.
pub fn capability(
    ffmpeg: Option<&str>,
    recording_dir: Option<&str>,
    codec: &str,
    encoder_present: bool,
) -> (r: (bool, String))
    ensures
        (r.0, r.1@) == capability_of(
            text::text_of(ffmpeg),
            text::text_of(recording_dir),
            codec@,
            encoder_present,
        ),
{
    let found = match ffmpeg {
        Some(b) => !b.is_empty(),
        None => false,
    };
    if !found {
        return (
            false,
            "Display recording requires ffmpeg, which was not found. Install ffmpeg or set QMP_MCP_FFMPEG_BINARY to its path.".to_string(),
        );
    }
    let rooted = match recording_dir {
        Some(d) => !text::blank(d),
        None => false,
    };
    if !rooted {
        return (
            false,
            "Display recording requires an output directory. Set QMP_MCP_RECORDING_DIR to the host directory recordings are written under.".to_string(),
        );
    }
    if !encoder_present {
        return (
            false,
            text::cat3(
                "Display recording codec \"",
                codec,
                "\" is not compiled into this ffmpeg build (checked ffmpeg -encoders). Set QMP_MCP_RECORDING_CODEC to an available encoder (e.g. libx264), or rebuild ffmpeg with it.",
            ),
        );
    }
    (
        true,
        text::cat3("Display recording is available (ffmpeg present, codec \"", codec, "\")."),
    )
}

/// Whether recording is available and why. Whether the codec is compiled in is asked only
/// when an encoder program and an output directory are configured.
pub fn recording_capability<F: FnOnce() -> bool>(
    ffmpeg: Option<&str>,
    recording_dir: Option<&str>,
    codec: &str,
    encoder_present: F,
) -> (r: (bool, String))
    requires
        has_ffmpeg(text::text_of(ffmpeg)) && has_dir(text::text_of(recording_dir))
            ==> call_requires(encoder_present, ()),
    ensures
        if has_ffmpeg(text::text_of(ffmpeg)) && has_dir(text::text_of(recording_dir)) {
            exists|present: bool| #[trigger]
                call_ensures(encoder_present, (), present) && (r.0, r.1@) == capability_of(
                    text::text_of(ffmpeg),
                    text::text_of(recording_dir),
                    codec@,
                    present,
                )
        } else {
            (r.0, r.1@) == capability_of(
                text::text_of(ffmpeg),
                text::text_of(recording_dir),
                codec@,
                false,
            )
        },
{
    let found = match ffmpeg {
        Some(b) => !b.is_empty(),
        None => false,
    };
    let rooted = match recording_dir {
        Some(d) => !text::blank(d),
        None => false,
    };
    if found && rooted {
        let present = encoder_present();
        assert(call_ensures(encoder_present, (), present));
        capability(ffmpeg, recording_dir, codec, present)
    } else {
        capability(ffmpeg, recording_dir, codec, false)
    }
}

// ---------------------------------------------------------------------------
// Encoders
// ---------------------------------------------------------------------------

/// The names of encoders, each once.
#[derive(Debug)]
pub struct EncoderSet {
    names: Vec<String>,
}

impl View for EncoderSet {
    type V = Set<Seq<char>>;

    closed spec fn view(&self) -> Set<Seq<char>> {
        text::texts(self.names@).to_set()
    }
}

/// The column of flags before an encoder: six capital letters or dots.
pub open spec fn is_flags(word: Seq<char>) -> bool {
    word.len() == 6 && forall|i: int|
        0 <= i < word.len() ==> ('A' <= #[trigger] word[i] <= 'Z' || word[i] == '.')
}

/// The encoder that a line of the listing names, if any.
pub open spec fn encoder_on(line: Seq<char>) -> Option<Seq<char>> {
    let words = text::words(line);
    if words.len() >= 2 && is_flags(words[0]) {
        Some(words[1])
    } else {
        None
    }
}

/// One of the lines is the separator above the listing.
pub open spec fn has_separator(lines: Seq<Seq<char>>) -> bool {
    exists|i: int| 0 <= i < lines.len() && text::has_infix(#[trigger] lines[i], "------"@)
}

/// The encoders that lines name, below the separator.
pub open spec fn encoders_in(lines: Seq<Seq<char>>) -> Set<Seq<char>>
    decreases lines.len(),
{
    if lines.len() == 0 {
        Set::empty()
    } else {
        let before = encoders_in(lines.drop_last());
        match encoder_on(lines.last()) {
            Some(name) => if has_separator(lines.drop_last()) {
                before.insert(name)
            } else {
                before
            },
            None => before,
        }
    }
}

fn flags_ok(word: &str) -> (r: bool)
    ensures
        r == is_flags(word@),
{
    let x = text::to_chars(word);
    if x.len() != 6 {
        return false;
    }
    let mut i: usize = 0;
    while i < x.len()
        invariant
            x@ == word@,
            i <= x.len() == 6,
            forall|j: int| 0 <= j < i ==> ('A' <= #[trigger] x@[j] <= 'Z' || x@[j] == '.'),
        decreases x.len() - i,
    {
        let c = x[i];
        if !(('A' <= c && c <= 'Z') || c == '.') {
            assert(!('A' <= word@[i as int] <= 'Z' || word@[i as int] == '.'));
            return false;
        }
        i = i + 1;
    }
    true
}

fn encoder_of(line: &str) -> (r: Option<String>)
    ensures
        text::string_of(r) == encoder_on(line@),
{
    let words = text::split_words(line);
    assert(text::texts(words@).len() == words@.len());
    if words.len() >= 2 && flags_ok(words[0].as_str()) {
        assert(text::texts(words@)[0] == words@[0]@);
        assert(text::texts(words@)[1] == words@[1]@);
        Some(words[1].clone())
    } else {
        assert(words@.len() >= 2 ==> text::texts(words@)[0] == words@[0]@);
        None
    }
}

impl EncoderSet {
    #[verifier::type_invariant]
    spec fn each_once(self) -> bool {
        text::texts(self.names@).no_duplicates()
    }

    /// No encoders.
    pub fn new() -> (r: EncoderSet)
        ensures
            r@ == Set::<Seq<char>>::empty(),
    {
        let names: Vec<String> = Vec::new();
        assert(text::texts(names@) =~= Seq::empty());
        let r = EncoderSet { names };
        assert(r@ =~= Set::empty());
        r
    }

    /// Whether an encoder is among them.
    pub fn contains(&self, name: &str) -> (r: bool)
        ensures
            r == self@.contains(name@),
    {
        text::contains_string(&self.names, name)
    }

    /// How many there are.
    pub fn len(&self) -> (r: usize)
        ensures
            r == self@.len(),
    {
        proof {
            use_type_invariant(self);
            text::texts(self.names@).unique_seq_to_set();
        }
        self.names.len()
    }

    /// Whether there are none.
    pub fn is_empty(&self) -> (r: bool)
        ensures
            r == (self@.len() == 0),
    {
        self.len() == 0
    }

    fn with(self, name: String) -> (r: EncoderSet)
        ensures
            r@ == self@.insert(name@),
    {
        broadcast use text::group_texts;

        proof {
            use_type_invariant(&self);
        }
        let ghost start = self@;
        if self.contains(name.as_str()) {
            assert(start.insert(name@) =~= start);
            return self;
        }
        let EncoderSet { mut names } = self;
        let ghost before = text::texts(names@);
        names.push(name);
        assert(text::texts(names@) =~= before.push(name@));
        assert(before.push(name@).no_duplicates());
        let r = EncoderSet { names };
        assert(r@ =~= start.insert(name@)) by {
            let all = before.push(name@);
            assert forall|e: Seq<char>| #[trigger] all.to_set().contains(e) implies start.insert(
                name@,
            ).contains(e) by {
                let i = all.index_of(e);
                if i < before.len() {
                    assert(before[i] == e);
                    assert(before.contains(e));
                }
            }
            assert forall|e: Seq<char>| #[trigger] start.insert(
                name@,
            ).contains(e) implies all.to_set().contains(e) by {
                if before.contains(e) {
                    let i = before.index_of(e);
                    assert(all[i] == e);
                } else {
                    assert(all[before.len() as int] == e);
                }
                assert(all.contains(e));
            }
        }
        r
    }
}

/// The encoders that `ffmpeg -encoders` lists: below the separator, the second word of every
/// line whose first word is a column of flags.
pub fn parse_ffmpeg_encoders(output: &str) -> (r: EncoderSet)
    ensures
        r@ == encoders_in(text::split_on(output@, '\n')),
{
    let lines = text::split_char(output, '\n');
    let ghost all = text::texts(lines@);
    let mut found = EncoderSet::new();
    let mut below = false;
    let mut i: usize = 0;
    assert(all.take(0) =~= Seq::empty());
    while i < lines.len()
        invariant
            all == text::texts(lines@),
            i <= lines@.len(),
            below == has_separator(all.take(i as int)),
            found@ == encoders_in(all.take(i as int)),
        decreases lines@.len() - i,
    {
        let line = lines[i].as_str();
        let ghost now = all.take(i + 1);
        assert(now.drop_last() =~= all.take(i as int));
        assert(now.last() == line@);
        if below {
            if let Some(name) = encoder_of(line) {
                found = found.with(name);
            }
            proof {
                let k = choose|k: int|
                    0 <= k < i && text::has_infix(#[trigger] all.take(i as int)[k], "------"@);
                assert(now[k] == all.take(i as int)[k]);
            }
        } else if text::contains_text(line, "------") {
            below = true;
            assert(text::has_infix(now[i as int], "------"@));
        } else {
            assert(!has_separator(now)) by {
                assert forall|k: int| 0 <= k < now.len() implies !text::has_infix(
                    #[trigger] now[k],
                    "------"@,
                ) by {
                    if k < i {
                        assert(now[k] == all.take(i as int)[k]);
                    }
                }
            }
        }
        i = i + 1;
    }
    assert(all.take(all.len() as int) =~= all);
    found
}

// ---------------------------------------------------------------------------
// Running the encoder
// ---------------------------------------------------------------------------

/// The arguments of the encoder.
pub open spec fn ffmpeg_args(
    codec: Seq<char>,
    crf: nat,
    pixfmt: Seq<char>,
    out_path: Seq<char>,
) -> Seq<Seq<char>> {
    seq![
        "-f"@,
        "image2pipe"@,
        "-use_wallclock_as_timestamps"@,
        "1"@,
        "-i"@,
        "pipe:0"@,
        "-c:v"@,
        codec,
    ] + (if codec == "libx264"@ {
        seq!["-tune"@, "stillimage"@]
    } else {
        Seq::empty()
    }) + seq![
        "-crf"@,
        text::decimal(crf),
        "-pix_fmt"@,
        pixfmt,
        "-fps_mode"@,
        "vfr"@,
        "-y"@,
        out_path,
    ]
}

/// The arguments of the encoder: frames come in on its standard input, are stamped with the
/// time they arrive, and make a file of variable frame rate. The frame rate is no argument;
/// it only paces the capture.
pub fn build_ffmpeg_args(
    codec: &str,
    crf: u32,
    max_fps: u32,
    pixfmt: &str,
    out_path: &str,
) -> (r: Vec<String>)
    ensures
        text::texts(r@) == ffmpeg_args(codec@, crf as nat, pixfmt@, out_path@),
{
    let mut args: Vec<String> = Vec::new();
    args.push("-f".to_string());
    args.push("image2pipe".to_string());
    args.push("-use_wallclock_as_timestamps".to_string());
    args.push("1".to_string());
    args.push("-i".to_string());
    args.push("pipe:0".to_string());
    args.push("-c:v".to_string());
    args.push(codec.to_string());
    if text::str_eq(codec, "libx264") {
        args.push("-tune".to_string());
        args.push("stillimage".to_string());
    }
    args.push("-crf".to_string());
    args.push(text::decimal_u64(crf as u64));
    args.push("-pix_fmt".to_string());
    args.push(pixfmt.to_string());
    args.push("-fps_mode".to_string());
    args.push("vfr".to_string());
    args.push("-y".to_string());
    args.push(out_path.to_string());
    assert(text::texts(args@) =~= ffmpeg_args(codec@, crf as nat, pixfmt@, out_path@));
    args
}

/// How long one frame lasts at most, in milliseconds.
pub open spec fn interval_of(max_fps: u32) -> u64 {
    if max_fps < 1 {
        1000
    } else {
        (1000int / max_fps as int) as u64
    }
}

/// How long one frame lasts at most, in milliseconds.
pub fn frame_interval(max_fps: u32) -> (r: u64)
    ensures
        r == interval_of(max_fps),
{
    if max_fps < 1 {
        1_000
    } else {
        1_000 / (max_fps as u64)
    }
}

/// How long to wait for the next frame, in milliseconds, after one that took `elapsed`.
pub fn frame_delay(interval: u64, elapsed: u64) -> (r: u64)
    ensures
        r == (if elapsed < interval {
            interval - elapsed
        } else {
            0
        }),
{
    if elapsed < interval {
        interval - elapsed
    } else {
        0
    }
}

/// What happens while frames are recorded.
#[derive(Debug, Clone, Copy, PartialEq, Eq, Structural)]
pub enum FrameEvent {
    /// The time of a frame has come.
    Due,
    /// The frame was captured into its file.
    Captured,
    /// The frame could not be captured: the Instance is gone.
    CaptureFailed,
    /// The file of the frame was read.
    Read,
    /// The file of the frame could not be read.
    Unreadable,
    /// The encoder took the frame.
    Fed,
    /// The encoder takes no more frames.
    FeedFailed,
}

/// What is done next while frames are recorded.
#[derive(Debug, Clone, Copy, PartialEq, Eq, Structural)]
pub enum FrameAction {
    /// Capture a frame.
    Capture,
    /// Read the file of the frame.
    Read,
    /// Hand the frame to the encoder.
    Feed,
    /// Wait until the next frame is due.
    Wait,
    /// Stop: the recording is over.
    Stop,
}

/// What an event leads to: a frame that cannot be read is skipped, and an Instance or an
/// encoder that is gone ends the recording.
pub open spec fn frame_step(event: FrameEvent) -> FrameAction {
    match event {
        FrameEvent::Due => FrameAction::Capture,
        FrameEvent::Captured => FrameAction::Read,
        FrameEvent::Read => FrameAction::Feed,
        FrameEvent::Fed | FrameEvent::Unreadable => FrameAction::Wait,
        FrameEvent::CaptureFailed | FrameEvent::FeedFailed => FrameAction::Stop,
    }
}

/// What to do next while frames are recorded.
pub fn next_frame_step(event: FrameEvent) -> (r: FrameAction)
    ensures
        r == frame_step(event),
{
    match event {
        FrameEvent::Due => FrameAction::Capture,
        FrameEvent::Captured => FrameAction::Read,
        FrameEvent::Read => FrameAction::Feed,
        FrameEvent::Fed => FrameAction::Wait,
        FrameEvent::Unreadable => FrameAction::Wait,
        FrameEvent::CaptureFailed => FrameAction::Stop,
        FrameEvent::FeedFailed => FrameAction::Stop,
    }
}

// ---------------------------------------------------------------------------
// Names and paths
// ---------------------------------------------------------------------------

/// What makes a file name of the server's own choosing unique: the process, the time in
/// nanoseconds and a counter.
#[derive(Debug, Clone, Copy, PartialEq, Eq, Structural)]
pub struct Stamp {
    /// The process id.
    pub pid: u32,
    /// Nanoseconds since the epoch.
    pub nanos: u128,
    /// A counter that no two files of a process share.
    pub seq: u64,
}

/// A file name of the server's own choosing.
pub open spec fn stamped_name(prefix: Seq<char>, stamp: Stamp, extension: Seq<char>) -> Seq<char> {
    prefix + "-"@ + text::decimal(stamp.pid as nat) + "-"@ + text::decimal(stamp.nanos as nat)
        + "-"@ + text::decimal(stamp.seq as nat) + extension
}

/// A file name of the server's own choosing.
pub fn stamped_file(prefix: &str, stamp: Stamp, extension: &str) -> (r: String)
    ensures
        r@ == stamped_name(prefix@, stamp, extension@),
{
    let pid = text::decimal_u64(stamp.pid as u64);
    let nanos = text::decimal_u128(stamp.nanos);
    let seq = text::decimal_u64(stamp.seq);
    let mut name = text::cat5(prefix, "-", pid.as_str(), "-", nanos.as_str());
    name.append("-");
    name.append(seq.as_str());
    name.append(extension);
    name
}

/// The path of a fresh screendump under a directory of the server's own.
pub fn screendump_path(dir: &str, stamp: Stamp) -> (r: String)
    ensures
        r@ == config::path_join(dir@, stamped_name("screendump"@, stamp, ".png"@)),
{
    let file = stamped_file("screendump", stamp, ".png");
    config::join(dir, file.as_str())
}

/// The path of the frame that a recording writes and reads back.
pub fn recording_frame_path(dir: &str, stamp: Stamp) -> (r: String)
    ensures
        r@ == config::path_join(dir@, stamped_name("frame"@, stamp, ".png"@)),
{
    let file = stamped_file("frame", stamp, ".png");
    config::join(dir, file.as_str())
}

/// The message for a name that a recording cannot have.
pub open spec fn name_refusal(name: Seq<char>) -> Seq<char> {
    "Recording name \""@ + name
        + "\" must match ^[A-Za-z0-9][A-Za-z0-9._-]* — a single file name under QMP_MCP_RECORDING_DIR with no slash, '..', or leading dot (never a host path)."@
}

/// Check the name of a recording: a single safe file name.
pub fn validate_recording_name(name: &str) -> (r: Result<(), LifecycleError>)
    ensures
        match r {
            Ok(_) => text::is_safe_name(name@),
            Err(e) => !text::is_safe_name(name@) && e.0@ == name_refusal(name@),
        },
{
    if text::safe_name(name) {
        Ok(())
    } else {
        Err(
            LifecycleError(
                text::cat3(
                    "Recording name \"",
                    name,
                    "\" must match ^[A-Za-z0-9][A-Za-z0-9._-]* — a single file name under QMP_MCP_RECORDING_DIR with no slash, '..', or leading dot (never a host path).",
                ),
            ),
        )
    }
}

/// The file name of a recording: the given name, or one of the server's own choosing.
pub open spec fn recording_file(name: Option<Seq<char>>, stamp: Stamp) -> Seq<char> {
    match name {
        Some(n) => n + ".mkv"@,
        None => stamped_name("recording"@, stamp, ".mkv"@),
    }
}

/// The file name of a recording.
pub fn recording_file_name(name: Option<&str>, stamp: Stamp) -> (r: String)
    ensures
        r@ == recording_file(text::text_of(name), stamp),
{
    match name {
        Some(n) => text::cat2(n, ".mkv"),
        None => stamped_file("recording", stamp, ".mkv"),
    }
}

/// The path of a recording, or why there is none.
pub open spec fn recording_target(
    dir: Option<Seq<char>>,
    name: Option<Seq<char>>,
    stamp: Stamp,
) -> Result<Seq<char>, Seq<char>> {
    if !has_dir(dir) {
        Err(
            "Display recording requires QMP_MCP_RECORDING_DIR — the host directory recordings are written under."@,
        )
    } else if name matches Some(n) && !text::is_safe_name(n) {
        Err(name_refusal(name->0))
    } else {
        Ok(config::path_join(dir->0, recording_file(name, stamp)))
    }
}

/// The path of a recording: a file directly under the operator's directory.
pub fn resolve_recording_path(
    recording_dir: Option<&str>,
    name: Option<&str>,
    stamp: Stamp,
) -> (r: Result<String, LifecycleError>)
    ensures
        match recording_target(text::text_of(recording_dir), text::text_of(name), stamp) {
            Ok(p) => r matches Ok(x) && x@ == p,
            Err(m) => r matches Err(e) && e.0@ == m,
        },
{
    let root = match recording_dir {
        Some(d) => if text::blank(d) {
            None
        } else {
            Some(d)
        },
        None => None,
    };
    let dir = match root {
        Some(d) => d,
        None => {
            return Err(
                LifecycleError(
                    "Display recording requires QMP_MCP_RECORDING_DIR — the host directory recordings are written under.".to_string(),
                ),
            );
        },
    };
    if let Some(n) = name {
        match validate_recording_name(n) {
            Ok(()) => {},
            Err(e) => return Err(e),
        }
    }
    let file = recording_file_name(name, stamp);
    Ok(config::join(dir, file.as_str()))
}

// ---------------------------------------------------------------------------
// Laws
// ---------------------------------------------------------------------------

/// The frame rate never reaches the encoder's arguments: they are the same for every one, and
/// the arguments of two codecs differ in no more than the codec and the tuning.
pub proof fn arguments_are_pinned(codec: Seq<char>, crf: nat, pixfmt: Seq<char>, out: Seq<char>)
    ensures
        ffmpeg_args(codec, crf, pixfmt, out).len() == (if codec == "libx264"@ {
            18nat
        } else {
            16nat
        }),
        ffmpeg_args(codec, crf, pixfmt, out).last() == out,
        ffmpeg_args(codec, crf, pixfmt, out)[7] == codec,
{
}

/// Two files that the server names at the same moment differ when their counters do.
pub proof fn stamped_names_differ(
    prefix: Seq<char>,
    first: Stamp,
    second: Stamp,
    extension: Seq<char>,
)
    requires
        first.pid == second.pid,
        first.nanos == second.nanos,
        first.seq != second.seq,
    ensures
        stamped_name(prefix, first, extension) != stamped_name(prefix, second, extension),
{
    let head = prefix + "-"@ + text::decimal(first.pid as nat) + "-"@ + text::decimal(
        first.nanos as nat,
    ) + "-"@;
    let a = text::decimal(first.seq as nat);
    let b = text::decimal(second.seq as nat);
    text::decimal_reads_back(first.seq as nat);
    text::decimal_reads_back(second.seq as nat);
    if stamped_name(prefix, first, extension) == stamped_name(prefix, second, extension) {
        let x = stamped_name(prefix, first, extension);
        let y = stamped_name(prefix, second, extension);
        assert(x =~= head + a + extension);
        assert(y =~= head + b + extension);
        assert(a.len() == b.len());
        assert(a =~= x.subrange(head.len() as int, (head.len() + a.len()) as int));
        assert(b =~= y.subrange(head.len() as int, (head.len() + b.len()) as int));
        assert(a == b);
    }
}

/// A recording is written directly under the operator's directory: its file name has no
/// separator, so the name of a recording can never lead out of it.
pub proof fn recordings_stay_under_their_directory(
    dir: Option<Seq<char>>,
    name: Seq<char>,
    stamp: Stamp,
)
    requires
        recording_target(dir, Some(name), stamp) is Ok,
    ensures
        recording_target(dir, Some(name), stamp)->Ok_0 == config::path_join(
            dir->0,
            recording_file(Some(name), stamp),
        ),
        !recording_file(Some(name), stamp).contains('/'),
        recording_file(Some(name), stamp)[0] != '.',
{
    reveal_strlit(".mkv");
    let file = recording_file(Some(name), stamp);
    assert forall|i: int| 0 <= i < file.len() implies #[trigger] file[i] != '/' by {
        if i < name.len() {
            assert(file[i] == name[i]);
        } else {
            assert(file[i] == ".mkv"@[i - name.len()]);
        }
    }
    assert(file[0] == name[0]);
}

/// Recording is available exactly where there is an encoder program, a directory, and the codec in
/// the program. What is said of it names the first of these that is missing, and the codec where it
/// is about the codec.
pub proof fn recording_needs_all_three(
    ffmpeg: Option<Seq<char>>,
    dir: Option<Seq<char>>,
    codec: Seq<char>,
    present: bool,
)
    ensures
        ({
            let r = capability_of(ffmpeg, dir, codec, present);
            let program = ffmpeg is Some && ffmpeg->0.len() > 0;
            let rooted = dir is Some && !text::is_blank(dir->0);
            &&& r.0 <==> program && rooted && present
            &&& !program ==> r.1
                == "Display recording requires ffmpeg, which was not found. Install ffmpeg or set QMP_MCP_FFMPEG_BINARY to its path."@
            &&& program && !rooted ==> r.1
                == "Display recording requires an output directory. Set QMP_MCP_RECORDING_DIR to the host directory recordings are written under."@
            &&& program && rooted && !present ==> r.1 == "Display recording codec \""@ + codec
                + "\" is not compiled into this ffmpeg build (checked ffmpeg -encoders). Set QMP_MCP_RECORDING_CODEC to an available encoder (e.g. libx264), or rebuild ffmpeg with it."@
            &&& program && rooted && present ==> r.1
                == "Display recording is available (ffmpeg present, codec \""@ + codec + "\")."@
        }),
{
}

/// A line names an encoder exactly where its first word is six flags and it has a second, which is
/// then the name.
pub proof fn encoders_are_the_second_word(line: Seq<char>, name: Seq<char>)
    ensures
        encoder_on(line) == Some(name) <==> ({
            let w = text::words(line);
            &&& w.len() >= 2
            &&& w[1] == name
            &&& w[0].len() == 6
            &&& forall|i: int|
                0 <= i < 6 ==> ('A' <= #[trigger] w[0][i] && w[0][i] <= 'Z') || w[0][i] == '.'
        }),
{
}

/// An encoder is listed exactly where some line names it and a separator stands on some line
/// above. Every such line counts.
pub proof fn encoders_are_listed_below_the_separator(lines: Seq<Seq<char>>, name: Seq<char>)
    ensures
        encoders_in(lines).contains(name) <==> exists|i: int, j: int|
            0 <= i < j < lines.len() && #[trigger] text::has_infix(lines[i], "------"@)
                && #[trigger] encoder_on(lines[j]) == Some(name),
    decreases lines.len(),
{
    if lines.len() > 0 {
        let init = lines.drop_last();
        let n = lines.len() - 1;
        encoders_are_listed_below_the_separator(init, name);
        if encoders_in(init).contains(name) {
            let (i, j) = choose|i: int, j: int|
                0 <= i < j < init.len() && #[trigger] text::has_infix(init[i], "------"@)
                    && #[trigger] encoder_on(init[j]) == Some(name);
            assert(text::has_infix(lines[i], "------"@) && encoder_on(lines[j]) == Some(name));
        }
        if has_separator(init) && encoder_on(lines.last()) == Some(name) {
            let i = choose|i: int|
                0 <= i < init.len() && text::has_infix(#[trigger] init[i], "------"@);
            assert(init[i] == lines[i]);
            assert(text::has_infix(lines[i], "------"@) && encoder_on(lines[n]) == Some(name));
        }
        if exists|i: int, j: int|
            0 <= i < j < lines.len() && #[trigger] text::has_infix(lines[i], "------"@)
                && #[trigger] encoder_on(lines[j]) == Some(name) {
            let (i, j) = choose|i: int, j: int|
                0 <= i < j < lines.len() && #[trigger] text::has_infix(lines[i], "------"@)
                    && #[trigger] encoder_on(lines[j]) == Some(name);
            assert(init[i] == lines[i]);
            if j < n {
                assert(init[j] == lines[j]);
                assert(text::has_infix(init[i], "------"@) && encoder_on(init[j]) == Some(name));
            } else {
                assert(has_separator(init));
            }
        }
    }
}

/// The encoder reads frames from its standard input, stamps them as they come, encodes them with
/// the codec, the quality and the pixel format that are configured, and writes the file, whatever
/// lies there. Only the default codec is tuned.
pub proof fn encoders_are_told_what_is_configured(
    codec: Seq<char>,
    crf: nat,
    pixfmt: Seq<char>,
    out: Seq<char>,
)
    ensures
        ({
            let args = ffmpeg_args(codec, crf, pixfmt, out);
            let n: int = if codec == "libx264"@ {
                10
            } else {
                8
            };
            &&& args.len() == n + 8
            &&& args[0] == "-f"@ && args[1] == "image2pipe"@
            &&& args[2] == "-use_wallclock_as_timestamps"@ && args[3] == "1"@
            &&& args[4] == "-i"@ && args[5] == "pipe:0"@
            &&& args[6] == "-c:v"@ && args[7] == codec
            &&& codec == "libx264"@ ==> args[8] == "-tune"@ && args[9] == "stillimage"@
            &&& args[n] == "-crf"@ && args[n + 1] == text::decimal(crf)
            &&& args[n + 2] == "-pix_fmt"@ && args[n + 3] == pixfmt
            &&& args[n + 4] == "-fps_mode"@ && args[n + 5] == "vfr"@
            &&& args[n + 6] == "-y"@ && args[n + 7] == out
        }),
{
}

/// The interval between frames is the longest whole number of milliseconds of which a second holds
/// as many as there are frames, and a whole second where no rate is set.
pub proof fn intervals_fill_a_second(fps: u32)
    ensures
        fps == 0 ==> interval_of(fps) == 1000,
        fps > 0 ==> interval_of(fps) * fps <= 1000 < (interval_of(fps) + 1) * fps,
{
    if fps > 0 {
        let f = fps as int;
        let q = 1000int / f;
        vstd::arithmetic::div_mod::lemma_fundamental_div_mod(1000, f);
        assert(q * f <= 1000 < (q + 1) * f && 0 <= q <= 1000) by (nonlinear_arith)
            requires
                1000 == f * q + 1000int % f,
                0 <= 1000int % f < f,
                f > 0,
        ;
    }
}

/// A frame is captured when it is due, read once it is captured, and handed on once it is read. One
/// that cannot be read is passed over, and the recording ends where no frame can be captured or
/// none is taken any more.
pub proof fn frames_are_captured_read_and_fed(e: FrameEvent)
    ensures
        frame_step(e) == FrameAction::Capture <==> e == FrameEvent::Due,
        frame_step(e) == FrameAction::Read <==> e == FrameEvent::Captured,
        frame_step(e) == FrameAction::Feed <==> e == FrameEvent::Read,
        frame_step(e) == FrameAction::Wait <==> e == FrameEvent::Fed || e == FrameEvent::Unreadable,
        frame_step(e) == FrameAction::Stop <==> e == FrameEvent::CaptureFailed || e
            == FrameEvent::FeedFailed,
{
}

/// A recording has a place exactly where there is a directory for it and its name, if it has one,
/// is safe. Its file lies then in that directory, under its name or one made from the stamp.
pub proof fn recordings_are_named_as_asked(
    dir: Option<Seq<char>>,
    name: Option<Seq<char>>,
    stamp: Stamp,
)
    ensures
        ({
            let r = recording_target(dir, name, stamp);
            let rooted = dir is Some && !text::is_blank(dir->0);
            &&& r is Ok <==> rooted && (name matches Some(n) ==> text::is_safe_name(n))
            &&& r is Ok && name is Some ==> r->Ok_0 == config::path_join(dir->0, name->0 + ".mkv"@)
            &&& r is Ok && name is None ==> r->Ok_0 == config::path_join(
                dir->0,
                "recording"@ + "-"@ + text::decimal(stamp.pid as nat) + "-"@ + text::decimal(
                    stamp.nanos as nat,
                ) + "-"@ + text::decimal(stamp.seq as nat) + ".mkv"@,
            )
            &&& !rooted ==> r == Err::<Seq<char>, Seq<char>>(
                "Display recording requires QMP_MCP_RECORDING_DIR — the host directory recordings are written under."@,
            )
            &&& rooted && name is Some && !text::is_safe_name(name->0) ==> r == Err::<
                Seq<char>,
                Seq<char>,
            >(
                "Recording name \""@ + name->0
                    + "\" must match ^[A-Za-z0-9][A-Za-z0-9._-]* — a single file name under QMP_MCP_RECORDING_DIR with no slash, '..', or leading dot (never a host path)."@,
            )
        }),
{
}

} // verus!
