//! Launching a real QEMU process: the steps in their order, what each outcome leads to, and
//! the diagnostics that a failure carries.

use vstd::prelude::*;

use crate::qemu::driver::{DriverError, LaunchRequest};
use crate::text;

verus! {

/// How long to wait for QEMU to accept on the QMP socket, in milliseconds.
pub const SOCKET_DIAL_TIMEOUT: u64 = 10_000;

/// The delay between connection attempts, in milliseconds.
pub const SOCKET_DIAL_INTERVAL: u64 = 50;

/// How long a process has to end before it is killed, in milliseconds.
pub const TERMINATE_GRACE: u64 = 5_000;

/// How many bytes of the process's error output are retained.
pub const STDERR_CAP: usize = 4_000;

// ---------------------------------------------------------------------------
// Error output
// ---------------------------------------------------------------------------

/// How many bytes a character takes in UTF-8.
pub open spec fn char_bytes(c: char) -> nat {
    if (c as u32) < 0x80 {
        1
    } else if (c as u32) < 0x800 {
        2
    } else if (c as u32) < 0x10000 {
        3
    } else {
        4
    }
}

/// How many bytes a text takes in UTF-8.
pub open spec fn text_bytes(s: Seq<char>) -> nat
    decreases s.len(),
{
    if s.len() == 0 {
        0
    } else {
        char_bytes(s[0]) + text_bytes(s.skip(1))
    }
}

/// `t` is the longest end of `s` that takes at most `cap` bytes.
pub open spec fn is_tail(t: Seq<char>, s: Seq<char>, cap: nat) -> bool {
    exists|k: int|
        0 <= k <= s.len() && t == #[trigger] s.skip(k) && text_bytes(t) <= cap && (k == 0
            || text_bytes(s.skip(k - 1)) > cap)
}

/// Append to the retained error output, keeping the longest end that takes at most
/// `STDERR_CAP` bytes: the fatal message comes last.
pub fn append_capped(buf: &mut String, chunk: &str)
    ensures
        is_tail(final(buf)@, old(buf)@ + chunk@, STDERR_CAP as nat),
{
    buf.append(chunk);
    let ghost whole = buf@;
    let chars = text::to_chars(buf.as_str());
    let mut start: usize = chars.len();
    let mut bytes: usize = 0;
    assert(whole.skip(whole.len() as int) =~= Seq::empty());
    while start > 0
        invariant
            chars@ == whole,
            whole == old(buf)@ + chunk@,
            start <= chars.len(),
            bytes <= STDERR_CAP,
            bytes == text_bytes(whole.skip(start as int)),
            buf@ == whole,
        decreases start,
    {
        let c = chars[start - 1];
        let width: usize = if (c as u32) < 0x80 {
            1
        } else if (c as u32) < 0x800 {
            2
        } else if (c as u32) < 0x10000 {
            3
        } else {
            4
        };
        assert(whole.skip(start - 1).skip(1) =~= whole.skip(start as int));
        assert(whole.skip(start - 1)[0] == c);
        if bytes + width > STDERR_CAP {
            *buf = text::from_chars(&chars, start, chars.len());
            assert(buf@ =~= whole.skip(start as int));
            return ;
        }
        bytes = bytes + width;
        start = start - 1;
    }
    assert(whole.skip(0) =~= whole);
}

/// The error output for a message, without the white space around it.
pub open spec fn stderr_report(s: Seq<char>) -> Seq<char> {
    if text::trimmed(s).len() == 0 {
        "(empty)"@
    } else {
        text::trimmed(s)
    }
}

/// The error output for a message: trimmed, or `(empty)` where nothing is left.
pub fn stderr_or_empty(buf: &str) -> (r: String)
    ensures
        r@ == stderr_report(buf@),
{
    let snapshot = text::trim(buf);
    if snapshot.as_str().is_empty() {
        "(empty)".to_string()
    } else {
        snapshot
    }
}

/// How a process ended.
#[derive(Debug, Clone, Copy, PartialEq, Eq, Structural)]
pub struct Exit {
    /// The exit code, unless a signal ended it.
    pub code: Option<i32>,
    /// The signal that ended it, if one did.
    pub signal: Option<i32>,
}

/// An optional number for a message.
pub open spec fn number_report(n: Option<i32>) -> Seq<char> {
    match n {
        Some(k) => "Some("@ + text::decimal_int(k as int) + ")"@,
        None => "None"@,
    }
}

fn number_text(n: Option<i32>) -> (r: String)
    ensures
        r@ == number_report(n),
{
    match n {
        Some(k) => {
            let digits = text::decimal_i64(k as i64);
            text::cat3("Some(", digits.as_str(), ")")
        },
        None => "None".to_string(),
    }
}

/// How a process ended, for a message.
pub open spec fn exit_report(exit: Exit) -> Seq<char> {
    "code="@ + number_report(exit.code) + ", signal="@ + number_report(exit.signal)
}

/// How a process ended, for a message.
pub fn describe_exit(exit: Exit) -> (r: String)
    ensures
        r@ == exit_report(exit),
{
    let code = number_text(exit.code);
    let signal = number_text(exit.signal);
    text::cat4("code=", code.as_str(), ", signal=", signal.as_str())
}

// ---------------------------------------------------------------------------
// Launching
// ---------------------------------------------------------------------------

/// How far a launch has come.
#[derive(Debug, Clone, Copy, PartialEq, Eq, Structural)]
pub enum Stage {
    /// The directory of the socket is being created.
    Preparing,
    /// The socket path is being inspected.
    Inspecting,
    /// The process is being started.
    Spawning,
    /// The socket is being dialled.
    Dialing,
    /// The next attempt to dial is awaited.
    Waiting,
    /// The QMP session is being negotiated.
    Negotiating,
    /// The launch has succeeded.
    Launched,
    /// The launch has failed.
    Failed,
}

/// What happened to a launch.
#[derive(Debug, Clone, PartialEq, Eq)]
pub enum LaunchEvent {
    /// The directory of the socket exists.
    DirectoryReady,
    /// The directory `dir` could not be created.
    DirectoryFailed {
        /// The directory.
        dir: String,
        /// Why not.
        why: String,
    },
    /// Nothing lies at the socket path.
    SocketFree,
    /// Something lies at the socket path.
    SocketOccupied,
    /// The process was started.
    Spawned,
    /// The process could not be started.
    SpawnFailed(String),
    /// The process ended before the socket accepted.
    Exited(Exit),
    /// The socket accepted.
    Connected,
    /// The socket did not accept.
    Refused {
        /// Why not.
        why: String,
        /// Whether the time to connect is up.
        late: bool,
    },
    /// The delay between two attempts has passed.
    Waited,
    /// The QMP session is established.
    Negotiated,
    /// The QMP session could not be negotiated.
    NegotiationFailed(String),
}

/// What a launch does next.
#[derive(Debug, PartialEq, Eq)]
pub enum LaunchAction {
    /// Look whether something lies at the socket path.
    Inspect,
    /// Start the process.
    Spawn,
    /// See whether the process still runs, then dial the socket.
    Dial,
    /// Wait for `SOCKET_DIAL_INTERVAL`.
    Wait,
    /// Negotiate the QMP session.
    Negotiate,
    /// Hand the Instance over.
    Finish,
    /// Report the error after cleaning up.
    Fail {
        /// The error.
        error: DriverError,
        /// Whether a session is to be closed.
        close_session: bool,
        /// Whether the process is to be ended and the socket removed.
        reap: bool,
    },
}

/// An event can happen at a stage.
pub open spec fn can_happen(stage: Stage, event: LaunchEvent) -> bool {
    match stage {
        Stage::Preparing => event is DirectoryReady || event is DirectoryFailed,
        Stage::Inspecting => event is SocketFree || event is SocketOccupied,
        Stage::Spawning => event is Spawned || event is SpawnFailed,
        Stage::Dialing => event is Exited || event is Connected || event is Refused,
        Stage::Waiting => event is Waited,
        Stage::Negotiating => event is Negotiated || event is NegotiationFailed,
        Stage::Launched => false,
        Stage::Failed => false,
    }
}

/// The stage that an event leads to.
pub open spec fn next_stage(event: LaunchEvent) -> Stage {
    match event {
        LaunchEvent::DirectoryReady => Stage::Inspecting,
        LaunchEvent::SocketFree => Stage::Spawning,
        LaunchEvent::Spawned => Stage::Dialing,
        LaunchEvent::Connected => Stage::Negotiating,
        LaunchEvent::Refused { why, late } => if late {
            Stage::Failed
        } else {
            Stage::Waiting
        },
        LaunchEvent::Waited => Stage::Dialing,
        LaunchEvent::Negotiated => Stage::Launched,
        _ => Stage::Failed,
    }
}

/// The message for an event that fails a launch.
pub open spec fn failure_text(
    binary: Seq<char>,
    socket: Seq<char>,
    event: LaunchEvent,
    stderr: Seq<char>,
) -> Seq<char> {
    match event {
        LaunchEvent::DirectoryFailed { dir, why } =>
        "Failed to create the QMP socket directory "@ + dir@ + ": "@ + why@,
        LaunchEvent::SocketOccupied => "The QMP socket path "@ + socket
            + " is already occupied — refusing to start rather than clobber or adopt a process this server did not launch. Remove the stale socket (or stop the other process), then retry."@,
        LaunchEvent::SpawnFailed(why) => "Failed to spawn "@ + binary + ": "@ + why@,
        LaunchEvent::Exited(exit) => "QEMU exited before the QMP socket was ready ("@ + exit_report(
            exit,
        ) + "). Stderr: "@ + stderr_report(stderr),
        LaunchEvent::Refused { why, late } => "Timed out after "@ + text::decimal(
            SOCKET_DIAL_TIMEOUT as nat,
        ) + "ms connecting to the QMP socket at "@ + socket + ": "@ + why@ + ". Stderr: "@
            + stderr_report(stderr),
        LaunchEvent::NegotiationFailed(why) => "Failed to negotiate the QMP session with "@ + binary
            + ": "@ + why@,
        _ => Seq::empty(),
    }
}

/// What an event makes a launch do next.
pub open spec fn leads_to(
    binary: Seq<char>,
    socket: Seq<char>,
    event: LaunchEvent,
    stderr: Seq<char>,
    action: LaunchAction,
) -> bool {
    match next_stage(event) {
        Stage::Inspecting => action is Inspect,
        Stage::Spawning => action is Spawn,
        Stage::Dialing => action is Dial,
        Stage::Waiting => action is Wait,
        Stage::Negotiating => action is Negotiate,
        Stage::Launched => action is Finish,
        _ => action matches LaunchAction::Fail { error, close_session, reap } && error.0@
            == failure_text(binary, socket, event, stderr) && close_session == (event
            is NegotiationFailed) && reap == (event is Exited || event is Refused || event
            is NegotiationFailed),
    }
}

/// A launch in progress.
#[derive(Debug)]
pub struct Launch {
    /// What is launched.
    pub request: LaunchRequest,
    /// How far it has come.
    pub stage: Stage,
}

fn failure(error: String, close_session: bool, reap: bool) -> (r: LaunchAction)
    ensures
        r matches LaunchAction::Fail { error: e, close_session: c, reap: p } && e.0@ == error@ && c
            == close_session && p == reap,
{
    LaunchAction::Fail { error: DriverError(error), close_session, reap }
}

impl Launch {
    /// A launch starts by creating the directory of the socket.
    pub fn new(request: LaunchRequest) -> (r: Launch)
        ensures
            r.request == request,
            r.stage == Stage::Preparing,
    {
        Launch { request, stage: Stage::Preparing }
    }

    /// Take note of what happened, and say what to do next. `stderr` is the error output
    /// retained so far.
    pub fn advance(&mut self, event: LaunchEvent, stderr: &str) -> (r: LaunchAction)
        requires
            can_happen(old(self).stage, event),
        ensures
            final(self).request == old(self).request,
            final(self).stage == next_stage(event),
            leads_to(
                old(self).request.binary@,
                old(self).request.qmp_socket_path@,
                event,
                stderr@,
                r,
            ),
    {
        let binary = self.request.binary.as_str();
        let socket = self.request.qmp_socket_path.as_str();
        let (stage, action) = match event {
            LaunchEvent::DirectoryReady => (Stage::Inspecting, LaunchAction::Inspect),
            LaunchEvent::SocketFree => (Stage::Spawning, LaunchAction::Spawn),
            LaunchEvent::Spawned => (Stage::Dialing, LaunchAction::Dial),
            LaunchEvent::Waited => (Stage::Dialing, LaunchAction::Dial),
            LaunchEvent::Connected => (Stage::Negotiating, LaunchAction::Negotiate),
            LaunchEvent::Negotiated => (Stage::Launched, LaunchAction::Finish),
            LaunchEvent::DirectoryFailed { dir, why } => {
                let m = text::cat4(
                    "Failed to create the QMP socket directory ",
                    dir.as_str(),
                    ": ",
                    why.as_str(),
                );
                (Stage::Failed, failure(m, false, false))
            },
            LaunchEvent::SocketOccupied => {
                let m = text::cat3(
                    "The QMP socket path ",
                    socket,
                    " is already occupied — refusing to start rather than clobber or adopt a process this server did not launch. Remove the stale socket (or stop the other process), then retry.",
                );
                (Stage::Failed, failure(m, false, false))
            },
            LaunchEvent::SpawnFailed(why) => {
                let m = text::cat4("Failed to spawn ", binary, ": ", why.as_str());
                (Stage::Failed, failure(m, false, false))
            },
            LaunchEvent::Exited(exit) => {
                let report = describe_exit(exit);
                let tail = stderr_or_empty(stderr);
                let m = text::cat4(
                    "QEMU exited before the QMP socket was ready (",
                    report.as_str(),
                    "). Stderr: ",
                    tail.as_str(),
                );
                (Stage::Failed, failure(m, false, true))
            },
            LaunchEvent::Refused { why, late } => {
                if late {
                    let ms = text::decimal_u64(SOCKET_DIAL_TIMEOUT);
                    let tail = stderr_or_empty(stderr);
                    let mut m = text::cat5(
                        "Timed out after ",
                        ms.as_str(),
                        "ms connecting to the QMP socket at ",
                        socket,
                        ": ",
                    );
                    m.append(why.as_str());
                    m.append(". Stderr: ");
                    m.append(tail.as_str());
                    (Stage::Failed, failure(m, false, true))
                } else {
                    (Stage::Waiting, LaunchAction::Wait)
                }
            },
            LaunchEvent::NegotiationFailed(why) => {
                let m = text::cat4(
                    "Failed to negotiate the QMP session with ",
                    binary,
                    ": ",
                    why.as_str(),
                );
                (Stage::Failed, failure(m, true, true))
            },
        };
        self.stage = stage;
        action
    }
}

// ---------------------------------------------------------------------------
// Ending a process
// ---------------------------------------------------------------------------

/// What is done to end a process.
#[derive(Debug, Clone, Copy, PartialEq, Eq, Structural)]
pub enum Ending {
    /// Nothing: it has ended.
    Done,
    /// Ask it to end, and give it `TERMINATE_GRACE`.
    Ask,
    /// Kill it.
    Kill,
}

/// What is done first to end a process: it is asked to, unless it has ended already.
pub fn ending(exited: bool) -> (r: Ending)
    ensures
        r == (if exited {
            Ending::Done
        } else {
            Ending::Ask
        }),
{
    if exited {
        Ending::Done
    } else {
        Ending::Ask
    }
}

/// What is done to a process that was asked to end: it is killed, unless it ended in time.
pub fn ending_after_grace(exited: bool) -> (r: Ending)
    ensures
        r == (if exited {
            Ending::Done
        } else {
            Ending::Kill
        }),
{
    if exited {
        Ending::Done
    } else {
        Ending::Kill
    }
}

// ---------------------------------------------------------------------------
// Laws
// ---------------------------------------------------------------------------

/// A launch never starts a process where something lies at the socket path, and leaves what
/// lies there alone.
pub proof fn occupied_sockets_are_left_alone(
    binary: Seq<char>,
    socket: Seq<char>,
    stderr: Seq<char>,
    action: LaunchAction,
)
    requires
        leads_to(binary, socket, LaunchEvent::SocketOccupied, stderr, action),
    ensures
        action matches LaunchAction::Fail { reap, .. } && !reap,
{
}

/// A launch that fails after the process was started ends it and removes its socket; one that
/// fails before touches neither.
pub proof fn failed_launches_leave_nothing_behind(
    stage: Stage,
    binary: Seq<char>,
    socket: Seq<char>,
    event: LaunchEvent,
    stderr: Seq<char>,
    action: LaunchAction,
)
    requires
        can_happen(stage, event),
        next_stage(event) == Stage::Failed,
        leads_to(binary, socket, event, stderr, action),
    ensures
        action matches LaunchAction::Fail { reap, .. } && reap == (stage == Stage::Dialing || stage
            == Stage::Negotiating),
{
}

/// The retained error output never exceeds its cap, and always ends as the whole output does.
pub proof fn tails_end_alike(t: Seq<char>, s: Seq<char>, cap: nat)
    requires
        is_tail(t, s, cap),
    ensures
        text_bytes(t) <= cap,
        t.len() <= s.len(),
        t == s.skip(s.len() - t.len()),
        text_bytes(s) <= cap ==> t == s,
{
    let k = choose|k: int|
        0 <= k <= s.len() && t == #[trigger] s.skip(k) && text_bytes(t) <= cap && (k == 0
            || text_bytes(s.skip(k - 1)) > cap);
    if k > 0 {
        lemma_skip_bytes(s, k - 1);
    }
    assert(s.skip(0) =~= s);
}

proof fn lemma_skip_bytes(s: Seq<char>, k: int)
    requires
        0 <= k <= s.len(),
    ensures
        text_bytes(s.skip(k)) <= text_bytes(s),
    decreases k,
{
    if k == 0 {
        assert(s.skip(0) =~= s);
    } else {
        lemma_skip_bytes(s, k - 1);
        assert(s.skip(k - 1).skip(1) =~= s.skip(k));
    }
}

/// A text takes as many bytes as its UTF-8 encoding has.
pub proof fn bytes_are_those_of_the_encoding(s: Seq<char>)
    ensures
        text_bytes(s) == vstd::utf8::encode_utf8(s).len(),
    decreases s.len(),
{
    if s.len() > 0 {
        assert(s.drop_first() =~= s.skip(1));
        bytes_are_those_of_the_encoding(s.skip(1));
        lemma_scalar_bytes(s[0]);
    }
}

proof fn lemma_scalar_bytes(c: char)
    ensures
        vstd::utf8::encode_scalar(c as u32).len() == char_bytes(c),
{
}

/// The retained error output is as long as the cap lets it be: with one more character of the
/// whole output it would exceed it.
pub proof fn tails_are_as_long_as_they_can_be(t: Seq<char>, s: Seq<char>, cap: nat)
    requires
        is_tail(t, s, cap),
        t.len() < s.len(),
    ensures
        vstd::utf8::encode_utf8(s.skip(s.len() - t.len() - 1)).len() > cap,
        vstd::utf8::encode_utf8(t).len() <= cap,
{
    let k = choose|k: int|
        0 <= k <= s.len() && t == #[trigger] s.skip(k) && text_bytes(t) <= cap && (k == 0
            || text_bytes(s.skip(k - 1)) > cap);
    assert(k == s.len() - t.len());
    bytes_are_those_of_the_encoding(t);
    bytes_are_those_of_the_encoding(s.skip(k - 1));
}

/// A launch creates the directory, looks at the socket path, starts the process, dials until the
/// socket accepts, and negotiates. What goes well leads to the next of these, a socket that does
/// not accept is dialled again until the time is up, and whatever else goes wrong ends the launch.
pub proof fn launches_take_their_steps_in_order(
    stage: Stage,
    event: LaunchEvent,
    binary: Seq<char>,
    socket: Seq<char>,
    stderr: Seq<char>,
    action: LaunchAction,
)
    requires
        can_happen(stage, event),
        leads_to(binary, socket, event, stderr, action),
    ensures
        action is Inspect <==> event is DirectoryReady,
        action is Spawn <==> event is SocketFree,
        action is Dial <==> event is Spawned || event is Waited,
        action is Negotiate <==> event is Connected,
        action is Finish <==> event is Negotiated,
        action is Wait <==> (event matches LaunchEvent::Refused { late, .. } && !late),
        action is Fail <==> next_stage(event) == Stage::Failed,
        next_stage(event) == Stage::Failed <==> event is DirectoryFailed || event is SocketOccupied
            || event is SpawnFailed || event is Exited || event is NegotiationFailed || (
        event matches LaunchEvent::Refused { late, .. } && late),
        stage == Stage::Preparing ==> next_stage(event) == Stage::Inspecting || next_stage(event)
            == Stage::Failed,
        stage == Stage::Inspecting ==> next_stage(event) == Stage::Spawning || next_stage(event)
            == Stage::Failed,
        stage == Stage::Spawning ==> next_stage(event) == Stage::Dialing || next_stage(event)
            == Stage::Failed,
        stage == Stage::Dialing ==> next_stage(event) == Stage::Negotiating || next_stage(event)
            == Stage::Waiting || next_stage(event) == Stage::Failed,
        stage == Stage::Waiting ==> next_stage(event) == Stage::Dialing,
        stage == Stage::Negotiating ==> next_stage(event) == Stage::Launched || next_stage(event)
            == Stage::Failed,
        stage != Stage::Launched,
        stage != Stage::Failed,
{
}

/// Which events can happen: each at one stage only.
pub proof fn events_belong_to_a_stage(stage: Stage, event: LaunchEvent)
    ensures
        event is DirectoryReady || event is DirectoryFailed ==> (can_happen(stage, event) <==> stage
            == Stage::Preparing),
        event is SocketFree || event is SocketOccupied ==> (can_happen(stage, event) <==> stage
            == Stage::Inspecting),
        event is Spawned || event is SpawnFailed ==> (can_happen(stage, event) <==> stage
            == Stage::Spawning),
        event is Exited || event is Connected || event is Refused ==> (can_happen(stage, event)
            <==> stage == Stage::Dialing),
        event is Waited ==> (can_happen(stage, event) <==> stage == Stage::Waiting),
        event is Negotiated || event is NegotiationFailed ==> (can_happen(stage, event) <==> stage
            == Stage::Negotiating),
{
}

/// A launch that fails says what failed: it names the directory, the socket or the binary that it
/// is about, the cause, and what the process had printed where it had been started and its socket
/// did not come up.
pub proof fn failures_say_what_failed(
    binary: Seq<char>,
    socket: Seq<char>,
    event: LaunchEvent,
    stderr: Seq<char>,
    action: LaunchAction,
)
    requires
        leads_to(binary, socket, event, stderr, action),
    ensures
        action matches LaunchAction::Fail { error, close_session, reap } ==> {
            let m = error.0@;
            &&& event matches LaunchEvent::DirectoryFailed { dir, why } ==> text::has_infix(m, dir@)
                && why@.is_suffix_of(m) && !close_session && !reap
            &&& event is SocketOccupied ==> text::has_infix(m, socket) && !close_session && !reap
            &&& event matches LaunchEvent::SpawnFailed(why) ==> text::has_infix(m, binary)
                && why@.is_suffix_of(m) && !close_session && !reap
            &&& event matches LaunchEvent::Exited(exit) ==> text::has_infix(m, exit_report(exit))
                && stderr_report(stderr).is_suffix_of(m) && !close_session && reap
            &&& event matches LaunchEvent::Refused { why, .. } ==> text::has_infix(m, socket)
                && text::has_infix(m, why@) && stderr_report(stderr).is_suffix_of(m)
                && text::has_infix(m, text::decimal(10_000)) && !close_session && reap
            &&& event matches LaunchEvent::NegotiationFailed(why) ==> text::has_infix(m, binary)
                && why@.is_suffix_of(m) && close_session && reap
        },
{
    if let LaunchAction::Fail { error, close_session, reap } = action {
        let m = error.0@;
        match event {
            LaunchEvent::DirectoryFailed { dir, why } => {
                let a = "Failed to create the QMP socket directory "@;
                lemma_found(a, dir@, ": "@ + why@, m);
                lemma_found(a + dir@ + ": "@, why@, Seq::empty(), m);
            },
            LaunchEvent::SocketOccupied => {
                lemma_found(
                    "The QMP socket path "@,
                    socket,
                    " is already occupied — refusing to start rather than clobber or adopt a process this server did not launch. Remove the stale socket (or stop the other process), then retry."@,
                    m,
                );
            },
            LaunchEvent::SpawnFailed(why) => {
                let a = "Failed to spawn "@;
                lemma_found(a, binary, ": "@ + why@, m);
                lemma_found(a + binary + ": "@, why@, Seq::empty(), m);
            },
            LaunchEvent::Exited(exit) => {
                let a = "QEMU exited before the QMP socket was ready ("@;
                let s = "). Stderr: "@;
                lemma_found(a, exit_report(exit), s + stderr_report(stderr), m);
                lemma_found(a + exit_report(exit) + s, stderr_report(stderr), Seq::empty(), m);
            },
            LaunchEvent::Refused { why, late } => {
                let a = "Timed out after "@;
                let n = text::decimal(10_000);
                let b = "ms connecting to the QMP socket at "@;
                let s = ". Stderr: "@;
                let t = stderr_report(stderr);
                lemma_found(a, n, b + socket + ": "@ + why@ + s + t, m);
                lemma_found(a + n + b, socket, ": "@ + why@ + s + t, m);
                lemma_found(a + n + b + socket + ": "@, why@, s + t, m);
                lemma_found(a + n + b + socket + ": "@ + why@ + s, t, Seq::empty(), m);
            },
            LaunchEvent::NegotiationFailed(why) => {
                let a = "Failed to negotiate the QMP session with "@;
                lemma_found(a, binary, ": "@ + why@, m);
                lemma_found(a + binary + ": "@, why@, Seq::empty(), m);
            },
            _ => {},
        }
    }
}

proof fn lemma_found(before: Seq<char>, part: Seq<char>, behind: Seq<char>, m: Seq<char>)
    requires
        m =~= before + part + behind,
    ensures
        text::has_infix(m, part),
        behind.len() == 0 ==> part.is_suffix_of(m),
{
    text::parts_are_found(before, part, behind, m);
    if behind.len() == 0 {
        assert(m.subrange(m.len() - part.len(), m.len() as int) =~= part);
    }
}

/// A report on how a process ended has its code and its signal, each plainly or as missing. One on
/// its error output is the output without the white space around it, or says that there is none.
pub proof fn endings_are_reported_plainly(exit: Exit, n: i32, s: Seq<char>)
    ensures
        exit_report(exit) == "code="@ + number_report(exit.code) + ", signal="@ + number_report(
            exit.signal,
        ),
        number_report(None) == "None"@,
        number_report(Some(n)) == "Some("@ + text::decimal_int(n as int) + ")"@,
        text::is_blank(s) ==> stderr_report(s) == "(empty)"@,
        !text::is_blank(s) ==> stderr_report(s) == text::trimmed(s),
{
    text::lemma_blank_empty(s);
}

} // verus!
