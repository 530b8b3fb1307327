//! The QMP (QEMU Machine Protocol) session: requests are numbered, replies are correlated
//! with them by number, and unsolicited events are told apart from both.
//!
//! A JSON value that the session only carries is held as its JSON text.

use std::collections::HashMap;

use vstd::prelude::*;

use crate::qemu::json;
use crate::text;

verus! {

/// How long the handshake waits for the greeting, in milliseconds.
pub const DEFAULT_NEGOTIATE_TIMEOUT: u64 = 5_000;

/// How long a command waits for its reply, in milliseconds.
pub const DEFAULT_COMMAND_TIMEOUT: u64 = 10_000;

/// The command that ends the handshake.
pub const CAPABILITIES: &'static str = "qmp_capabilities";

// ---------------------------------------------------------------------------
// Messages
// ---------------------------------------------------------------------------

/// An asynchronous QMP event.
#[derive(Debug, Clone, PartialEq, Eq)]
pub struct QmpEvent {
    /// The event name (e.g. `SHUTDOWN`).
    pub event: String,
    /// The event's payload as JSON text, if any.
    pub data: Option<String>,
    /// The `{seconds, microseconds}` stamp as JSON text, if any.
    pub timestamp: Option<String>,
}

/// What a QMP event says.
pub struct QmpEventText {
    /// The event name.
    pub event: Seq<char>,
    /// The payload's JSON text.
    pub data: Option<Seq<char>>,
    /// The stamp's JSON text.
    pub timestamp: Option<Seq<char>>,
}

impl View for QmpEvent {
    type V = QmpEventText;

    open spec fn view(&self) -> QmpEventText {
        QmpEventText {
            event: self.event@,
            data: text::string_of(self.data),
            timestamp: text::string_of(self.timestamp),
        }
    }
}

/// The greeting that QEMU sends on connection.
#[derive(Debug, PartialEq, Eq)]
pub struct QmpGreeting {
    /// The reported version, as JSON text.
    pub version: String,
    /// The advertised capabilities, as JSON text.
    pub capabilities: String,
}

/// What a greeting says.
pub struct GreetingText {
    /// The reported version.
    pub version: Seq<char>,
    /// The advertised capabilities.
    pub capabilities: Seq<char>,
}

impl View for QmpGreeting {
    type V = GreetingText;

    open spec fn view(&self) -> GreetingText {
        GreetingText { version: self.version@, capabilities: self.capabilities@ }
    }
}

impl Clone for QmpGreeting {
    fn clone(&self) -> (r: QmpGreeting)
        ensures
            r@ == self@,
    {
        QmpGreeting { version: self.version.clone(), capabilities: self.capabilities.clone() }
    }
}

/// What an optional greeting says.
pub open spec fn greeting_of(g: Option<QmpGreeting>) -> Option<GreetingText> {
    match g {
        Some(g) => Some(g@),
        None => None,
    }
}

/// Why a command failed.
#[derive(Debug, Clone, PartialEq, Eq)]
pub enum QmpError {
    /// QEMU answered the command with an error.
    Command {
        /// The command that failed.
        command: String,
        /// The QMP error class.
        class: String,
        /// The description of the error.
        desc: String,
    },
    /// The connection failed, closed or timed out.
    Connection(String),
}

/// What an error says.
pub enum QmpErrorText {
    /// QEMU answered with an error.
    Command {
        /// The command that failed.
        command: Seq<char>,
        /// The QMP error class.
        class: Seq<char>,
        /// The description.
        desc: Seq<char>,
    },
    /// The connection failed.
    Connection(Seq<char>),
}

impl View for QmpError {
    type V = QmpErrorText;

    open spec fn view(&self) -> QmpErrorText {
        match self {
            QmpError::Command { command, class, desc } => QmpErrorText::Command {
                command: command@,
                class: class@,
                desc: desc@,
            },
            QmpError::Connection(why) => QmpErrorText::Connection(why@),
        }
    }
}

impl QmpError {
    /// The message for people.
    pub fn message(&self) -> (r: String)
        ensures
            r@ == (match self@ {
                QmpErrorText::Command { command, class, desc } => "QMP command \""@ + command
                    + "\" failed ["@ + class + "]: "@ + desc,
                QmpErrorText::Connection(why) => why,
            }),
    {
        match self {
            QmpError::Command { command, class, desc } => {
                let mut m = text::cat5(
                    "QMP command \"",
                    command.as_str(),
                    "\" failed [",
                    class.as_str(),
                    "]: ",
                );
                m.append(desc.as_str());
                m
            },
            QmpError::Connection(why) => why.clone(),
        }
    }
}

// ---------------------------------------------------------------------------
// What a line means
// ---------------------------------------------------------------------------

/// What a line from QEMU means.
pub enum Meaning {
    /// Nothing: it is malformed, or of no known form.
    Nothing,
    /// The greeting.
    Greeting(GreetingText),
    /// An event.
    Event(QmpEventText),
    /// The success of a numbered request.
    Return {
        /// The number of the request.
        id: u64,
        /// The JSON text of what it returned.
        value: Seq<char>,
    },
    /// The failure of a numbered request.
    Failure {
        /// The number of the request.
        id: u64,
        /// The QMP error class.
        class: Seq<char>,
        /// The description.
        desc: Seq<char>,
    },
}

/// A value, or what stands for its absence.
pub open spec fn or_else(value: Option<Seq<char>>, absent: Seq<char>) -> Seq<char> {
    match value {
        Some(v) => v,
        None => absent,
    }
}

/// An optional member: absent, or present and not `null`.
pub open spec fn present(value: Option<Seq<char>>) -> Option<Seq<char>> {
    match value {
        Some(v) => if v == "null"@ {
            None
        } else {
            Some(v)
        },
        None => None,
    }
}

/// What the members of an object from QEMU mean. A greeting is told by its `QMP` member, an
/// event by its `event` member; anything else is a reply, if it carries the number of a
/// request.
pub open spec fn members_meaning(m: Seq<(Seq<char>, Seq<char>)>) -> Meaning {
    if json::member(m, "QMP"@) is Some {
        let qmp = json::member(m, "QMP"@)->0;
        Meaning::Greeting(
            GreetingText {
                version: or_else(json::member_in(qmp, "version"@), "null"@),
                capabilities: or_else(json::member_in(qmp, "capabilities"@), "[]"@),
            },
        )
    } else if json::member(m, "event"@) is Some {
        match json::json_string(json::member(m, "event"@)->0) {
            Some(event) => Meaning::Event(
                QmpEventText {
                    event,
                    data: present(json::member(m, "data"@)),
                    timestamp: present(json::member(m, "timestamp"@)),
                },
            ),
            None => Meaning::Nothing,
        }
    } else if json::member(m, "id"@) is Some {
        match json::json_u64(json::member(m, "id"@)->0) {
            Some(id) => match json::member(m, "error"@) {
                Some(error) => Meaning::Failure {
                    id,
                    class: or_else(json::string_in(error, "class"@), "GenericError"@),
                    desc: or_else(json::string_in(error, "desc"@), ""@),
                },
                None => Meaning::Return { id, value: or_else(json::member(m, "return"@), "null"@) },
            },
            None => Meaning::Nothing,
        }
    } else {
        Meaning::Nothing
    }
}

/// What a line from QEMU means.
pub open spec fn meaning(line: Seq<char>) -> Meaning {
    match json::json_members(line) {
        Some(m) => members_meaning(m),
        None => Meaning::Nothing,
    }
}

/// A message from QEMU.
#[derive(Debug, PartialEq, Eq)]
pub enum Message {
    /// Nothing that the session acts on.
    Nothing,
    /// The greeting.
    Greeting(QmpGreeting),
    /// An event.
    Event(QmpEvent),
    /// The success of a numbered request.
    Return {
        /// The number of the request.
        id: u64,
        /// What it returned, as JSON text.
        value: String,
    },
    /// The failure of a numbered request.
    Failure {
        /// The number of the request.
        id: u64,
        /// The QMP error class.
        class: String,
        /// The description.
        desc: String,
    },
}

impl View for Message {
    type V = Meaning;

    open spec fn view(&self) -> Meaning {
        match self {
            Message::Nothing => Meaning::Nothing,
            Message::Greeting(g) => Meaning::Greeting(g@),
            Message::Event(e) => Meaning::Event(e@),
            Message::Return { id, value } => Meaning::Return { id: *id, value: value@ },
            Message::Failure { id, class, desc } => Meaning::Failure {
                id: *id,
                class: class@,
                desc: desc@,
            },
        }
    }
}

fn text_or(value: Option<String>, absent: &str) -> (r: String)
    ensures
        r@ == or_else(text::string_of(value), absent@),
{
    match value {
        Some(v) => v,
        None => absent.to_string(),
    }
}

fn present_text(value: Option<&str>) -> (r: Option<String>)
    ensures
        text::string_of(r) == present(text::text_of(value)),
{
    match value {
        Some(v) => {
            if text::str_eq(v, "null") {
                None
            } else {
                Some(v.to_string())
            }
        },
        None => None,
    }
}

/// What the members of an object from QEMU mean.
pub fn read_members(members: &Vec<(String, String)>) -> (r: Message)
    ensures
        r@ == members_meaning(json::pairs_text(members@)),
{
    if let Some(qmp) = json::get(members, "QMP") {
        return Message::Greeting(
            QmpGreeting {
                version: text_or(json::get_in(qmp, "version"), "null"),
                capabilities: text_or(json::get_in(qmp, "capabilities"), "[]"),
            },
        );
    }
    if let Some(name) = json::get(members, "event") {
        return match json::string_value(name) {
            Some(event) => Message::Event(
                QmpEvent {
                    event,
                    data: present_text(json::get(members, "data")),
                    timestamp: present_text(json::get(members, "timestamp")),
                },
            ),
            None => Message::Nothing,
        };
    }
    let id = match json::get(members, "id") {
        Some(number) => match json::u64_value(number) {
            Some(id) => id,
            None => return Message::Nothing,
        },
        None => return Message::Nothing,
    };
    match json::get(members, "error") {
        Some(error) => Message::Failure {
            id,
            class: text_or(json::get_string(error, "class"), "GenericError"),
            desc: text_or(json::get_string(error, "desc"), ""),
        },
        None => match json::get(members, "return") {
            Some(value) => Message::Return { id, value: value.to_string() },
            None => Message::Return { id, value: "null".to_string() },
        },
    }
}

/// What a line from QEMU means. A line that is not a JSON object means nothing.
pub fn read_line(line: &str) -> (r: Message)
    ensures
        r@ == meaning(line@),
{
    match json::object_members(line) {
        Some(members) => read_members(&members),
        None => Message::Nothing,
    }
}

// ---------------------------------------------------------------------------
// The session
// ---------------------------------------------------------------------------

/// The line of a numbered request.
pub open spec fn request_line(id: nat, command: Seq<char>, args: Option<Seq<char>>) -> Seq<char> {
    match args {
        Some(a) => "{\"arguments\":"@ + a + ",\"execute\":"@ + json::json_quoted(command)
            + ",\"id\":"@ + text::decimal(id) + "}\n"@,
        None => "{\"execute\":"@ + json::json_quoted(command) + ",\"id\":"@ + text::decimal(id)
            + "}\n"@,
    }
}

/// A text without a line break.
pub open spec fn unbroken(s: Seq<char>) -> bool {
    forall|i: int| 0 <= i < s.len() ==> #[trigger] s[i] != '\n'
}

/// A text that is one line: it ends in a line break, and has no other.
pub open spec fn is_one_line(s: Seq<char>) -> bool {
    s.len() > 0 && s.last() == '\n' && unbroken(s.drop_last())
}

proof fn lemma_unbroken_cat(a: Seq<char>, b: Seq<char>)
    requires
        unbroken(a),
        unbroken(b),
    ensures
        unbroken(a + b),
{
    let s = a + b;
    assert forall|i: int| 0 <= i < s.len() implies #[trigger] s[i] != '\n' by {
        if i < a.len() {
            assert(s[i] == a[i]);
        } else {
            assert(s[i] == b[i - a.len()]);
        }
    }
}

proof fn lemma_request_line(id: nat, command: Seq<char>, args: Option<Seq<char>>)
    requires
        unbroken(json::json_quoted(command)),
        args matches Some(a) ==> unbroken(a),
    ensures
        is_one_line(request_line(id, command, args)),
{
    reveal_strlit("{\"arguments\":");
    reveal_strlit(",\"execute\":");
    reveal_strlit("{\"execute\":");
    reveal_strlit(",\"id\":");
    reveal_strlit("}\n");
    reveal_strlit("}");
    text::decimal_reads_back(id);
    let digits = text::decimal(id);
    assert(unbroken(digits)) by {
        assert forall|i: int| 0 <= i < digits.len() implies #[trigger] digits[i] != '\n' by {
            assert(text::is_digit(digits[i]));
        }
    }
    let quoted = json::json_quoted(command);
    let line = request_line(id, command, args);
    let head = match args {
        Some(a) => "{\"arguments\":"@ + a + ",\"execute\":"@,
        None => "{\"execute\":"@,
    };
    if let Some(a) = args {
        lemma_unbroken_cat("{\"arguments\":"@, a);
        lemma_unbroken_cat("{\"arguments\":"@ + a, ",\"execute\":"@);
    }
    lemma_unbroken_cat(head, quoted);
    lemma_unbroken_cat(head + quoted, ",\"id\":"@);
    lemma_unbroken_cat(head + quoted + ",\"id\":"@, digits);
    let body = head + quoted + ",\"id\":"@ + digits;
    lemma_unbroken_cat(body, "}"@);
    assert(line.drop_last() =~= body + "}"@);
}

fn write_request(id: u64, command: &str, args: Option<&str>) -> (r: String)
    ensures
        r@ == request_line(id as nat, command@, text::text_of(args)),
        (args matches Some(a) ==> unbroken(a@)) ==> is_one_line(r@),
{
    let name = json::quote(command);
    let number = text::decimal_u64(id);
    proof {
        assert(unbroken(name@)) by {
            assert forall|i: int| 0 <= i < name@.len() implies #[trigger] name@[i] != '\n' by {
                if name@[i] == '\n' {
                    assert(name@.contains('\n'));
                }
            }
        }
        if args matches Some(a) ==> unbroken(a@) {
            lemma_request_line(id as nat, command@, text::text_of(args));
        }
    }
    match args {
        Some(a) => {
            let mut line = text::cat5(
                "{\"arguments\":",
                a,
                ",\"execute\":",
                name.as_str(),
                ",\"id\":",
            );
            line.append(number.as_str());
            line.append("}\n");
            line
        },
        None => text::cat5("{\"execute\":", name.as_str(), ",\"id\":", number.as_str(), "}\n"),
    }
}

/// The state of a session.
pub struct SessionModel {
    /// The number of the next request.
    pub next_id: nat,
    /// The outstanding requests: their numbers and commands.
    pub pending: Map<u64, Seq<char>>,
    /// Why the connection closed, once it has.
    pub closed: Option<Seq<char>>,
    /// Whether the handshake has taken up the greeting.
    pub awaited: bool,
    /// The greeting that arrived first, if any.
    pub arrived: Option<GreetingText>,
    /// The greeting that the handshake accepted.
    pub greeting: Option<GreetingText>,
}

impl SessionModel {
    /// Every outstanding request was numbered before the next one.
    pub open spec fn valid(self) -> bool {
        forall|id: u64| #[trigger] self.pending.dom().contains(id) ==> id < self.next_id
    }

    /// The state after a request is registered.
    pub open spec fn requested(self, command: Seq<char>) -> SessionModel {
        SessionModel {
            next_id: self.next_id + 1,
            pending: self.pending.insert(self.next_id as u64, command),
            ..self
        }
    }

    /// The state after a request is settled or given up.
    pub open spec fn settled(self, id: u64) -> SessionModel {
        SessionModel { pending: self.pending.remove(id), ..self }
    }

    /// The state after the connection closes. Only the first reason counts.
    pub open spec fn failed(self, reason: Seq<char>) -> SessionModel {
        match self.closed {
            Some(_) => self,
            None => SessionModel { closed: Some(reason), pending: Map::empty(), ..self },
        }
    }

    /// The state after a message from QEMU.
    pub open spec fn received(self, message: Meaning) -> SessionModel {
        match message {
            Meaning::Greeting(g) => match self.arrived {
                Some(_) => self,
                None => SessionModel { arrived: Some(g), ..self },
            },
            Meaning::Return { id, .. } => self.settled(id),
            Meaning::Failure { id, .. } => self.settled(id),
            _ => self,
        }
    }
}

/// A request to be written to QEMU.
#[derive(Debug, PartialEq, Eq)]
pub struct Request {
    /// Its number.
    pub id: u64,
    /// The line to write.
    pub line: String,
}

/// What a line from QEMU brings about.
#[derive(Debug, PartialEq, Eq)]
pub enum Dispatched {
    /// Nothing.
    Ignored,
    /// The greeting arrived.
    Greeted,
    /// An event is to be surfaced.
    Event(QmpEvent),
    /// A request is answered.
    Reply {
        /// The number of the request.
        id: u64,
        /// What the request resolves with.
        result: Result<String, QmpError>,
    },
}

/// What came of a request.
#[derive(Debug, PartialEq, Eq)]
pub enum Outcome {
    /// It was answered.
    Answered(Result<String, QmpError>),
    /// The connection closed before its reply.
    Dropped,
    /// Its line could not be written.
    WriteFailed(String),
    /// It was not answered within this many milliseconds.
    TimedOut(u64),
}

/// What came of waiting for the greeting.
#[derive(Debug, Clone, Copy, PartialEq, Eq, Structural)]
pub enum GreetingWait {
    /// It arrived.
    Arrived,
    /// The connection closed first.
    Dropped,
    /// It did not arrive within this many milliseconds.
    TimedOut(u64),
}

/// A QMP session.
pub struct QmpClient {
    next_id: u64,
    pending: HashMap<u64, String>,
    closed: Option<String>,
    awaited: bool,
    arrived: Option<QmpGreeting>,
    greeting: Option<QmpGreeting>,
}

impl View for QmpClient {
    type V = SessionModel;

    closed spec fn view(&self) -> SessionModel {
        SessionModel {
            next_id: self.next_id as nat,
            pending: self.pending@.map_values(|c: String| c@),
            closed: text::string_of(self.closed),
            awaited: self.awaited,
            arrived: greeting_of(self.arrived),
            greeting: greeting_of(self.greeting),
        }
    }
}

/// What a line brings about in a session: replies count only for outstanding requests, and
/// only the first greeting counts.
pub open spec fn dispatches(s: SessionModel, message: Meaning, r: Dispatched) -> bool {
    match message {
        Meaning::Nothing => r is Ignored,
        Meaning::Greeting(_) => if s.arrived is None {
            r is Greeted
        } else {
            r is Ignored
        },
        Meaning::Event(e) => r matches Dispatched::Event(x) && x@ == e,
        Meaning::Return { id, value } => if s.pending.dom().contains(id) {
            r matches Dispatched::Reply { id: n, result: Ok(v) } && n == id && v@ == value
        } else {
            r is Ignored
        },
        Meaning::Failure { id, class, desc } => if s.pending.dom().contains(id) {
            r matches Dispatched::Reply { id: n, result: Err(e) } && n == id && e@
                == (QmpErrorText::Command { command: s.pending[id], class, desc })
        } else {
            r is Ignored
        },
    }
}

impl QmpClient {
    /// A session over a fresh connection.
    pub fn new() -> (r: QmpClient)
        ensures
            r@.valid(),
            r@ == (SessionModel {
                next_id: 1,
                pending: Map::empty(),
                closed: None,
                awaited: false,
                arrived: None,
                greeting: None,
            }),
    {
        broadcast use vstd::std_specs::hash::group_hash_axioms;

        let r = QmpClient {
            next_id: 1,
            pending: HashMap::new(),
            closed: None,
            awaited: false,
            arrived: None,
            greeting: None,
        };
        assert(r@.pending =~= Map::empty());
        r
    }

    /// The number of the next request.
    pub fn next_id(&self) -> (r: u64)
        ensures
            r == self@.next_id,
    {
        self.next_id
    }

    /// The greeting that the handshake accepted.
    pub fn greeting(&self) -> (r: Option<QmpGreeting>)
        ensures
            greeting_of(r) == self@.greeting,
    {
        match &self.greeting {
            Some(g) => Some(g.clone()),
            None => None,
        }
    }

    /// Register a command. A session that is closed refuses it with the reason it closed
    /// for; otherwise the request is numbered, and awaits its reply. Its line is one line, so
    /// requests written one after another stay apart.
    pub fn execute(&mut self, command: &str, args: Option<&str>) -> (r: Result<Request, QmpError>)
        requires
            old(self)@.valid(),
            old(self)@.next_id < u64::MAX,
        ensures
            final(self)@.valid(),
            match old(self)@.closed {
                Some(why) => r matches Err(e) && e@ == QmpErrorText::Connection(why) && final(
                    self)@ == old(self)@,
                None => r matches Ok(q) && q.id == old(self)@.next_id && q.line@ == request_line(
                    old(self)@.next_id,
                    command@,
                    text::text_of(args),
                ) && final(self)@ == old(self)@.requested(command@) && ((args matches Some(a)
                    ==> unbroken(a@)) ==> is_one_line(q.line@)),
            },
    {
        broadcast use vstd::std_specs::hash::group_hash_axioms;

        if let Some(why) = &self.closed {
            return Err(QmpError::Connection(why.clone()));
        }
        let ghost start = self@;
        let id = self.next_id;
        let line = write_request(id, command, args);
        let name = command.to_string();
        self.pending.insert(id, name);
        self.next_id = id + 1;
        assert(self@.pending =~= start.pending.insert(id, command@));
        Ok(Request { id, line })
    }

    /// Give up a request whose line could not be written, for the reason `why`.
    fn write_failed(&mut self, id: u64, command: &str, why: &str) -> (r: QmpError)
        ensures
            old(self)@.valid() ==> final(self)@.valid(),
            final(self)@ == old(self)@.settled(id),
            r@ == QmpErrorText::Connection(
                "Failed to write QMP command \""@ + command@ + "\" to the socket: "@ + why@,
            ),
    {
        self.forget(id);
        QmpError::Connection(
            text::cat4("Failed to write QMP command \"", command, "\" to the socket: ", why),
        )
    }

    /// Give up a request that was not answered within `timeout_ms`.
    fn timed_out(&mut self, id: u64, command: &str, timeout_ms: u64) -> (r: QmpError)
        ensures
            old(self)@.valid() ==> final(self)@.valid(),
            final(self)@ == old(self)@.settled(id),
            r@ == QmpErrorText::Connection(
                "QMP command \""@ + command@ + "\" timed out after "@ + text::decimal(
                    timeout_ms as nat,
                ) + "ms with no response from QEMU."@,
            ),
    {
        self.forget(id);
        let ms = text::decimal_u64(timeout_ms);
        QmpError::Connection(
            text::cat5(
                "QMP command \"",
                command,
                "\" timed out after ",
                ms.as_str(),
                "ms with no response from QEMU.",
            ),
        )
    }

    fn forget(&mut self, id: u64)
        ensures
            old(self)@.valid() ==> final(self)@.valid(),
            final(self)@ == old(self)@.settled(id),
    {
        broadcast use vstd::std_specs::hash::group_hash_axioms;

        let ghost start = self@;
        self.pending.remove(&id);
        assert(self@.pending =~= start.pending.remove(id));
    }

    /// What a request resolves with when the connection closes before its reply.
    fn dropped(&self) -> (r: QmpError)
        ensures
            r@ == QmpErrorText::Connection(or_else(self@.closed, "QMP connection is closed."@)),
    {
        match &self.closed {
            Some(why) => QmpError::Connection(why.clone()),
            None => QmpError::Connection("QMP connection is closed.".to_string()),
        }
    }

    /// End a request: what it resolves with, for each thing that can come of it. A request
    /// that was given up is no longer outstanding.
    pub fn executed(&mut self, id: u64, command: &str, outcome: Outcome) -> (r: Result<
        String,
        QmpError,
    >)
        ensures
            old(self)@.valid() ==> final(self)@.valid(),
            match outcome {
                Outcome::Answered(x) => r == x && final(self)@ == old(self)@,
                Outcome::Dropped => r matches Err(e) && e@ == QmpErrorText::Connection(
                    or_else(old(self)@.closed, "QMP connection is closed."@),
                ) && final(self)@ == old(self)@,
                Outcome::WriteFailed(why) => r matches Err(e) && e@ == QmpErrorText::Connection(
                    "Failed to write QMP command \""@ + command@ + "\" to the socket: "@ + why@,
                ) && final(self)@ == old(self)@.settled(id),
                Outcome::TimedOut(ms) => r matches Err(e) && e@ == QmpErrorText::Connection(
                    "QMP command \""@ + command@ + "\" timed out after "@ + text::decimal(
                        ms as nat,
                    ) + "ms with no response from QEMU."@,
                ) && final(self)@ == old(self)@.settled(id),
            },
    {
        match outcome {
            Outcome::Answered(x) => x,
            Outcome::Dropped => Err(self.dropped()),
            Outcome::WriteFailed(why) => Err(self.write_failed(id, command, why.as_str())),
            Outcome::TimedOut(ms) => Err(self.timed_out(id, command, ms)),
        }
    }

    /// Act on a line from QEMU.
    pub fn dispatch(&mut self, line: &str) -> (r: Dispatched)
        ensures
            old(self)@.valid() ==> final(self)@.valid(),
            final(self)@ == old(self)@.received(meaning(line@)),
            dispatches(old(self)@, meaning(line@), r),
    {
        let message = read_line(line);
        self.receive(message)
    }

    /// Act on a message from QEMU.
    pub fn receive(&mut self, message: Message) -> (r: Dispatched)
        ensures
            old(self)@.valid() ==> final(self)@.valid(),
            final(self)@ == old(self)@.received(message@),
            dispatches(old(self)@, message@, r),
    {
        broadcast use vstd::std_specs::hash::group_hash_axioms;

        let ghost start = self@;
        match message {
            Message::Nothing => Dispatched::Ignored,
            Message::Greeting(g) => {
                if self.arrived.is_none() {
                    self.arrived = Some(g);
                    Dispatched::Greeted
                } else {
                    Dispatched::Ignored
                }
            },
            Message::Event(e) => Dispatched::Event(e),
            Message::Return { id, value } => {
                let known = self.pending.remove(&id);
                assert(self@.pending =~= start.pending.remove(id));
                match known {
                    Some(_) => Dispatched::Reply { id, result: Ok(value) },
                    None => Dispatched::Ignored,
                }
            },
            Message::Failure { id, class, desc } => {
                let known = self.pending.remove(&id);
                assert(self@.pending =~= start.pending.remove(id));
                match known {
                    Some(command) => Dispatched::Reply {
                        id,
                        result: Err(QmpError::Command { command, class, desc }),
                    },
                    None => Dispatched::Ignored,
                }
            },
        }
    }

    /// Close the session for a reason: every outstanding request is dropped. Only the first
    /// call counts.
    pub fn fail_all(&mut self, reason: &str)
        ensures
            old(self)@.valid() ==> final(self)@.valid(),
            final(self)@ == old(self)@.failed(reason@),
    {
        broadcast use vstd::std_specs::hash::group_hash_axioms;

        if self.closed.is_some() {
            return;
        }
        self.closed = Some(reason.to_string());
        self.pending.clear();
        assert(self@.pending =~= Map::empty());
    }

    /// Close the session.
    pub fn close(&mut self)
        ensures
            old(self)@.valid() ==> final(self)@.valid(),
            final(self)@ == old(self)@.failed("QMP connection closed."@),
    {
        self.fail_all("QMP connection closed.")
    }

    /// Begin the handshake by taking up the greeting; it can be taken up once.
    pub fn negotiate(&mut self) -> (r: Result<(), QmpError>)
        ensures
            old(self)@.valid() ==> final(self)@.valid(),
            final(self)@ == (SessionModel { awaited: true, ..old(self)@ }),
            match r {
                Ok(_) => !old(self)@.awaited,
                Err(e) => old(self)@.awaited && e@ == QmpErrorText::Connection(
                    "QMP greeting was already consumed."@,
                ),
            },
    {
        if self.awaited {
            return Err(QmpError::Connection("QMP greeting was already consumed.".to_string()));
        }
        self.awaited = true;
        Ok(())
    }

    /// End the wait for the greeting. Once it has arrived the handshake goes on with the
    /// request of `qmp_capabilities`; a connection that closed or stayed silent fails it.
    pub fn greeted(&mut self, wait: GreetingWait) -> (r: Result<Request, QmpError>)
        requires
            old(self)@.valid(),
            old(self)@.next_id < u64::MAX,
        ensures
            final(self)@.valid(),
            match wait {
                GreetingWait::Arrived => {
                    let greeted = SessionModel { greeting: old(self)@.arrived, ..old(self)@ };
                    match old(self)@.closed {
                        Some(why) => r matches Err(e) && e@ == QmpErrorText::Connection(why)
                            && final(self)@ == greeted,
                        None => r matches Ok(q) && q.id == old(self)@.next_id && q.line@
                            == request_line(
                            old(self)@.next_id,
                            CAPABILITIES@,
                            None,
                        ) && final(self)@ == greeted.requested(CAPABILITIES@),
                    }
                },
                GreetingWait::Dropped => r matches Err(e) && e@ == QmpErrorText::Connection(
                    "QMP connection closed before the greeting arrived."@,
                ) && final(self)@ == old(self)@,
                GreetingWait::TimedOut(ms) => r matches Err(e) && e@ == QmpErrorText::Connection(
                    "Timed out after "@ + text::decimal(ms as nat)
                        + "ms waiting for the QMP greeting."@,
                ) && final(self)@ == old(self)@,
            },
    {
        match wait {
            GreetingWait::Arrived => {
                self.greeting = match &self.arrived {
                    Some(g) => Some(g.clone()),
                    None => None,
                };
                self.execute(CAPABILITIES, None)
            },
            GreetingWait::Dropped => Err(
                QmpError::Connection(
                    "QMP connection closed before the greeting arrived.".to_string(),
                ),
            ),
            GreetingWait::TimedOut(ms) => {
                let number = text::decimal_u64(ms);
                Err(
                    QmpError::Connection(
                        text::cat3(
                            "Timed out after ",
                            number.as_str(),
                            "ms waiting for the QMP greeting.",
                        ),
                    ),
                )
            },
        }
    }
}

// ---------------------------------------------------------------------------
// Laws
// ---------------------------------------------------------------------------

/// Replies are correlated by number: a message settles at most the request that it names, and
/// every other outstanding request stays as it was.
pub proof fn replies_settle_only_their_request(s: SessionModel, message: Meaning, other: u64)
    requires
        s.pending.dom().contains(other),
        !(message matches Meaning::Return { id, .. } && id == other),
        !(message matches Meaning::Failure { id, .. } && id == other),
    ensures
        s.received(message).pending.dom().contains(other),
        s.received(message).pending[other] == s.pending[other],
{
}

/// A new request takes a number that no outstanding request has, so a reply can never be
/// taken for another's.
pub proof fn request_numbers_are_fresh(s: SessionModel, command: Seq<char>)
    requires
        s.valid(),
        s.next_id < u64::MAX,
    ensures
        !s.pending.dom().contains(s.next_id as u64),
        s.requested(command).valid(),
        s.requested(command).pending.dom().contains(s.next_id as u64),
{
}

/// A request is answered at most once: after its reply, a second one is ignored.
pub proof fn requests_are_answered_once(s: SessionModel, message: Meaning, r: Dispatched)
    requires
        message is Return || message is Failure,
        dispatches(s.received(message), message, r),
    ensures
        r is Ignored,
{
}

/// Once a session has closed it stays closed, for the reason it closed for first, and nothing
/// is outstanding.
pub proof fn closing_is_final(s: SessionModel, first: Seq<char>, second: Seq<char>)
    requires
        s.closed is None,
    ensures
        s.failed(first).closed == Some(first),
        s.failed(first).pending == Map::<u64, Seq<char>>::empty(),
        s.failed(first).failed(second) == s.failed(first),
{
}

/// A line that means nothing leaves a session as it was.
pub proof fn malformed_lines_change_nothing(s: SessionModel, line: Seq<char>)
    requires
        json::json_members(line) is None,
    ensures
        s.received(meaning(line)) == s,
{
}

/// What a message means is decided by which of its members come first in rank: a greeting, then an
/// event, then a reply by its number. An event without a name that is text and a reply without a
/// number that is one mean nothing, and so does any other message.
pub proof fn messages_are_told_apart_by_their_members(m: Seq<(Seq<char>, Seq<char>)>)
    ensures
        ({
            let qmp = json::member(m, "QMP"@);
            let event = json::member(m, "event"@);
            let id = json::member(m, "id"@);
            let error = json::member(m, "error"@);
            let number = json::json_u64(id->0);
            let r = members_meaning(m);
            &&& r is Greeting <==> qmp is Some
            &&& r is Event <==> qmp is None && event is Some && json::json_string(event->0) is Some
            &&& r is Failure <==> qmp is None && event is None && id is Some && number is Some
                && error is Some
            &&& r is Return <==> qmp is None && event is None && id is Some && number is Some
                && error is None
            &&& r matches Meaning::Greeting(g) ==> {
                &&& json::member_in(qmp->0, "version"@) matches Some(v) ==> g.version == v
                &&& json::member_in(qmp->0, "version"@) is None ==> g.version == "null"@
                &&& json::member_in(qmp->0, "capabilities"@) matches Some(v) ==> g.capabilities
                    == v
                &&& json::member_in(qmp->0, "capabilities"@) is None ==> g.capabilities == "[]"@
            }
            &&& r matches Meaning::Event(e) ==> {
                let data = json::member(m, "data"@);
                let stamp = json::member(m, "timestamp"@);
                &&& Some(e.event) == json::json_string(event->0)
                &&& data is None || data == Some("null"@) ==> e.data is None
                &&& data is Some && data != Some("null"@) ==> e.data == data
                &&& stamp is None || stamp == Some("null"@) ==> e.timestamp is None
                &&& stamp is Some && stamp != Some("null"@) ==> e.timestamp == stamp
            }
            &&& r matches Meaning::Failure { id: n, class, desc } ==> {
                &&& Some(n) == number
                &&& json::string_in(error->0, "class"@) matches Some(c) ==> class == c
                &&& json::string_in(error->0, "class"@) is None ==> class == "GenericError"@
                &&& json::string_in(error->0, "desc"@) matches Some(d) ==> desc == d
                &&& json::string_in(error->0, "desc"@) is None ==> desc == ""@
            }
            &&& r matches Meaning::Return { id: n, value } ==> {
                &&& Some(n) == number
                &&& json::member(m, "return"@) matches Some(v) ==> value == v
                &&& json::member(m, "return"@) is None ==> value == "null"@
            }
        }),
{
}

/// A line means what the object on it means, and nothing where there is none.
pub proof fn lines_mean_their_object(line: Seq<char>)
    ensures
        json::json_members(line) is None ==> meaning(line) == Meaning::Nothing,
        json::json_members(line) matches Some(m) ==> meaning(line) == members_meaning(m),
{
}

/// The line of a request is an object with its arguments, if it has any, then the command, then
/// the number.
pub proof fn request_lines_say_what_is_asked(
    id: nat,
    command: Seq<char>,
    args: Option<Seq<char>>,
)
    ensures
        args matches Some(a) ==> request_line(id, command, args) == "{\"arguments\":"@ + a
            + ",\"execute\":"@ + json::json_quoted(command) + ",\"id\":"@ + text::decimal(id)
            + "}\n"@,
        args is None ==> request_line(id, command, args) == "{\"execute\":"@ + json::json_quoted(
            command,
        ) + ",\"id\":"@ + text::decimal(id) + "}\n"@,
        text::has_infix(request_line(id, command, args), json::json_quoted(command)),
{
    let c = json::json_quoted(command);
    match args {
        Some(a) => {
            let before = "{\"arguments\":"@ + a + ",\"execute\":"@;
            let behind = ",\"id\":"@ + text::decimal(id) + "}\n"@;
            assert(request_line(id, command, args) =~= before + c + behind);
            text::parts_are_found(before, c, behind, request_line(id, command, args));
        },
        None => {
            let behind = ",\"id\":"@ + text::decimal(id) + "}\n"@;
            assert(request_line(id, command, args) =~= "{\"execute\":"@ + c + behind);
            text::parts_are_found("{\"execute\":"@, c, behind, request_line(id, command, args));
        },
    }
}

/// A request adds itself, under the next number, to what is outstanding, and changes nothing else
/// but that number. A request that is settled takes away itself alone.
pub proof fn requests_are_outstanding_until_settled(
    s: SessionModel,
    command: Seq<char>,
    id: u64,
    other: u64,
)
    requires
        s.valid(),
        s.next_id < u64::MAX,
    ensures
        ({
            let r = s.requested(command);
            &&& r.next_id == s.next_id + 1
            &&& r.pending.dom().contains(s.next_id as u64)
            &&& r.pending[s.next_id as u64] == command
            &&& other != s.next_id ==> (r.pending.dom().contains(other)
                <==> s.pending.dom().contains(other))
            &&& other != s.next_id && s.pending.dom().contains(other) ==> r.pending[other]
                == s.pending[other]
            &&& r.closed == s.closed && r.awaited == s.awaited && r.arrived == s.arrived
                && r.greeting == s.greeting
        }),
        ({
            let r = s.settled(id);
            &&& !r.pending.dom().contains(id)
            &&& other != id ==> (r.pending.dom().contains(other) <==> s.pending.dom().contains(
                other,
            ))
            &&& other != id && s.pending.dom().contains(other) ==> r.pending[other]
                == s.pending[other]
            &&& r.next_id == s.next_id && r.closed == s.closed && r.awaited == s.awaited
                && r.arrived == s.arrived && r.greeting == s.greeting
        }),
        s.requested(command).settled(s.next_id as u64).pending == s.pending,
{
    assert(s.requested(command).settled(s.next_id as u64).pending =~= s.pending);
}

/// Closing a session drops every request, records the reason, and keeps its greeting and its
/// numbers.
pub proof fn closing_drops_every_request(s: SessionModel, reason: Seq<char>, id: u64)
    ensures
        s.closed is None ==> s.failed(reason).closed == Some(reason) && !s.failed(
            reason,
        ).pending.dom().contains(id),
        s.closed is Some ==> s.failed(reason) == s,
        s.failed(reason).next_id == s.next_id,
        s.failed(reason).awaited == s.awaited,
        s.failed(reason).arrived == s.arrived,
        s.failed(reason).greeting == s.greeting,
{
}

/// The first greeting is kept and later ones are not; a reply settles the request that it names;
/// an event and a message without a meaning change nothing.
pub proof fn messages_change_what_they_are_about(s: SessionModel, message: Meaning)
    ensures
        message is Nothing || message is Event ==> s.received(message) == s,
        message matches Meaning::Greeting(g) ==> {
            let r = s.received(message);
            &&& s.arrived is None ==> r.arrived == Some(g)
            &&& s.arrived is Some ==> r.arrived == s.arrived
            &&& r.pending == s.pending && r.next_id == s.next_id && r.closed == s.closed
                && r.awaited == s.awaited && r.greeting == s.greeting
        },
        message matches Meaning::Return { id, .. } ==> {
            let r = s.received(message);
            &&& r.pending == s.pending.remove(id)
            &&& r.next_id == s.next_id && r.closed == s.closed && r.awaited == s.awaited
                && r.arrived == s.arrived && r.greeting == s.greeting
        },
        message matches Meaning::Failure { id, .. } ==> {
            let r = s.received(message);
            &&& r.pending == s.pending.remove(id)
            &&& r.next_id == s.next_id && r.closed == s.closed && r.awaited == s.awaited
                && r.arrived == s.arrived && r.greeting == s.greeting
        },
{
}

/// A reply to an outstanding request resolves that request, with what was returned or with the
/// error under the command that it was. A reply to any other is ignored, an event is surfaced as
/// it is, and only the first greeting is reported.
pub proof fn replies_resolve_their_request(s: SessionModel, message: Meaning, r: Dispatched)
    requires
        dispatches(s, message, r),
    ensures
        r is Event <==> message is Event,
        r is Greeted <==> message is Greeting && s.arrived is None,
        r is Reply <==> ((message matches Meaning::Return { id, .. } && s.pending.dom().contains(
            id,
        )) || (message matches Meaning::Failure { id, .. } && s.pending.dom().contains(id))),
        message matches Meaning::Event(e) ==> (r matches Dispatched::Event(x) && x.event@
            == e.event && text::string_of(x.data) == e.data && text::string_of(x.timestamp)
            == e.timestamp),
        r matches Dispatched::Reply { id: n, result } ==> {
            &&& message matches Meaning::Return { id, value } ==> n == id && (result matches Ok(v)
                && v@ == value)
            &&& message matches Meaning::Failure { id, class, desc } ==> n == id && (
            result matches Err(QmpError::Command { command: c, class: k, desc: d }) && c@
                == s.pending[id] && k@ == class && d@ == desc)
        },
{
}

/// What is said of an event, a greeting, an error or a message is all that it holds.
pub proof fn messages_are_seen_whole(
    e: QmpEvent,
    g: QmpGreeting,
    x: QmpError,
    m: Message,
    o: Option<QmpGreeting>,
)
    ensures
        e@.event == e.event@ && e@.data == text::string_of(e.data) && e@.timestamp
            == text::string_of(e.timestamp),
        g@.version == g.version@ && g@.capabilities == g.capabilities@,
        x matches QmpError::Connection(why) ==> x@ == QmpErrorText::Connection(why@),
        x matches QmpError::Command { command, class, desc } ==> x@ == (QmpErrorText::Command {
            command: command@,
            class: class@,
            desc: desc@,
        }),
        m@ is Nothing <==> m is Nothing,
        m@ is Greeting <==> m is Greeting,
        m@ is Event <==> m is Event,
        m@ is Return <==> m is Return,
        m@ is Failure <==> m is Failure,
        m matches Message::Greeting(k) ==> m@->Greeting_0 == k@,
        m matches Message::Event(k) ==> m@->Event_0 == k@,
        m matches Message::Return { id, value } ==> m@ == (Meaning::Return { id, value: value@ }),
        m matches Message::Failure { id, class, desc } ==> m@ == (Meaning::Failure {
            id,
            class: class@,
            desc: desc@,
        }),
        greeting_of(o) is Some <==> o is Some,
        o matches Some(k) ==> greeting_of(o) == Some(k@),
{
}

/// A request line is told from two by its line breaks: it has exactly one, at its end.
pub proof fn lines_have_one_break(s: Seq<char>)
    ensures
        is_one_line(s) <==> s.len() > 0 && s[s.len() - 1] == '\n' && forall|i: int|
            0 <= i < s.len() - 1 ==> #[trigger] s[i] != '\n',
{
    if is_one_line(s) {
        assert forall|i: int| 0 <= i < s.len() - 1 implies #[trigger] s[i] != '\n' by {
            assert(s.drop_last()[i] == s[i]);
        }
    }
}

} // verus!
