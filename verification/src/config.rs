//! Configuration surface for the server, parsed from `QMP_MCP_*` environment variables.
//!
//! [`load_config`] is a function of the environment map it is given and of nothing else.
//! Any value that is present but invalid is refused with a [`ConfigError`] that names the
//! offending variable and what it accepts; nothing silently falls back to a default. The
//! HTTP transport is refused when no credentials are configured and the operator has not
//! opted into running it unauthenticated.

use vstd::prelude::*;

use crate::text;

verus! {

/// Default capacity of the Event Buffer, the bounded ring of recent QMP events.
pub const DEFAULT_EVENT_BUFFER_SIZE: u32 = 256;

/// The emulator used for every machine that is not an ARM board.
pub const DEFAULT_QEMU_BINARY: &'static str = "qemu-system-x86_64";

// ---------------------------------------------------------------------------
// The environment
// ---------------------------------------------------------------------------

/// An environment: variable names bound to raw values. A variable bound to the empty
/// string is distinct from one that is absent.
#[derive(Debug, Clone)]
pub struct EnvMap {
    entries: Vec<(String, String)>,
}

/// The bindings that a list of assignments leaves, later ones replacing earlier ones.
pub closed spec fn bindings(entries: Seq<(String, String)>) -> Map<Seq<char>, Seq<char>>
    decreases entries.len(),
{
    if entries.len() == 0 {
        Map::empty()
    } else {
        bindings(entries.drop_last()).insert(entries.last().0@, entries.last().1@)
    }
}

/// The value of `name`, when it is bound.
pub open spec fn lookup(env: Map<Seq<char>, Seq<char>>, name: Seq<char>) -> Option<Seq<char>> {
    if env.contains_key(name) {
        Some(env[name])
    } else {
        None
    }
}

impl View for EnvMap {
    type V = Map<Seq<char>, Seq<char>>;

    closed spec fn view(&self) -> Map<Seq<char>, Seq<char>> {
        bindings(self.entries@)
    }
}

impl EnvMap {
    /// The environment in which nothing is bound.
    pub fn new() -> (r: EnvMap)
        ensures
            r@ == Map::<Seq<char>, Seq<char>>::empty(),
    {
        EnvMap { entries: Vec::new() }
    }

    /// Bind `name` to `value`, replacing an earlier binding.
    pub fn insert(&mut self, name: String, value: String)
        ensures
            final(self)@ == old(self)@.insert(name@, value@),
    {
        self.entries.push((name, value));
        assert(self.entries@.drop_last() =~= old(self).entries@);
    }

    /// The value of `name`, or `None` when it is not bound.
    pub fn get(&self, name: &str) -> (r: Option<&str>)
        ensures
            text::text_of(r) == lookup(self@, name@),
    {
        let mut i: usize = self.entries.len();
        assert(self.entries@.take(i as int) =~= self.entries@);
        while i > 0
            invariant
                i <= self.entries.len(),
                lookup(bindings(self.entries@.take(i as int)), name@) == lookup(self@, name@),
            decreases i,
        {
            assert(self.entries@.take(i as int).drop_last() =~= self.entries@.take(i - 1));
            i = i - 1;
            if text::str_eq(self.entries[i].0.as_str(), name) {
                return Some(self.entries[i].1.as_str());
            }
        }
        assert(self.entries@.take(0) =~= Seq::<(String, String)>::empty());
        None
    }
}

// ---------------------------------------------------------------------------
// Closed sets
// ---------------------------------------------------------------------------

/// Which transport(s) the server exposes.
#[derive(Debug, Clone, Copy, PartialEq, Eq, Structural)]
pub enum TransportMode {
    /// Newline-delimited JSON-RPC over stdio. No network port, so auth-free.
    Stdio,
    /// Streamable HTTP transport.
    Http,
    /// Both stdio and HTTP concurrently.
    Both,
}

/// Allowed transports, in canonical order, for actionable error messages.
pub const TRANSPORT_ALLOWED: &'static str = "stdio, http, both";

impl TransportMode {
    /// The transport that a setting names, ignoring case.
    pub open spec fn named(raw: Seq<char>) -> Option<TransportMode> {
        let l = text::lowercase(raw);
        if l == "stdio"@ {
            Some(TransportMode::Stdio)
        } else if l == "http"@ {
            Some(TransportMode::Http)
        } else if l == "both"@ {
            Some(TransportMode::Both)
        } else {
            None
        }
    }

    fn parse(raw: &str) -> (r: Option<TransportMode>)
        ensures
            r == TransportMode::named(raw@),
    {
        let l = text::to_lowercase(raw);
        if text::str_eq(l.as_str(), "stdio") {
            Some(TransportMode::Stdio)
        } else if text::str_eq(l.as_str(), "http") {
            Some(TransportMode::Http)
        } else if text::str_eq(l.as_str(), "both") {
            Some(TransportMode::Both)
        } else {
            None
        }
    }

    /// Canonical lowercase spelling.
    pub fn as_str(&self) -> (r: &'static str)
        ensures
            r@ == (match *self {
                TransportMode::Stdio => "stdio"@,
                TransportMode::Http => "http"@,
                TransportMode::Both => "both"@,
            }),
    {
        match self {
            TransportMode::Stdio => "stdio",
            TransportMode::Http => "http",
            TransportMode::Both => "both",
        }
    }

    /// Whether this mode exposes the HTTP transport (and thus needs auth).
    pub fn exposes_http(&self) -> (r: bool)
        ensures
            r == (*self != TransportMode::Stdio),
    {
        match self {
            TransportMode::Stdio => false,
            TransportMode::Http => true,
            TransportMode::Both => true,
        }
    }
}

/// Minimum severity emitted by the server's own logger.
#[derive(Debug, Clone, Copy, PartialEq, Eq, Structural)]
pub enum LogLevel {
    /// Everything.
    Debug,
    /// Informational messages and above.
    Info,
    /// Warnings and above.
    Warning,
    /// Errors only.
    Error,
}

/// Allowed log levels, for actionable error messages.
pub const LOG_LEVEL_ALLOWED: &'static str = "debug, info, warning, error";

impl LogLevel {
    /// The level that a setting names, ignoring case.
    pub open spec fn named(raw: Seq<char>) -> Option<LogLevel> {
        let l = text::lowercase(raw);
        if l == "debug"@ {
            Some(LogLevel::Debug)
        } else if l == "info"@ {
            Some(LogLevel::Info)
        } else if l == "warning"@ {
            Some(LogLevel::Warning)
        } else if l == "error"@ {
            Some(LogLevel::Error)
        } else {
            None
        }
    }

    fn parse(raw: &str) -> (r: Option<LogLevel>)
        ensures
            r == LogLevel::named(raw@),
    {
        let l = text::to_lowercase(raw);
        if text::str_eq(l.as_str(), "debug") {
            Some(LogLevel::Debug)
        } else if text::str_eq(l.as_str(), "info") {
            Some(LogLevel::Info)
        } else if text::str_eq(l.as_str(), "warning") {
            Some(LogLevel::Warning)
        } else if text::str_eq(l.as_str(), "error") {
            Some(LogLevel::Error)
        } else {
            None
        }
    }
}

/// Which provider guards the HTTP transport when auth is enabled.
#[derive(Debug, Clone, Copy, PartialEq, Eq, Structural)]
pub enum AuthMode {
    /// An `X-API-Key` header checked against a configured list.
    ApiKey,
    /// An HS256 bearer token checked against a configured secret.
    Jwt,
}

/// Allowed auth modes, for actionable error messages.
pub const AUTH_ALLOWED: &'static str = "apikey, jwt";

impl AuthMode {
    /// The provider that a setting names, ignoring case.
    pub open spec fn named(raw: Seq<char>) -> Option<AuthMode> {
        let l = text::lowercase(raw);
        if l == "apikey"@ {
            Some(AuthMode::ApiKey)
        } else if l == "jwt"@ {
            Some(AuthMode::Jwt)
        } else {
            None
        }
    }

    fn parse(raw: &str) -> (r: Option<AuthMode>)
        ensures
            r == AuthMode::named(raw@),
    {
        let l = text::to_lowercase(raw);
        if text::str_eq(l.as_str(), "apikey") {
            Some(AuthMode::ApiKey)
        } else if text::str_eq(l.as_str(), "jwt") {
            Some(AuthMode::Jwt)
        } else {
            None
        }
    }
}

/// An inclusive `[low, high]` host-port range. A user-mode port-forward's host port must
/// fall inside it, so a spec can never bind an arbitrary or privileged host port.
#[derive(Debug, Clone, Copy, PartialEq, Eq, Structural)]
pub struct PortRange {
    /// Lowest host port a forward may bind (inclusive).
    pub low: u16,
    /// Highest host port a forward may bind (inclusive).
    pub high: u16,
}

/// Default host-port range for user-mode port-forwards: the non-privileged ports.
pub open spec fn default_hostfwd_range() -> PortRange {
    PortRange { low: 1024, high: 65535 }
}

/// Default host-port range for user-mode port-forwards: the non-privileged ports.
pub fn default_hostfwd_port_range() -> (r: PortRange)
    ensures
        r == default_hostfwd_range(),
{
    PortRange { low: 1024, high: 65535 }
}

/// The validated configuration.
#[derive(Debug, Clone, PartialEq, Eq)]
pub struct Config {
    /// Which transport(s) the server should expose.
    pub transport: TransportMode,
    /// Minimum severity emitted by the server's own logger.
    pub log_level: LogLevel,
    /// Address the HTTP transport binds to.
    pub http_host: String,
    /// TCP port the HTTP transport listens on.
    pub http_port: u16,
    /// Path the MCP endpoint is served from.
    pub http_endpoint: String,
    /// Browser origins permitted by the DNS-rebinding/CORS guard.
    pub allowed_origins: Vec<String>,
    /// Which provider guards the HTTP transport when auth is enabled.
    pub auth_mode: AuthMode,
    /// Valid API keys for [`AuthMode::ApiKey`], trimmed with empties dropped.
    pub api_keys: Vec<String>,
    /// Signing secret for [`AuthMode::Jwt`], or `None` when unset.
    pub jwt_secret: Option<String>,
    /// When true, the HTTP transport runs unauthenticated (local dev only).
    pub allow_insecure: bool,
    /// Absolute path of the read-write Image Store directory.
    pub image_dir: String,
    /// Absolute path of the read-only ISO Store directory.
    pub iso_dir: String,
    /// Explicit `qemu-system-*` binary, or `None` to derive it from each spec's machine.
    pub qemu_binary_override: Option<String>,
    /// Hard cap, in GiB, on the virtual size of a created disk image.
    pub max_disk_gb: u32,
    /// Hard cap, in MiB, on a Hardware Spec's memory.
    pub max_memory_mb: u32,
    /// Hard cap on a Hardware Spec's virtual CPUs.
    pub max_vcpus: u32,
    /// Inclusive host-port range a user-mode forward's host port must fall in.
    pub hostfwd_port_range: PortRange,
    /// When true, host-level guest networking (`tap`/`bridge`) is permitted.
    pub allow_host_net: bool,
    /// When true, creating an Instance also starts its Guest; otherwise the Guest stays
    /// at the startup pause until it is resumed.
    pub auto_start: bool,
    /// Capacity of the Event Buffer.
    pub event_buffer_size: u32,
    /// When true, a Hardware Spec's raw extra arguments are appended to the argv.
    pub allow_raw_args: bool,
    /// The password gating the noVNC Viewer, or `None` when unset.
    pub viewer_password: Option<String>,
    /// Address the noVNC Viewer's HTTP server binds to.
    pub viewer_host: String,
    /// TCP port the noVNC Viewer listens on.
    pub viewer_port: u16,
}

/// Raised when an environment variable is present but holds an invalid value, or when the
/// HTTP transport is selected without the auth it requires.
#[derive(Debug, Clone, PartialEq, Eq)]
pub struct ConfigError(pub String);

/// A parse result agrees with the value, or the message, that the specification gives.
pub open spec fn agrees<T>(r: Result<T, ConfigError>, s: Result<T, Seq<char>>) -> bool {
    match (r, s) {
        (Ok(a), Ok(b)) => a == b,
        (Err(e), Err(m)) => e.0@ == m,
        _ => false,
    }
}

// ---------------------------------------------------------------------------
// Single settings
// ---------------------------------------------------------------------------

/// The value of an enum setting. Unset and empty give the fallback; the value is compared
/// ignoring case but is not trimmed.
pub open spec fn enum_setting<T>(
    var: Seq<char>,
    raw: Option<Seq<char>>,
    allowed: Seq<char>,
    fallback: T,
    named: spec_fn(Seq<char>) -> Option<T>,
) -> Result<T, Seq<char>> {
    match raw {
        None => Ok(fallback),
        Some(v) => if v.len() == 0 {
            Ok(fallback)
        } else {
            match named(v) {
                Some(t) => Ok(t),
                None => Err(
                    var + " must be one of: "@ + allowed + " (got \""@ + v + "\")."@,
                ),
            }
        },
    }
}

fn parse_enum<T>(
    var: &str,
    raw: Option<&str>,
    allowed: &str,
    fallback: T,
    parse: impl Fn(&str) -> Option<T>,
    named: Ghost<spec_fn(Seq<char>) -> Option<T>>,
) -> (r: Result<T, ConfigError>)
    requires
        forall|s: &str| #[trigger] call_requires(parse, (s,)),
        forall|s: &str, o: Option<T>| #[trigger]
            call_ensures(parse, (s,), o) ==> o == named@(s@),
    ensures
        agrees(r, enum_setting(var@, text::text_of(raw), allowed@, fallback, named@)),
{
    match raw {
        None => Ok(fallback),
        Some(value) => {
            if value.is_empty() {
                return Ok(fallback);
            }
            match parse(value) {
                Some(t) => Ok(t),
                None => {
                    let mut m = text::cat4(var, " must be one of: ", allowed, " (got \"");
                    m.append(value);
                    m.append("\").");
                    Err(ConfigError(m))
                },
            }
        },
    }
}

/// The value of a text setting: trimmed, with unset and blank giving the fallback.
pub open spec fn string_setting(raw: Option<Seq<char>>, fallback: Seq<char>) -> Seq<char> {
    match raw {
        None => fallback,
        Some(v) => if text::is_blank(v) {
            fallback
        } else {
            text::trimmed(v)
        },
    }
}

fn parse_string(raw: Option<&str>, fallback: &str) -> (r: String)
    ensures
        r@ == string_setting(text::text_of(raw), fallback@),
{
    match raw {
        None => fallback.to_string(),
        Some(value) => {
            let trimmed = text::trim(value);
            if trimmed.as_str().is_empty() {
                fallback.to_string()
            } else {
                trimmed
            }
        },
    }
}

/// The message that refuses a port.
pub open spec fn port_error(var: Seq<char>, value: Seq<char>) -> Seq<char> {
    var + " must be an integer port in 1..65535 (got \""@ + value + "\")."@
}

/// The value of a TCP port setting: a base-10 integer in `1..=65535`, with unset and blank
/// giving the fallback.
pub open spec fn port_setting(var: Seq<char>, raw: Option<Seq<char>>, fallback: u16) -> Result<
    u16,
    Seq<char>,
> {
    match raw {
        None => Ok(fallback),
        Some(v) => {
            let t = text::trimmed(v);
            if t.len() == 0 {
                Ok(fallback)
            } else if text::all_digits(t) && 1 <= text::digits_value(t) <= 65535 {
                Ok(text::digits_value(t) as u16)
            } else {
                Err(port_error(var, t))
            }
        },
    }
}

fn parse_port(var: &str, raw: Option<&str>, fallback: u16) -> (r: Result<u16, ConfigError>)
    ensures
        agrees(r, port_setting(var@, text::text_of(raw), fallback)),
{
    match raw {
        None => Ok(fallback),
        Some(v) => {
            let value = text::trim(v);
            if value.as_str().is_empty() {
                return Ok(fallback);
            }
            match text::parse_u32(value.as_str()) {
                Some(port) if 1 <= port && port <= 65535 => Ok(port as u16),
                _ => Err(
                    ConfigError(
                        text::cat4(
                            var,
                            " must be an integer port in 1..65535 (got \"",
                            value.as_str(),
                            "\").",
                        ),
                    ),
                ),
            }
        },
    }
}

/// The value of a boolean setting: `true` or `false` in any case, trimmed, with unset and
/// empty giving the fallback. A typo never reads as a silent `false`.
pub open spec fn boolean_setting(
    var: Seq<char>,
    raw: Option<Seq<char>>,
    fallback: bool,
) -> Result<bool, Seq<char>> {
    match raw {
        None => Ok(fallback),
        Some(v) => {
            let l = text::lowercase(text::trimmed(v));
            if v.len() == 0 {
                Ok(fallback)
            } else if l == "true"@ {
                Ok(true)
            } else if l == "false"@ {
                Ok(false)
            } else {
                Err(var + " must be \"true\" or \"false\" (got \""@ + v + "\")."@)
            }
        },
    }
}

/// Read a boolean setting.
pub fn parse_boolean(var: &str, raw: Option<&str>, fallback: bool) -> (r: Result<bool, ConfigError>)
    ensures
        agrees(r, boolean_setting(var@, text::text_of(raw), fallback)),
{
    match raw {
        None => Ok(fallback),
        Some(value) => {
            if value.is_empty() {
                return Ok(fallback);
            }
            let trimmed = text::trim(value);
            let l = text::to_lowercase(trimmed.as_str());
            if text::str_eq(l.as_str(), "true") {
                Ok(true)
            } else if text::str_eq(l.as_str(), "false") {
                Ok(false)
            } else {
                Err(
                    ConfigError(
                        text::cat4(
                            var,
                            " must be \"true\" or \"false\" (got \"",
                            value,
                            "\").",
                        ),
                    ),
                )
            }
        },
    }
}

/// The value of a positive-integer setting that fits in 32 bits, with unset and blank
/// giving the fallback.
pub open spec fn positive_setting(
    var: Seq<char>,
    raw: Option<Seq<char>>,
    fallback: u32,
) -> Result<u32, Seq<char>> {
    match raw {
        None => Ok(fallback),
        Some(v) => {
            let t = text::trimmed(v);
            if t.len() == 0 {
                Ok(fallback)
            } else if text::all_digits(t) && 1 <= text::digits_value(t) <= u32::MAX {
                Ok(text::digits_value(t) as u32)
            } else {
                Err(var + " must be a positive integer >= 1 (got \""@ + t + "\")."@)
            }
        },
    }
}

fn parse_positive_int(var: &str, raw: Option<&str>, fallback: u32) -> (r: Result<u32, ConfigError>)
    ensures
        agrees(r, positive_setting(var@, text::text_of(raw), fallback)),
{
    match raw {
        None => Ok(fallback),
        Some(v) => {
            let value = text::trim(v);
            if value.as_str().is_empty() {
                return Ok(fallback);
            }
            match text::parse_u32(value.as_str()) {
                Some(n) if n >= 1 => Ok(n),
                _ => Err(
                    ConfigError(
                        text::cat4(
                            var,
                            " must be a positive integer >= 1 (got \"",
                            value.as_str(),
                            "\").",
                        ),
                    ),
                ),
            }
        },
    }
}

/// `t` is `lo`, a dash, and `hi`, where the dash is the first one in `t`.
pub open spec fn dash_at(t: Seq<char>, i: int) -> bool {
    &&& 0 <= i < t.len()
    &&& t[i] == '-'
    &&& forall|j: int| 0 <= j < i ==> t[j] != '-'
}

/// The range written as `LOW-HIGH`, when both bounds are digits with
/// `1 <= LOW <= HIGH <= 65535`.
pub open spec fn port_range_at(t: Seq<char>, i: int) -> Option<PortRange> {
    let lo = t.take(i);
    let hi = t.skip(i + 1);
    if text::all_digits(lo) && text::all_digits(hi) && 1 <= text::digits_value(lo)
        <= text::digits_value(hi) <= 65535 {
        Some(
            PortRange {
                low: text::digits_value(lo) as u16,
                high: text::digits_value(hi) as u16,
            },
        )
    } else {
        None
    }
}

/// The value of a host-port-range setting, with unset and blank giving the fallback. Anything
/// else must be a range as it stands: it is not trimmed, so surrounding spaces are refused.
pub open spec fn port_range_setting(
    var: Seq<char>,
    raw: Option<Seq<char>>,
    fallback: PortRange,
) -> Result<PortRange, Seq<char>> {
    match raw {
        None => Ok(fallback),
        Some(v) => {
            let error = var
                + " must be a host-port range \"LOW-HIGH\" with 1 <= LOW <= HIGH <= 65535 (got \""@
                + v + "\")."@;
            if text::is_blank(v) {
                Ok(fallback)
            } else if exists|i: int| dash_at(v, i) {
                match port_range_at(v, choose|i: int| dash_at(v, i)) {
                    Some(range) => Ok(range),
                    None => Err(error),
                }
            } else {
                Err(error)
            }
        },
    }
}

fn parse_port_range(var: &str, raw: Option<&str>, fallback: PortRange) -> (r: Result<
    PortRange,
    ConfigError,
>)
    ensures
        agrees(r, port_range_setting(var@, text::text_of(raw), fallback)),
{
    let value = match raw {
        None => return Ok(fallback),
        Some(v) => v,
    };
    if text::blank(value) {
        return Ok(fallback);
    }
    let error = ConfigError(
        text::cat4(
            var,
            " must be a host-port range \"LOW-HIGH\" with 1 <= LOW <= HIGH <= 65535 (got \"",
            value,
            "\").",
        ),
    );
    let x = text::to_chars(value);
    let mut i: usize = 0;
    while i < x.len() && x[i] != '-'
        invariant
            i <= x.len(),
            x@ == value@,
            forall|j: int| 0 <= j < i ==> x@[j] != '-',
        decreases x.len() - i,
    {
        i = i + 1;
    }
    if i == x.len() {
        assert(forall|k: int| !dash_at(value@, k));
        return Err(error);
    }
    assert(dash_at(value@, i as int));
    assert(forall|k: int| dash_at(value@, k) ==> k == i);
    let lo = text::from_chars(&x, 0, i);
    let hi = text::from_chars(&x, i + 1, x.len());
    assert(lo@ =~= value@.take(i as int));
    assert(hi@ =~= value@.skip(i + 1));
    match (text::parse_u32(lo.as_str()), text::parse_u32(hi.as_str())) {
        (Some(low), Some(high)) => {
            if low < 1 || high > 65535 || low > high {
                Err(error)
            } else {
                Ok(PortRange { low: low as u16, high: high as u16 })
            }
        },
        _ => Err(error),
    }
}

/// The entries of a comma-separated setting; none when it is unset.
pub open spec fn list_setting(raw: Option<Seq<char>>) -> Seq<Seq<char>> {
    match raw {
        None => Seq::empty(),
        Some(v) => text::comma_list(v),
    }
}

fn parse_list(raw: Option<&str>) -> (r: Vec<String>)
    ensures
        text::texts(r@) == list_setting(text::text_of(raw)),
{
    broadcast use text::group_texts;

    match raw {
        None => Vec::new(),
        Some(value) => text::split_commas(value),
    }
}

/// The trimmed value of a setting, when it is not blank.
pub open spec fn non_blank(env: Map<Seq<char>, Seq<char>>, name: Seq<char>) -> Option<Seq<char>> {
    match lookup(env, name) {
        None => None,
        Some(v) => if text::is_blank(v) {
            None
        } else {
            Some(text::trimmed(v))
        },
    }
}

fn trimmed_non_empty(env: &EnvMap, name: &str) -> (r: Option<String>)
    ensures
        text::string_of(r) == non_blank(env@, name@),
{
    match env.get(name) {
        None => None,
        Some(v) => {
            let t = text::trim(v);
            if t.as_str().is_empty() {
                None
            } else {
                Some(t)
            }
        },
    }
}

/// The untrimmed value of a secret setting, when it is not blank.
pub open spec fn secret_setting(env: Map<Seq<char>, Seq<char>>, name: Seq<char>) -> Option<
    Seq<char>,
> {
    match lookup(env, name) {
        None => None,
        Some(v) => if text::is_blank(v) {
            None
        } else {
            Some(v)
        },
    }
}

fn present_non_blank(env: &EnvMap, name: &str) -> (r: Option<String>)
    ensures
        text::string_of(r) == secret_setting(env@, name@),
{
    match env.get(name) {
        None => None,
        Some(v) => {
            if text::blank(v) {
                None
            } else {
                Some(v.to_string())
            }
        },
    }
}

// ---------------------------------------------------------------------------
// Directories
// ---------------------------------------------------------------------------

/// `s` without its trailing slashes, but for one that is all there is: the root keeps it.
pub open spec fn without_trailing_slashes(s: Seq<char>) -> Seq<char>
    decreases s.len(),
{
    if s.len() > 1 && s.last() == '/' {
        without_trailing_slashes(s.drop_last())
    } else {
        s
    }
}

/// The temp dir: `TMPDIR` (trimmed, trailing slashes removed unless it is the root) when set,
/// else `/tmp`.
pub open spec fn temp_dir_of(env: Map<Seq<char>, Seq<char>>) -> Seq<char> {
    match non_blank(env, "TMPDIR"@) {
        Some(t) => without_trailing_slashes(t),
        None => "/tmp"@,
    }
}

fn tmp_dir(env: &EnvMap) -> (r: String)
    ensures
        r@ == temp_dir_of(env@),
{
    match trimmed_non_empty(env, "TMPDIR") {
        Some(t) => {
            let x = text::to_chars(t.as_str());
            let mut n: usize = x.len();
            assert(x@.take(n as int) =~= x@);
            while n > 1 && x[n - 1] == '/'
                invariant
                    n <= x.len(),
                    without_trailing_slashes(x@.take(n as int)) == without_trailing_slashes(x@),
                decreases n,
            {
                assert(x@.take(n as int).drop_last() =~= x@.take(n - 1));
                n = n - 1;
            }
            let out = text::from_chars(&x, 0, n);
            assert(out@ =~= x@.take(n as int));
            out
        },
        None => "/tmp".to_string(),
    }
}

/// A base path extended by one relative component.
pub open spec fn path_join(base: Seq<char>, part: Seq<char>) -> Seq<char> {
    if base.len() == 0 || base.last() == '/' {
        base + part
    } else {
        base + "/"@ + part
    }
}

/// A base path extended by one relative component.
pub fn join(base: &str, part: &str) -> (r: String)
    ensures
        r@ == path_join(base@, part@),
{
    let x = text::to_chars(base);
    if x.len() == 0 || x[x.len() - 1] == '/' {
        text::cat2(base, part)
    } else {
        text::cat3(base, "/", part)
    }
}

/// The directory of a store: the explicit setting, or one under the user's data directory,
/// or one under the temp dir.
pub open spec fn store_dir(
    env: Map<Seq<char>, Seq<char>>,
    var: Seq<char>,
    leaf: Seq<char>,
) -> Seq<char> {
    match non_blank(env, var) {
        Some(explicit) => explicit,
        None => match non_blank(env, "XDG_DATA_HOME"@) {
            Some(xdg) => path_join(path_join(xdg, "qmp-mcp"@), leaf),
            None => match non_blank(env, "HOME"@) {
                Some(home) => path_join(
                    path_join(path_join(path_join(home, ".local"@), "share"@), "qmp-mcp"@),
                    leaf,
                ),
                None => path_join(path_join(temp_dir_of(env), "qmp-mcp"@), leaf),
            },
        },
    }
}

fn resolve_store_dir(env: &EnvMap, var: &str, leaf: &str) -> (r: String)
    ensures
        r@ == store_dir(env@, var@, leaf@),
{
    if let Some(explicit) = trimmed_non_empty(env, var) {
        return explicit;
    }
    if let Some(xdg) = trimmed_non_empty(env, "XDG_DATA_HOME") {
        let data = join(xdg.as_str(), "qmp-mcp");
        return join(data.as_str(), leaf);
    }
    if let Some(home) = trimmed_non_empty(env, "HOME") {
        let local = join(home.as_str(), ".local");
        let share = join(local.as_str(), "share");
        let data = join(share.as_str(), "qmp-mcp");
        return join(data.as_str(), leaf);
    }
    let tmp = tmp_dir(env);
    let data = join(tmp.as_str(), "qmp-mcp");
    join(data.as_str(), leaf)
}

/// Resolve the read-write Image Store directory. An explicit `QMP_MCP_IMAGE_DIR` wins;
/// otherwise a default is derived from `XDG_DATA_HOME`, then `HOME`, then the temp dir.
pub fn resolve_image_dir(env: &EnvMap) -> (r: String)
    ensures
        r@ == store_dir(env@, "QMP_MCP_IMAGE_DIR"@, "images"@),
{
    resolve_store_dir(env, "QMP_MCP_IMAGE_DIR", "images")
}

/// Resolve the read-only ISO Store directory, which is separate from the Image Store.
pub fn resolve_iso_dir(env: &EnvMap) -> (r: String)
    ensures
        r@ == store_dir(env@, "QMP_MCP_ISO_DIR"@, "isos"@),
{
    resolve_store_dir(env, "QMP_MCP_ISO_DIR", "isos")
}

// ---------------------------------------------------------------------------
// The emulator override
// ---------------------------------------------------------------------------

/// The characters that an emulator name or path may hold.
pub open spec fn is_binary_char(c: char) -> bool {
    text::is_alphanumeric(c) || c == '.' || c == '_' || c == '/' || c == '+' || c == '-'
}

/// A bare command name or an absolute path over the safe characters.
pub open spec fn is_safe_binary(s: Seq<char>) -> bool {
    &&& forall|i: int| 0 <= i < s.len() ==> is_binary_char(#[trigger] s[i])
    &&& s.contains('/') ==> s[0] == '/'
}

/// The message that refuses an emulator override.
pub open spec fn binary_error(value: Seq<char>) -> Seq<char> {
    "QMP_MCP_QEMU_BINARY must be a bare command name or an absolute path over [A-Za-z0-9._/+-] (no whitespace, shell metacharacters, or control characters) (got \""@
        + value + "\")."@
}

/// The emulator override: the trimmed setting, when it is set and safe.
pub open spec fn binary_setting(env: Map<Seq<char>, Seq<char>>) -> Result<
    Option<Seq<char>>,
    Seq<char>,
> {
    match non_blank(env, "QMP_MCP_QEMU_BINARY"@) {
        None => Ok(None),
        Some(v) => if is_safe_binary(v) {
            Ok(Some(v))
        } else {
            Err(binary_error(v))
        },
    }
}

/// Resolve and validate an explicit emulator override (`QMP_MCP_QEMU_BINARY`), or `None`
/// when it is unset or blank. The value is trimmed and must be a bare command name or an
/// absolute path over the characters `[A-Za-z0-9._/+-]`.
pub fn qemu_binary_override(env: &EnvMap) -> (r: Result<Option<String>, ConfigError>)
    ensures
        match r {
            Ok(o) => binary_setting(env@) == Ok::<Option<Seq<char>>, Seq<char>>(
                text::string_of(o),
            ),
            Err(e) => binary_setting(env@) == Err::<Option<Seq<char>>, Seq<char>>(e.0@),
        },
{
    let value = match trimmed_non_empty(env, "QMP_MCP_QEMU_BINARY") {
        None => return Ok(None),
        Some(v) => v,
    };
    let x = text::to_chars(value.as_str());
    let mut charset_ok = true;
    let mut i: usize = 0;
    while i < x.len()
        invariant
            i <= x.len(),
            charset_ok == (forall|j: int| 0 <= j < i ==> is_binary_char(#[trigger] x@[j])),
        decreases x.len() - i,
    {
        let c = x[i];
        if !(text::alphanumeric(c) || c == '.' || c == '_' || c == '/' || c == '+' || c == '-') {
            charset_ok = false;
            assert(!is_binary_char(x@[i as int]));
        }
        i = i + 1;
    }
    let shape_ok = !text::contains_char(value.as_str(), '/') || x[0] == '/';
    if !charset_ok || !shape_ok {
        return Err(
            ConfigError(
                text::cat3(
                    "QMP_MCP_QEMU_BINARY must be a bare command name or an absolute path over [A-Za-z0-9._/+-] (no whitespace, shell metacharacters, or control characters) (got \"",
                    value.as_str(),
                    "\").",
                ),
            ),
        );
    }
    Ok(Some(value))
}

// ---------------------------------------------------------------------------
// The whole configuration
// ---------------------------------------------------------------------------

/// Why the HTTP transport is refused with API-key auth and no keys.
pub const NO_API_KEYS: &'static str =
    "HTTP transport requires authentication but none is configured (QMP_MCP_AUTH=apikey, QMP_MCP_API_KEYS is empty). Set QMP_MCP_API_KEYS to a comma-separated list of keys, or switch to JWT with QMP_MCP_AUTH=jwt and QMP_MCP_JWT_SECRET, or set QMP_MCP_ALLOW_INSECURE=true to run unauthenticated (local dev only).";

/// Why the HTTP transport is refused with JWT auth and no secret.
pub const NO_JWT_SECRET: &'static str =
    "HTTP transport with QMP_MCP_AUTH=jwt requires a signing secret but QMP_MCP_JWT_SECRET is not set. Set QMP_MCP_JWT_SECRET, or set QMP_MCP_ALLOW_INSECURE=true to run unauthenticated (local dev only).";

/// The transport setting.
pub open spec fn transport_of(env: Map<Seq<char>, Seq<char>>) -> Result<TransportMode, Seq<char>> {
    enum_setting(
        "QMP_MCP_TRANSPORT"@,
        lookup(env, "QMP_MCP_TRANSPORT"@),
        TRANSPORT_ALLOWED@,
        TransportMode::Stdio,
        |s: Seq<char>| TransportMode::named(s),
    )
}

/// The log-level setting.
pub open spec fn log_level_of(env: Map<Seq<char>, Seq<char>>) -> Result<LogLevel, Seq<char>> {
    enum_setting(
        "QMP_MCP_LOG_LEVEL"@,
        lookup(env, "QMP_MCP_LOG_LEVEL"@),
        LOG_LEVEL_ALLOWED@,
        LogLevel::Info,
        |s: Seq<char>| LogLevel::named(s),
    )
}

/// The auth-provider setting.
pub open spec fn auth_mode_of(env: Map<Seq<char>, Seq<char>>) -> Result<AuthMode, Seq<char>> {
    enum_setting(
        "QMP_MCP_AUTH"@,
        lookup(env, "QMP_MCP_AUTH"@),
        AUTH_ALLOWED@,
        AuthMode::ApiKey,
        |s: Seq<char>| AuthMode::named(s),
    )
}

/// A TCP port setting of the environment.
pub open spec fn port_of(env: Map<Seq<char>, Seq<char>>, var: Seq<char>, fallback: u16) -> Result<
    u16,
    Seq<char>,
> {
    port_setting(var, lookup(env, var), fallback)
}

/// A boolean setting of the environment; all of them default to `false`.
pub open spec fn flag_of(env: Map<Seq<char>, Seq<char>>, var: Seq<char>) -> Result<
    bool,
    Seq<char>,
> {
    boolean_setting(var, lookup(env, var), false)
}

/// A positive-integer setting of the environment.
pub open spec fn positive_of(
    env: Map<Seq<char>, Seq<char>>,
    var: Seq<char>,
    fallback: u32,
) -> Result<u32, Seq<char>> {
    positive_setting(var, lookup(env, var), fallback)
}

/// The host-port-range setting.
pub open spec fn hostfwd_range_of(env: Map<Seq<char>, Seq<char>>) -> Result<PortRange, Seq<char>> {
    port_range_setting(
        "QMP_MCP_HOSTFWD_PORT_RANGE"@,
        lookup(env, "QMP_MCP_HOSTFWD_PORT_RANGE"@),
        default_hostfwd_range(),
    )
}

/// The browser origins: the explicit list, or the loopback origins of the HTTP port.
pub open spec fn origins_of(env: Map<Seq<char>, Seq<char>>, http_port: u16) -> Seq<Seq<char>> {
    let explicit = list_setting(lookup(env, "QMP_MCP_HTTP_ALLOWED_ORIGINS"@));
    if explicit.len() == 0 {
        seq![
            "http://localhost:"@ + text::decimal(http_port as nat),
            "http://127.0.0.1:"@ + text::decimal(http_port as nat),
        ]
    } else {
        explicit
    }
}

/// Why the HTTP transport is refused for want of credentials, if it is.
pub open spec fn missing_credentials(
    transport: TransportMode,
    auth_mode: AuthMode,
    allow_insecure: bool,
    api_keys: nat,
    has_secret: bool,
) -> Option<Seq<char>> {
    if transport == TransportMode::Stdio || allow_insecure {
        None
    } else if auth_mode == AuthMode::ApiKey && api_keys == 0 {
        Some(NO_API_KEYS@)
    } else if auth_mode == AuthMode::Jwt && !has_secret {
        Some(NO_JWT_SECRET@)
    } else {
        None
    }
}

/// The message of a setting that is refused.
pub open spec fn failure<T>(r: Result<T, Seq<char>>) -> Option<Seq<char>> {
    match r {
        Ok(_) => None,
        Err(m) => Some(m),
    }
}

/// The first of two messages.
pub open spec fn first(a: Option<Seq<char>>, b: Option<Seq<char>>) -> Option<Seq<char>> {
    match a {
        Some(m) => Some(m),
        None => b,
    }
}

/// The message of the first setting, in reading order, that the environment gets wrong.
pub open spec fn config_error(env: Map<Seq<char>, Seq<char>>) -> Option<Seq<char>> {
    first(
        transport_error(env),
        first(failure(binary_setting(env)), limits_error(env)),
    )
}

/// The first message among the transport and auth settings.
pub open spec fn transport_error(env: Map<Seq<char>, Seq<char>>) -> Option<Seq<char>> {
    first(
        failure(transport_of(env)),
        first(
            failure(log_level_of(env)),
            first(
                failure(port_of(env, "QMP_MCP_HTTP_PORT"@, 8080)),
                first(
                    failure(auth_mode_of(env)),
                    first(
                        failure(flag_of(env, "QMP_MCP_ALLOW_INSECURE"@)),
                        missing_credentials(
                            transport_of(env)->Ok_0,
                            auth_mode_of(env)->Ok_0,
                            flag_of(env, "QMP_MCP_ALLOW_INSECURE"@)->Ok_0,
                            list_setting(lookup(env, "QMP_MCP_API_KEYS"@)).len(),
                            secret_setting(env, "QMP_MCP_JWT_SECRET"@) is Some,
                        ),
                    ),
                ),
            ),
        ),
    )
}

/// The first message among the caps, gates and Viewer settings.
pub open spec fn limits_error(env: Map<Seq<char>, Seq<char>>) -> Option<Seq<char>> {
    first(
        failure(positive_of(env, "QMP_MCP_MAX_DISK_GB"@, 64)),
        first(
            failure(positive_of(env, "QMP_MCP_MAX_MEMORY_MB"@, 4096)),
            first(
                failure(positive_of(env, "QMP_MCP_MAX_VCPUS"@, 2)),
                first(
                    failure(hostfwd_range_of(env)),
                    first(
                        failure(flag_of(env, "QMP_MCP_ALLOW_HOST_NET"@)),
                        first(
                            failure(flag_of(env, "QMP_MCP_AUTO_START"@)),
                            first(
                                failure(
                                    positive_of(
                                        env,
                                        "QMP_MCP_EVENT_BUFFER_SIZE"@,
                                        DEFAULT_EVENT_BUFFER_SIZE,
                                    ),
                                ),
                                first(
                                    failure(flag_of(env, "QMP_MCP_ALLOW_RAW_ARGS"@)),
                                    failure(port_of(env, "QMP_MCP_VIEWER_PORT"@, 6080)),
                                ),
                            ),
                        ),
                    ),
                ),
            ),
        ),
    )
}

impl Config {
    /// Every field holds what the environment sets it to.
    pub open spec fn reads(self, env: Map<Seq<char>, Seq<char>>) -> bool {
        &&& transport_of(env) == Ok::<TransportMode, Seq<char>>(self.transport)
        &&& log_level_of(env) == Ok::<LogLevel, Seq<char>>(self.log_level)
        &&& self.http_host@ == string_setting(lookup(env, "QMP_MCP_HTTP_HOST"@), "127.0.0.1"@)
        &&& port_of(env, "QMP_MCP_HTTP_PORT"@, 8080) == Ok::<u16, Seq<char>>(self.http_port)
        &&& self.http_endpoint@ == string_setting(lookup(env, "QMP_MCP_HTTP_ENDPOINT"@), "/mcp"@)
        &&& text::texts(self.allowed_origins@) == origins_of(env, self.http_port)
        &&& auth_mode_of(env) == Ok::<AuthMode, Seq<char>>(self.auth_mode)
        &&& text::texts(self.api_keys@) == list_setting(lookup(env, "QMP_MCP_API_KEYS"@))
        &&& text::string_of(self.jwt_secret) == secret_setting(env, "QMP_MCP_JWT_SECRET"@)
        &&& flag_of(env, "QMP_MCP_ALLOW_INSECURE"@) == Ok::<bool, Seq<char>>(self.allow_insecure)
        &&& self.image_dir@ == store_dir(env, "QMP_MCP_IMAGE_DIR"@, "images"@)
        &&& self.iso_dir@ == store_dir(env, "QMP_MCP_ISO_DIR"@, "isos"@)
        &&& binary_setting(env) == Ok::<Option<Seq<char>>, Seq<char>>(
            text::string_of(self.qemu_binary_override),
        )
        &&& positive_of(env, "QMP_MCP_MAX_DISK_GB"@, 64) == Ok::<u32, Seq<char>>(self.max_disk_gb)
        &&& positive_of(env, "QMP_MCP_MAX_MEMORY_MB"@, 4096) == Ok::<u32, Seq<char>>(
            self.max_memory_mb,
        )
        &&& positive_of(env, "QMP_MCP_MAX_VCPUS"@, 2) == Ok::<u32, Seq<char>>(self.max_vcpus)
        &&& hostfwd_range_of(env) == Ok::<PortRange, Seq<char>>(self.hostfwd_port_range)
        &&& flag_of(env, "QMP_MCP_ALLOW_HOST_NET"@) == Ok::<bool, Seq<char>>(self.allow_host_net)
        &&& flag_of(env, "QMP_MCP_AUTO_START"@) == Ok::<bool, Seq<char>>(self.auto_start)
        &&& positive_of(env, "QMP_MCP_EVENT_BUFFER_SIZE"@, DEFAULT_EVENT_BUFFER_SIZE) == Ok::<
            u32,
            Seq<char>,
        >(self.event_buffer_size)
        &&& flag_of(env, "QMP_MCP_ALLOW_RAW_ARGS"@) == Ok::<bool, Seq<char>>(self.allow_raw_args)
        &&& text::string_of(self.viewer_password) == secret_setting(
            env,
            "QMP_MCP_VIEWER_PASSWORD"@,
        )
        &&& self.viewer_host@ == string_setting(lookup(env, "QMP_MCP_VIEWER_HOST"@), "127.0.0.1"@)
        &&& port_of(env, "QMP_MCP_VIEWER_PORT"@, 6080) == Ok::<u16, Seq<char>>(self.viewer_port)
    }

    /// The HTTP transport is off, guarded by a configured credential, or opened on purpose.
    pub open spec fn is_guarded(self) -> bool {
        ||| self.transport == TransportMode::Stdio
        ||| self.allow_insecure
        ||| self.auth_mode == AuthMode::ApiKey && self.api_keys@.len() > 0
        ||| self.auth_mode == AuthMode::Jwt && self.jwt_secret is Some
    }
}

/// Build a validated [`Config`] from an environment. Returns a [`ConfigError`] on any
/// invalid value, and when the HTTP transport is selected without configured auth and
/// without an explicit insecure override.
pub fn load_config(env: &EnvMap) -> (r: Result<Config, ConfigError>)
    ensures
        match r {
            Ok(c) => config_error(env@) is None && c.reads(env@) && c.is_guarded(),
            Err(e) => config_error(env@) == Some(e.0@),
        },
{
    broadcast use text::group_texts;

    let transport = match parse_enum(
        "QMP_MCP_TRANSPORT",
        env.get("QMP_MCP_TRANSPORT"),
        TRANSPORT_ALLOWED,
        TransportMode::Stdio,
        TransportMode::parse,
        Ghost(|s: Seq<char>| TransportMode::named(s)),
    ) {
        Ok(t) => t,
        Err(e) => return Err(e),
    };
    let log_level = match parse_enum(
        "QMP_MCP_LOG_LEVEL",
        env.get("QMP_MCP_LOG_LEVEL"),
        LOG_LEVEL_ALLOWED,
        LogLevel::Info,
        LogLevel::parse,
        Ghost(|s: Seq<char>| LogLevel::named(s)),
    ) {
        Ok(t) => t,
        Err(e) => return Err(e),
    };
    let http_host = parse_string(env.get("QMP_MCP_HTTP_HOST"), "127.0.0.1");
    let http_port: u16 = match parse_port(
        "QMP_MCP_HTTP_PORT",
        env.get("QMP_MCP_HTTP_PORT"),
        8080,
    ) {
        Ok(p) => p,
        Err(e) => return Err(e),
    };
    let http_endpoint = parse_string(env.get("QMP_MCP_HTTP_ENDPOINT"), "/mcp");
    let auth_mode = match parse_enum(
        "QMP_MCP_AUTH",
        env.get("QMP_MCP_AUTH"),
        AUTH_ALLOWED,
        AuthMode::ApiKey,
        AuthMode::parse,
        Ghost(|s: Seq<char>| AuthMode::named(s)),
    ) {
        Ok(t) => t,
        Err(e) => return Err(e),
    };
    let api_keys = parse_list(env.get("QMP_MCP_API_KEYS"));
    let jwt_secret = present_non_blank(env, "QMP_MCP_JWT_SECRET");
    let allow_insecure = match parse_boolean(
        "QMP_MCP_ALLOW_INSECURE",
        env.get("QMP_MCP_ALLOW_INSECURE"),
        false,
    ) {
        Ok(b) => b,
        Err(e) => return Err(e),
    };

    let origin_override = parse_list(env.get("QMP_MCP_HTTP_ALLOWED_ORIGINS"));
    let allowed_origins = if origin_override.len() == 0 {
        let port = text::decimal_u64(http_port as u64);
        let mut origins: Vec<String> = Vec::new();
        origins.push(text::cat2("http://localhost:", port.as_str()));
        origins.push(text::cat2("http://127.0.0.1:", port.as_str()));
        assert(text::texts(origins@) =~= origins_of(env@, http_port));
        origins
    } else {
        origin_override
    };

    if transport.exposes_http() && !allow_insecure {
        if auth_mode == AuthMode::ApiKey && api_keys.len() == 0 {
            return Err(ConfigError(NO_API_KEYS.to_string()));
        }
        if auth_mode == AuthMode::Jwt && jwt_secret.is_none() {
            return Err(ConfigError(NO_JWT_SECRET.to_string()));
        }
    }
    assert(transport_error(env@) is None);

    let image_dir = resolve_image_dir(env);
    let iso_dir = resolve_iso_dir(env);
    let binary = match qemu_binary_override(env) {
        Ok(b) => b,
        Err(e) => return Err(e),
    };
    let max_disk_gb: u32 = match parse_positive_int(
        "QMP_MCP_MAX_DISK_GB",
        env.get("QMP_MCP_MAX_DISK_GB"),
        64,
    ) {
        Ok(n) => n,
        Err(e) => return Err(e),
    };
    let max_memory_mb: u32 = match parse_positive_int(
        "QMP_MCP_MAX_MEMORY_MB",
        env.get("QMP_MCP_MAX_MEMORY_MB"),
        4096,
    ) {
        Ok(n) => n,
        Err(e) => return Err(e),
    };
    let max_vcpus: u32 = match parse_positive_int(
        "QMP_MCP_MAX_VCPUS",
        env.get("QMP_MCP_MAX_VCPUS"),
        2,
    ) {
        Ok(n) => n,
        Err(e) => return Err(e),
    };
    let hostfwd_port_range = match parse_port_range(
        "QMP_MCP_HOSTFWD_PORT_RANGE",
        env.get("QMP_MCP_HOSTFWD_PORT_RANGE"),
        default_hostfwd_port_range(),
    ) {
        Ok(p) => p,
        Err(e) => return Err(e),
    };
    let allow_host_net = match parse_boolean(
        "QMP_MCP_ALLOW_HOST_NET",
        env.get("QMP_MCP_ALLOW_HOST_NET"),
        false,
    ) {
        Ok(b) => b,
        Err(e) => return Err(e),
    };
    let auto_start = match parse_boolean(
        "QMP_MCP_AUTO_START",
        env.get("QMP_MCP_AUTO_START"),
        false,
    ) {
        Ok(b) => b,
        Err(e) => return Err(e),
    };
    let event_buffer_size: u32 = match parse_positive_int(
        "QMP_MCP_EVENT_BUFFER_SIZE",
        env.get("QMP_MCP_EVENT_BUFFER_SIZE"),
        DEFAULT_EVENT_BUFFER_SIZE,
    ) {
        Ok(n) => n,
        Err(e) => return Err(e),
    };
    let allow_raw_args = match parse_boolean(
        "QMP_MCP_ALLOW_RAW_ARGS",
        env.get("QMP_MCP_ALLOW_RAW_ARGS"),
        false,
    ) {
        Ok(b) => b,
        Err(e) => return Err(e),
    };
    let viewer_password = present_non_blank(env, "QMP_MCP_VIEWER_PASSWORD");
    let viewer_host = parse_string(env.get("QMP_MCP_VIEWER_HOST"), "127.0.0.1");
    let viewer_port: u16 = match parse_port(
        "QMP_MCP_VIEWER_PORT",
        env.get("QMP_MCP_VIEWER_PORT"),
        6080,
    ) {
        Ok(p) => p,
        Err(e) => return Err(e),
    };
    Ok(
        Config {
            transport,
            log_level,
            http_host,
            http_port,
            http_endpoint,
            allowed_origins,
            auth_mode,
            api_keys,
            jwt_secret,
            allow_insecure,
            image_dir,
            iso_dir,
            qemu_binary_override: binary,
            max_disk_gb,
            max_memory_mb,
            max_vcpus,
            hostfwd_port_range,
            allow_host_net,
            auto_start,
            event_buffer_size,
            allow_raw_args,
            viewer_password,
            viewer_host,
            viewer_port,
        },
    )
}

// ---------------------------------------------------------------------------
// Laws
// ---------------------------------------------------------------------------

/// When neither store directory is set explicitly, the Image Store and the ISO Store are
/// different directories.
pub proof fn default_stores_are_separate(env: Map<Seq<char>, Seq<char>>)
    requires
        non_blank(env, "QMP_MCP_IMAGE_DIR"@) is None,
        non_blank(env, "QMP_MCP_ISO_DIR"@) is None,
    ensures
        store_dir(env, "QMP_MCP_IMAGE_DIR"@, "images"@) != store_dir(
            env,
            "QMP_MCP_ISO_DIR"@,
            "isos"@,
        ),
{
    reveal_strlit("images");
    reveal_strlit("isos");
    let images = store_dir(env, "QMP_MCP_IMAGE_DIR"@, "images"@);
    let isos = store_dir(env, "QMP_MCP_ISO_DIR"@, "isos"@);
    assert(images.len() == isos.len() + 2);
}

/// `path` is absolute.
pub open spec fn is_absolute(path: Seq<char>) -> bool {
    path.len() > 0 && path[0] == '/'
}

/// A setting is unset, blank, or holds an absolute path.
pub open spec fn absolute_if_set(env: Map<Seq<char>, Seq<char>>, name: Seq<char>) -> bool {
    non_blank(env, name) matches Some(path) ==> is_absolute(path)
}

proof fn lemma_stripped_stays_absolute(s: Seq<char>)
    requires
        is_absolute(s),
    ensures
        is_absolute(without_trailing_slashes(s)),
    decreases s.len(),
{
    if s.len() > 1 && s.last() == '/' {
        lemma_stripped_stays_absolute(s.drop_last());
    }
}

/// The temp dir is absolute whenever `TMPDIR` is, the root included.
pub proof fn temp_dirs_are_absolute(env: Map<Seq<char>, Seq<char>>)
    requires
        absolute_if_set(env, "TMPDIR"@),
    ensures
        is_absolute(temp_dir_of(env)),
{
    reveal_strlit("/tmp");
    match non_blank(env, "TMPDIR"@) {
        Some(t) => lemma_stripped_stays_absolute(t),
        None => {},
    }
}

/// The store directories are absolute whenever the settings that they come from are.
pub proof fn store_dirs_are_absolute(
    env: Map<Seq<char>, Seq<char>>,
    var: Seq<char>,
    leaf: Seq<char>,
)
    requires
        absolute_if_set(env, var),
        absolute_if_set(env, "XDG_DATA_HOME"@),
        absolute_if_set(env, "HOME"@),
        absolute_if_set(env, "TMPDIR"@),
    ensures
        is_absolute(store_dir(env, var, leaf)),
{
    temp_dirs_are_absolute(env);
}

/// A default configuration, one from an environment that binds nothing, is valid and stays
/// off the network.
pub proof fn empty_environment_is_valid(env: Map<Seq<char>, Seq<char>>)
    requires
        env == Map::<Seq<char>, Seq<char>>::empty(),
    ensures
        config_error(env) is None,
        transport_of(env) == Ok::<TransportMode, Seq<char>>(TransportMode::Stdio),
{
}

/// A variable has a value exactly where it is bound, and then that which it is bound to.
pub proof fn lookups_give_the_binding(env: Map<Seq<char>, Seq<char>>, name: Seq<char>)
    ensures
        lookup(env, name) is Some <==> env.dom().contains(name),
        lookup(env, name) matches Some(v) ==> v == env[name],
{
}

/// What is said of a parse is all that it gives: its value, or the text of its error.
pub proof fn parses_are_seen_whole<T>(r: Result<T, ConfigError>, s: Result<T, Seq<char>>)
    ensures
        agrees(r, s) <==> (r is Ok && s is Ok && r->Ok_0 == s->Ok_0) || (r is Err && s is Err
            && r->Err_0.0@ == s->Err_0),
{
}

/// An enum setting takes the value whose name it holds in any letter case, and the default where
/// it is unset or empty. Nothing else is accepted.
pub proof fn choices_are_made_by_name(env: Map<Seq<char>, Seq<char>>)
    ensures
        ({
            let v = env["QMP_MCP_TRANSPORT"@];
            let l = text::lowercase(v);
            let set = env.contains_key("QMP_MCP_TRANSPORT"@) && v.len() > 0;
            let r = transport_of(env);
            &&& r == Ok::<TransportMode, Seq<char>>(TransportMode::Stdio) <==> !set || l == "stdio"@
            &&& r == Ok::<TransportMode, Seq<char>>(TransportMode::Http) <==> set && l == "http"@
            &&& r == Ok::<TransportMode, Seq<char>>(TransportMode::Both) <==> set && l == "both"@
            &&& r matches Err(m) ==> m == "QMP_MCP_TRANSPORT"@ + " must be one of: "@
                + "stdio, http, both"@ + " (got \""@ + v + "\")."@
        }),
        ({
            let v = env["QMP_MCP_LOG_LEVEL"@];
            let l = text::lowercase(v);
            let set = env.contains_key("QMP_MCP_LOG_LEVEL"@) && v.len() > 0;
            let r = log_level_of(env);
            &&& r == Ok::<LogLevel, Seq<char>>(LogLevel::Info) <==> !set || l == "info"@
            &&& r == Ok::<LogLevel, Seq<char>>(LogLevel::Debug) <==> set && l == "debug"@
            &&& r == Ok::<LogLevel, Seq<char>>(LogLevel::Warning) <==> set && l == "warning"@
            &&& r == Ok::<LogLevel, Seq<char>>(LogLevel::Error) <==> set && l == "error"@
            &&& r matches Err(m) ==> m == "QMP_MCP_LOG_LEVEL"@ + " must be one of: "@
                + "debug, info, warning, error"@ + " (got \""@ + v + "\")."@
        }),
        ({
            let v = env["QMP_MCP_AUTH"@];
            let l = text::lowercase(v);
            let set = env.contains_key("QMP_MCP_AUTH"@) && v.len() > 0;
            let r = auth_mode_of(env);
            &&& r == Ok::<AuthMode, Seq<char>>(AuthMode::ApiKey) <==> !set || l == "apikey"@
            &&& r == Ok::<AuthMode, Seq<char>>(AuthMode::Jwt) <==> set && l == "jwt"@
            &&& r matches Err(m) ==> m == "QMP_MCP_AUTH"@ + " must be one of: "@ + "apikey, jwt"@
                + " (got \""@ + v + "\")."@
        }),
{
    reveal_strlit("stdio");
    reveal_strlit("http");
    reveal_strlit("both");
    reveal_strlit("debug");
    reveal_strlit("info");
    reveal_strlit("warning");
    reveal_strlit("error");
    reveal_strlit("apikey");
    reveal_strlit("jwt");
    assert("stdio"@.len() == 5 && "http"@.len() == 4 && "both"@.len() == 4);
    assert("http"@[0] == 'h' && "both"@[0] == 'b');
    assert("debug"@.len() == 5 && "info"@.len() == 4 && "warning"@.len() == 7 && "error"@.len()
        == 5);
    assert("debug"@[0] == 'd' && "error"@[0] == 'e');
    assert("apikey"@.len() == 6 && "jwt"@.len() == 3);
}

/// `t` is written in decimal digits alone.
pub open spec fn in_digits(t: Seq<char>) -> bool {
    t.len() > 0 && forall|i: int| 0 <= i < t.len() ==> '0' <= #[trigger] t[i] && t[i] <= '9'
}

/// A port setting is read exactly where it is unset, blank, or in digits a number from 1 to
/// 65535, padding aside, and the port is then that number. So every port can be set, and each as
/// it is written.
pub proof fn ports_are_read_as_written(var: Seq<char>, raw: Option<Seq<char>>, fallback: u16, n: u16)
    ensures
        raw is None || text::is_blank(raw->0) ==> port_setting(var, raw, fallback) == Ok::<
            u16,
            Seq<char>,
        >(fallback),
        raw matches Some(v) ==> !text::is_blank(v) ==> (port_setting(var, raw, fallback) == Ok::<
            u16,
            Seq<char>,
        >(n) <==> in_digits(text::trimmed(v)) && text::digits_value(text::trimmed(v)) == n && n
            >= 1),
        raw matches Some(v) ==> !text::is_blank(v) ==> (port_setting(var, raw, fallback) is Err <==> !(
        in_digits(text::trimmed(v)) && 1 <= text::digits_value(text::trimmed(v)) <= 65535)),
        raw matches Some(v) ==> (port_setting(var, raw, fallback) matches Err(m) ==> m == var
            + " must be an integer port in 1..65535 (got \""@ + text::trimmed(v) + "\")."@),
        n >= 1 ==> port_setting(var, Some(text::decimal(n as nat)), fallback) == Ok::<
            u16,
            Seq<char>,
        >(n),
{
    if let Some(v) = raw {
        text::lemma_blank_empty(v);
        text::digits_only(text::trimmed(v));
    }
    lemma_decimal_is_unpadded(n as nat);
    text::decimal_reads_back(n as nat);
}

/// A number as it is written has nothing to trim.
proof fn lemma_decimal_is_unpadded(n: nat)
    ensures
        text::trimmed(text::decimal(n)) == text::decimal(n),
        !text::is_blank(text::decimal(n)),
        text::decimal(n).len() > 0,
{
    text::decimal_reads_back(n);
    let s = text::decimal(n);
    text::digits_only(s);
    text::lemma_blank_empty(s);
    let cut = text::trimming_takes_white_space_only(s);
    assert(!text::is_white_space(s[0]) && !text::is_white_space(s[s.len() - 1]));
    assert(cut.0 == 0) by {
        if cut.0 > 0 {
            assert(text::is_white_space(s[0]));
        }
    }
    assert(cut.1 == s.len()) by {
        if cut.1 < s.len() {
            assert(text::is_white_space(s[s.len() - 1]));
        }
    }
    assert(s.subrange(0, s.len() as int) =~= s);
}

/// A positive setting is read exactly where it is unset, blank, or in digits a number from 1 on
/// that fits, padding aside, and its value is then that number.
pub proof fn positive_numbers_are_read_as_written(
    var: Seq<char>,
    raw: Option<Seq<char>>,
    fallback: u32,
    n: u32,
)
    ensures
        raw is None || text::is_blank(raw->0) ==> positive_setting(var, raw, fallback) == Ok::<
            u32,
            Seq<char>,
        >(fallback),
        raw matches Some(v) ==> !text::is_blank(v) ==> (positive_setting(var, raw, fallback)
            == Ok::<u32, Seq<char>>(n) <==> in_digits(text::trimmed(v)) && text::digits_value(
            text::trimmed(v),
        ) == n && n >= 1),
        raw matches Some(v) ==> !text::is_blank(v) ==> (positive_setting(var, raw, fallback) is Err
            <==> !(in_digits(text::trimmed(v)) && 1 <= text::digits_value(text::trimmed(v))
            <= u32::MAX)),
        raw matches Some(v) ==> (positive_setting(var, raw, fallback) matches Err(m) ==> m == var
            + " must be a positive integer >= 1 (got \""@ + text::trimmed(v) + "\")."@),
        n >= 1 ==> positive_setting(var, Some(text::decimal(n as nat)), fallback) == Ok::<
            u32,
            Seq<char>,
        >(n),
{
    if let Some(v) = raw {
        text::lemma_blank_empty(v);
        text::digits_only(text::trimmed(v));
    }
    lemma_decimal_is_unpadded(n as nat);
    text::decimal_reads_back(n as nat);
}

/// A flag is on exactly where it says `true`, off exactly where it says `false`, padding and
/// letter case aside, and has its default where it is unset or empty. Nothing else is accepted.
pub proof fn flags_say_true_or_false(var: Seq<char>, raw: Option<Seq<char>>, fallback: bool, b: bool)
    ensures
        raw is None || raw->0.len() == 0 ==> boolean_setting(var, raw, fallback) == Ok::<
            bool,
            Seq<char>,
        >(fallback),
        raw matches Some(v) ==> v.len() > 0 ==> (boolean_setting(var, raw, fallback) == Ok::<
            bool,
            Seq<char>,
        >(b) <==> text::lowercase(text::trimmed(v)) == (if b {
            "true"@
        } else {
            "false"@
        })),
        raw matches Some(v) ==> (boolean_setting(var, raw, fallback) matches Err(m) ==> m == var
            + " must be \"true\" or \"false\" (got \""@ + v + "\")."@),
{
    reveal_strlit("true");
    reveal_strlit("false");
    assert("true"@.len() == 4 && "false"@.len() == 5);
}

/// A range setting is read exactly where it is unset, blank, or two ports in digits with a dash
/// between them and the lower one first, and the range is then from the one to the other. So
/// every range can be set, and each as it is written.
pub proof fn ranges_are_read_as_written(
    var: Seq<char>,
    raw: Option<Seq<char>>,
    fallback: PortRange,
    low: u16,
    high: u16,
)
    ensures
        raw is None || text::is_blank(raw->0) ==> port_range_setting(var, raw, fallback) == Ok::<
            PortRange,
            Seq<char>,
        >(fallback),
        raw matches Some(v) ==> !text::is_blank(v) ==> match port_range_setting(
            var,
            raw,
            fallback,
        ) {
            Ok(r) => 1 <= r.low <= r.high && exists|a: Seq<char>, b: Seq<char>|
                in_digits(a) && in_digits(b) && #[trigger] text::digits_value(a) == r.low
                    && #[trigger] text::digits_value(b) == r.high && v == a + seq!['-'] + b,
            Err(m) => m == var
                + " must be a host-port range \"LOW-HIGH\" with 1 <= LOW <= HIGH <= 65535 (got \""@
                + v + "\")."@,
        },
        1 <= low <= high ==> port_range_setting(
            var,
            Some(text::decimal(low as nat) + seq!['-'] + text::decimal(high as nat)),
            fallback,
        ) == Ok::<PortRange, Seq<char>>(PortRange { low, high }),
        !(1 <= low <= high) ==> port_range_setting(
            var,
            Some(text::decimal(low as nat) + seq!['-'] + text::decimal(high as nat)),
            fallback,
        ) is Err,
{
    if let Some(v) = raw {
        if !text::is_blank(v) && port_range_setting(var, raw, fallback) is Ok {
            let i = choose|i: int| dash_at(v, i);
            let a = v.take(i);
            let b = v.skip(i + 1);
            text::digits_only(a);
            text::digits_only(b);
            assert(v =~= a + seq!['-'] + b);
        }
    }
    let a = text::decimal(low as nat);
    let b = text::decimal(high as nat);
    let v = a + seq!['-'] + b;
    text::decimal_reads_back(low as nat);
    text::decimal_reads_back(high as nat);
    text::digits_only(a);
    text::digits_only(b);
    let n = a.len() as int;
    assert(v[n] == '-');
    assert forall|j: int| 0 <= j < n implies v[j] != '-' by {
        assert(v[j] == a[j]);
    }
    assert(dash_at(v, n));
    let i = choose|i: int| dash_at(v, i);
    assert(i == n) by {
        if i < n {
            assert(v[i] != '-');
        }
        if n < i {
            assert(v[n] != '-');
        }
    }
    assert(v.take(n) =~= a);
    assert(v.skip(n + 1) =~= b);
    assert(!text::is_blank(v)) by {
        text::trimming_takes_white_space_only(v);
        assert(!text::is_white_space(v[n]));
    }
}

/// A plain setting is its trimmed value, or the default where it is unset or blank. A path is
/// there only where it is set and not blank, and a secret is then kept as it is, padding
/// included.
pub proof fn blank_settings_count_as_unset(
    env: Map<Seq<char>, Seq<char>>,
    name: Seq<char>,
    fallback: Seq<char>,
)
    ensures
        ({
            let v = env[name];
            let set = env.contains_key(name) && exists|i: int|
                0 <= i < v.len() && !text::is_white_space(#[trigger] v[i]);
            &&& string_setting(lookup(env, name), fallback) == if set {
                text::trimmed(v)
            } else {
                fallback
            }
            &&& non_blank(env, name) == if set {
                Some(text::trimmed(v))
            } else {
                None
            }
            &&& secret_setting(env, name) == if set {
                Some(v)
            } else {
                None
            }
        }),
        list_setting(lookup(env, name)) == if env.contains_key(name) {
            text::comma_list(env[name])
        } else {
            Seq::empty()
        },
{
    if env.contains_key(name) {
        text::trimming_takes_white_space_only(env[name]);
    }
}

/// Two parts of a path are joined by exactly one slash, and nothing of either is lost.
pub proof fn joined_paths_keep_both_parts(base: Seq<char>, part: Seq<char>)
    ensures
        path_join(base, part).len() >= base.len() + part.len(),
        path_join(base, part).take(base.len() as int) == base,
        path_join(base, part).skip(path_join(base, part).len() - part.len()) == part,
        base.len() > 0 && base.last() == '/' || base.len() == 0 ==> path_join(base, part).len()
            == base.len() + part.len(),
        base.len() > 0 && base.last() != '/' ==> path_join(base, part).len() == base.len()
            + part.len() + 1 && path_join(base, part)[base.len() as int] == '/',
{
    reveal_strlit("/");
    assert(path_join(base, part).take(base.len() as int) =~= base);
    assert(path_join(base, part).skip(path_join(base, part).len() - part.len()) =~= part);
}

/// The temp dir is `TMPDIR` without the slashes at its end, except that the root stays the root,
/// and `/tmp` where that is not set.
pub proof fn temp_dirs_lose_trailing_slashes(env: Map<Seq<char>, Seq<char>>, s: Seq<char>)
    ensures
        non_blank(env, "TMPDIR"@) is None ==> temp_dir_of(env) == "/tmp"@,
        non_blank(env, "TMPDIR"@) matches Some(t) ==> temp_dir_of(env)
            == without_trailing_slashes(t),
        s.len() > 0 ==> ({
            let r = without_trailing_slashes(s);
            &&& 1 <= r.len() <= s.len()
            &&& r == s.take(r.len() as int)
            &&& r.len() > 1 ==> r.last() != '/'
            &&& forall|i: int| r.len() <= i < s.len() ==> #[trigger] s[i] == '/'
        }),
    decreases s.len(),
{
    if s.len() > 1 && s.last() == '/' {
        temp_dirs_lose_trailing_slashes(env, s.drop_last());
        let r = without_trailing_slashes(s);
        assert(s.take(r.len() as int) =~= s.drop_last().take(r.len() as int));
        assert forall|i: int| r.len() <= i < s.len() implies #[trigger] s[i] == '/' by {
            if i < s.len() - 1 {
                assert(s.drop_last()[i] == s[i]);
            }
        }
    } else {
        assert(s.take(s.len() as int) =~= s);
    }
}

/// A store is the directory that its own setting names. Where that is not set it is a directory
/// of its own below the data directory of the user, and below the temp dir where the user has
/// none.
pub proof fn stores_are_found_in_order(
    env: Map<Seq<char>, Seq<char>>,
    var: Seq<char>,
    leaf: Seq<char>,
)
    ensures
        ({
            let own = non_blank(env, var);
            let xdg = non_blank(env, "XDG_DATA_HOME"@);
            let home = non_blank(env, "HOME"@);
            let below = |dir: Seq<char>| path_join(path_join(dir, "qmp-mcp"@), leaf);
            &&& own matches Some(dir) ==> store_dir(env, var, leaf) == dir
            &&& own is None && xdg is Some ==> store_dir(env, var, leaf) == below(xdg->0)
            &&& own is None && xdg is None && home is Some ==> store_dir(env, var, leaf) == below(
                path_join(path_join(home->0, ".local"@), "share"@),
            )
            &&& own is None && xdg is None && home is None ==> store_dir(env, var, leaf) == below(
                temp_dir_of(env),
            )
        }),
{
}

/// `c` can stand in the name or path of a binary.
pub open spec fn in_binary_names(c: char) -> bool {
    ('0' <= c && c <= '9') || ('A' <= c && c <= 'Z') || ('a' <= c && c <= 'z') || c == '.' || c
        == '_' || c == '/' || c == '+' || c == '-'
}

/// A binary that is set is accepted exactly where it is made of harmless characters and either
/// has no slash or begins with one, and it is then what was set, padding aside.
pub proof fn binaries_are_bare_or_absolute(env: Map<Seq<char>, Seq<char>>)
    ensures
        match non_blank(env, "QMP_MCP_QEMU_BINARY"@) {
            None => binary_setting(env) == Ok::<Option<Seq<char>>, Seq<char>>(None),
            Some(v) => {
                let fine = (forall|i: int| 0 <= i < v.len() ==> in_binary_names(#[trigger] v[i]))
                    && (v[0] == '/' || forall|i: int| 0 <= i < v.len() ==> #[trigger] v[i] != '/');
                &&& fine ==> binary_setting(env) == Ok::<Option<Seq<char>>, Seq<char>>(Some(v))
                &&& !fine ==> binary_setting(env) == Err::<Option<Seq<char>>, Seq<char>>(
                    binary_error(v),
                )
            },
        },
{
    if let Some(v) = non_blank(env, "QMP_MCP_QEMU_BINARY"@) {
        assert forall|c: char| #[trigger] in_binary_names(c) == is_binary_char(c) by {
            text::character_classes(c);
        }
        if forall|i: int| 0 <= i < v.len() ==> in_binary_names(#[trigger] v[i]) {
            assert forall|i: int| 0 <= i < v.len() implies is_binary_char(#[trigger] v[i]) by {
                assert(in_binary_names(v[i]));
            }
        }
        if is_safe_binary(v) {
            assert forall|i: int| 0 <= i < v.len() implies in_binary_names(#[trigger] v[i]) by {
                assert(is_binary_char(v[i]));
                assert(in_binary_names(v[i]) == is_binary_char(v[i]));
            }
        }
    }
}

/// The allowed origins are those that are listed, or the two local ones at the port where none
/// is.
pub proof fn origins_default_to_the_local_ones(env: Map<Seq<char>, Seq<char>>, port: u16)
    ensures
        ({
            let listed = list_setting(lookup(env, "QMP_MCP_HTTP_ALLOWED_ORIGINS"@));
            &&& listed.len() > 0 ==> origins_of(env, port) == listed
            &&& listed.len() == 0 ==> origins_of(env, port).len() == 2 && origins_of(env, port)[0]
                == "http://localhost:"@ + text::decimal(port as nat) && origins_of(env, port)[1]
                == "http://127.0.0.1:"@ + text::decimal(port as nat)
        }),
{
}

/// Where HTTP is exposed and insecure use is not asked for, the chosen provider has what it
/// checks against, or the configuration is refused with the setting that is missing.
pub proof fn exposed_servers_need_credentials(
    transport: TransportMode,
    auth_mode: AuthMode,
    allow_insecure: bool,
    api_keys: nat,
    has_secret: bool,
)
    ensures
        ({
            let missing = missing_credentials(
                transport,
                auth_mode,
                allow_insecure,
                api_keys,
                has_secret,
            );
            let exposed = !allow_insecure && (transport == TransportMode::Http || transport
                == TransportMode::Both);
            &&& exposed && auth_mode == AuthMode::ApiKey && api_keys == 0 ==> missing == Some(
                NO_API_KEYS@,
            )
            &&& exposed && auth_mode == AuthMode::Jwt && !has_secret ==> missing == Some(
                NO_JWT_SECRET@,
            )
            &&& missing is Some ==> exposed && (auth_mode == AuthMode::ApiKey && api_keys == 0
                || auth_mode == AuthMode::Jwt && !has_secret)
        }),
{
}

/// What each setting is refused with, in the order in which the settings are read.
pub open spec fn refusals(env: Map<Seq<char>, Seq<char>>) -> Seq<Option<Seq<char>>> {
    seq![
        failure(transport_of(env)),
        failure(log_level_of(env)),
        failure(port_setting("QMP_MCP_HTTP_PORT"@, lookup(env, "QMP_MCP_HTTP_PORT"@), 8080)),
        failure(auth_mode_of(env)),
        failure(
            boolean_setting(
                "QMP_MCP_ALLOW_INSECURE"@,
                lookup(env, "QMP_MCP_ALLOW_INSECURE"@),
                false,
            ),
        ),
        missing_credentials(
            transport_of(env)->Ok_0,
            auth_mode_of(env)->Ok_0,
            flag_of(env, "QMP_MCP_ALLOW_INSECURE"@)->Ok_0,
            list_setting(lookup(env, "QMP_MCP_API_KEYS"@)).len(),
            secret_setting(env, "QMP_MCP_JWT_SECRET"@) is Some,
        ),
        failure(binary_setting(env)),
        failure(positive_setting("QMP_MCP_MAX_DISK_GB"@, lookup(env, "QMP_MCP_MAX_DISK_GB"@), 64)),
        failure(
            positive_setting("QMP_MCP_MAX_MEMORY_MB"@, lookup(env, "QMP_MCP_MAX_MEMORY_MB"@), 4096),
        ),
        failure(positive_setting("QMP_MCP_MAX_VCPUS"@, lookup(env, "QMP_MCP_MAX_VCPUS"@), 2)),
        failure(hostfwd_range_of(env)),
        failure(
            boolean_setting(
                "QMP_MCP_ALLOW_HOST_NET"@,
                lookup(env, "QMP_MCP_ALLOW_HOST_NET"@),
                false,
            ),
        ),
        failure(
            boolean_setting("QMP_MCP_AUTO_START"@, lookup(env, "QMP_MCP_AUTO_START"@), false),
        ),
        failure(
            positive_setting(
                "QMP_MCP_EVENT_BUFFER_SIZE"@,
                lookup(env, "QMP_MCP_EVENT_BUFFER_SIZE"@),
                256,
            ),
        ),
        failure(
            boolean_setting(
                "QMP_MCP_ALLOW_RAW_ARGS"@,
                lookup(env, "QMP_MCP_ALLOW_RAW_ARGS"@),
                false,
            ),
        ),
        failure(port_setting("QMP_MCP_VIEWER_PORT"@, lookup(env, "QMP_MCP_VIEWER_PORT"@), 6080)),
    ]
}

/// A configuration is refused exactly where some setting is, and with what the first such
/// setting is refused with.
pub proof fn the_first_bad_setting_is_reported(env: Map<Seq<char>, Seq<char>>, k: int)
    ensures
        config_error(env) is None <==> forall|i: int|
            0 <= i < refusals(env).len() ==> #[trigger] refusals(env)[i] is None,
        0 <= k < refusals(env).len() && refusals(env)[k] is Some && (forall|i: int|
            0 <= i < k ==> #[trigger] refusals(env)[i] is None) ==> config_error(env) == refusals(
            env,
        )[k],
        forall|r: Result<int, Seq<char>>| (#[trigger] failure(r) is Some <==> r is Err) && (r is Err
            ==> failure(r)->0 == r->Err_0),
{
    let all = refusals(env);
    assert(all.len() == 16);
    if forall|i: int| 0 <= i < 16 ==> #[trigger] all[i] is None {
        assert(all[0] is None && all[1] is None && all[2] is None && all[3] is None && all[4]
            is None && all[5] is None && all[6] is None && all[7] is None && all[8] is None
            && all[9] is None && all[10] is None && all[11] is None && all[12] is None && all[13]
            is None && all[14] is None && all[15] is None);
    }
    if 0 <= k < all.len() && all[k] is Some && (forall|i: int|
        0 <= i < k ==> #[trigger] all[i] is None) {
        assert(k > 0 ==> all[0] is None);
        assert(k > 1 ==> all[1] is None);
        assert(k > 2 ==> all[2] is None);
        assert(k > 3 ==> all[3] is None);
        assert(k > 4 ==> all[4] is None);
        assert(k > 5 ==> all[5] is None);
        assert(k > 6 ==> all[6] is None);
        assert(k > 7 ==> all[7] is None);
        assert(k > 8 ==> all[8] is None);
        assert(k > 9 ==> all[9] is None);
        assert(k > 10 ==> all[10] is None);
        assert(k > 11 ==> all[11] is None);
        assert(k > 12 ==> all[12] is None);
        assert(k > 13 ==> all[13] is None);
        assert(k > 14 ==> all[14] is None);
    }
}

/// Each field of a configuration is the value of the setting of its name, or its own default.
pub proof fn fields_are_what_their_settings_say(c: Config, env: Map<Seq<char>, Seq<char>>)
    requires
        c.reads(env),
    ensures
        c.http_host@ == (match non_blank(env, "QMP_MCP_HTTP_HOST"@) {
            Some(v) => v,
            None => "127.0.0.1"@,
        }),
        c.viewer_host@ == (match non_blank(env, "QMP_MCP_VIEWER_HOST"@) {
            Some(v) => v,
            None => "127.0.0.1"@,
        }),
        c.http_endpoint@ == (match non_blank(env, "QMP_MCP_HTTP_ENDPOINT"@) {
            Some(v) => v,
            None => "/mcp"@,
        }),
        port_setting("QMP_MCP_HTTP_PORT"@, lookup(env, "QMP_MCP_HTTP_PORT"@), 8080) == Ok::<
            u16,
            Seq<char>,
        >(c.http_port),
        port_setting("QMP_MCP_VIEWER_PORT"@, lookup(env, "QMP_MCP_VIEWER_PORT"@), 6080) == Ok::<
            u16,
            Seq<char>,
        >(c.viewer_port),
        transport_of(env) == Ok::<TransportMode, Seq<char>>(c.transport),
        log_level_of(env) == Ok::<LogLevel, Seq<char>>(c.log_level),
        auth_mode_of(env) == Ok::<AuthMode, Seq<char>>(c.auth_mode),
        c.allowed_origins@.len() == origins_of(env, c.http_port).len(),
        forall|i: int|
            0 <= i < c.allowed_origins@.len() ==> (#[trigger] c.allowed_origins@[i])@
                == origins_of(env, c.http_port)[i],
        c.api_keys@.len() == list_setting(lookup(env, "QMP_MCP_API_KEYS"@)).len(),
        forall|i: int|
            0 <= i < c.api_keys@.len() ==> (#[trigger] c.api_keys@[i])@ == list_setting(
                lookup(env, "QMP_MCP_API_KEYS"@),
            )[i],
        c.jwt_secret is Some <==> secret_setting(env, "QMP_MCP_JWT_SECRET"@) is Some,
        c.jwt_secret matches Some(s) ==> s@ == secret_setting(env, "QMP_MCP_JWT_SECRET"@)->0,
        c.viewer_password is Some <==> secret_setting(env, "QMP_MCP_VIEWER_PASSWORD"@) is Some,
        c.viewer_password matches Some(s) ==> s@ == secret_setting(
            env,
            "QMP_MCP_VIEWER_PASSWORD"@,
        )->0,
        boolean_setting(
            "QMP_MCP_ALLOW_INSECURE"@,
            lookup(env, "QMP_MCP_ALLOW_INSECURE"@),
            false,
        ) == Ok::<bool, Seq<char>>(c.allow_insecure),
        boolean_setting(
            "QMP_MCP_ALLOW_HOST_NET"@,
            lookup(env, "QMP_MCP_ALLOW_HOST_NET"@),
            false,
        ) == Ok::<bool, Seq<char>>(c.allow_host_net),
        boolean_setting("QMP_MCP_AUTO_START"@, lookup(env, "QMP_MCP_AUTO_START"@), false) == Ok::<
            bool,
            Seq<char>,
        >(c.auto_start),
        boolean_setting(
            "QMP_MCP_ALLOW_RAW_ARGS"@,
            lookup(env, "QMP_MCP_ALLOW_RAW_ARGS"@),
            false,
        ) == Ok::<bool, Seq<char>>(c.allow_raw_args),
        c.image_dir@ == store_dir(env, "QMP_MCP_IMAGE_DIR"@, "images"@),
        c.iso_dir@ == store_dir(env, "QMP_MCP_ISO_DIR"@, "isos"@),
        c.qemu_binary_override is None <==> non_blank(env, "QMP_MCP_QEMU_BINARY"@) is None,
        c.qemu_binary_override matches Some(b) ==> Some(b@) == non_blank(
            env,
            "QMP_MCP_QEMU_BINARY"@,
        ),
        positive_setting("QMP_MCP_MAX_DISK_GB"@, lookup(env, "QMP_MCP_MAX_DISK_GB"@), 64) == Ok::<
            u32,
            Seq<char>,
        >(c.max_disk_gb),
        positive_setting("QMP_MCP_MAX_MEMORY_MB"@, lookup(env, "QMP_MCP_MAX_MEMORY_MB"@), 4096)
            == Ok::<u32, Seq<char>>(c.max_memory_mb),
        positive_setting("QMP_MCP_MAX_VCPUS"@, lookup(env, "QMP_MCP_MAX_VCPUS"@), 2) == Ok::<
            u32,
            Seq<char>,
        >(c.max_vcpus),
        positive_setting(
            "QMP_MCP_EVENT_BUFFER_SIZE"@,
            lookup(env, "QMP_MCP_EVENT_BUFFER_SIZE"@),
            256,
        ) == Ok::<u32, Seq<char>>(c.event_buffer_size),
        port_range_setting(
            "QMP_MCP_HOSTFWD_PORT_RANGE"@,
            lookup(env, "QMP_MCP_HOSTFWD_PORT_RANGE"@),
            (PortRange { low: 1024, high: 65535 }),
        ) == Ok::<PortRange, Seq<char>>(c.hostfwd_port_range),
{
    let keys = list_setting(lookup(env, "QMP_MCP_API_KEYS"@));
    let origins = origins_of(env, c.http_port);
    assert(text::texts(c.api_keys@).len() == c.api_keys@.len());
    assert(text::texts(c.allowed_origins@).len() == c.allowed_origins@.len());
    assert forall|i: int| 0 <= i < c.api_keys@.len() implies (#[trigger] c.api_keys@[i])@
        == keys[i] by {
        assert(text::texts(c.api_keys@)[i] == c.api_keys@[i]@);
    }
    assert forall|i: int| 0 <= i < c.allowed_origins@.len() implies (
    #[trigger] c.allowed_origins@[i])@ == origins[i] by {
        assert(text::texts(c.allowed_origins@)[i] == c.allowed_origins@[i]@);
    }
}

/// A server is guarded exactly where it stays off the network, or its operator opted out, or the
/// chosen provider has what it checks against. So a configuration that is accepted is guarded.
pub proof fn guarded_servers_have_credentials(c: Config, env: Map<Seq<char>, Seq<char>>)
    ensures
        c.is_guarded() <==> c.transport == TransportMode::Stdio || c.allow_insecure || (c.auth_mode
            == AuthMode::ApiKey && c.api_keys@.len() > 0) || (c.auth_mode == AuthMode::Jwt
            && c.jwt_secret is Some),
        c.reads(env) && config_error(env) is None ==> c.is_guarded(),
{
    if c.reads(env) && config_error(env) is None {
        assert(text::texts(c.api_keys@).len() == c.api_keys@.len());
    }
}

} // verus!
