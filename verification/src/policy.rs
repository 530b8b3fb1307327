//! The Command Policy: decides whether the generic `qmp_execute` tool may run a given QMP
//! command name.
//!
//! Three layers, in strict precedence: an immutable hard denylist that no override can lift,
//! the operator's deny and allow overrides, and a curated default allowlist. Everything else
//! is denied. The policy gates command names, not arguments: a command whose arguments could
//! be dangerous, such as `screendump`, is not on the default allowlist.

use vstd::prelude::*;

use crate::config;
use crate::config::EnvMap;
use crate::text;

verus! {

/// The commands that are never permitted, whatever the overrides say. Each of them can leak
/// guest or host memory, read or write host files, open host resources, or run arbitrary
/// monitor commands.
pub const HARD_DENYLIST: [&'static str; 37] = [
    "human-monitor-command",
    "migrate",
    "migrate-incoming",
    "migrate-set-parameters",
    "migrate-set-capabilities",
    "migrate-recover",
    "migrate-continue",
    "migrate-pause",
    "migrate-start-postcopy",
    "xen-save-devices-state",
    "xen-load-devices-state",
    "dump-guest-memory",
    "pmemsave",
    "memsave",
    "object-add",
    "blockdev-add",
    "device_add",
    "netdev_add",
    "chardev-add",
    "chardev-change",
    "qom-set",
    "getfd",
    "add-fd",
    "drive-backup",
    "blockdev-backup",
    "drive-mirror",
    "blockdev-mirror",
    "blockdev-create",
    "block-export-add",
    "nbd-server-start",
    "nbd-server-add",
    "block-commit",
    "block-stream",
    "block_resize",
    "blockdev-snapshot",
    "blockdev-snapshot-sync",
    "blockdev-snapshot-internal-sync",
];

/// The commands allowed by default: queries, and the few control commands that are also
/// exposed as tools of their own.
pub const DEFAULT_ALLOWLIST: [&'static str; 30] = [
    "query-status",
    "query-version",
    "query-name",
    "query-uuid",
    "query-kvm",
    "query-target",
    "query-cpus-fast",
    "query-cpu-definitions",
    "query-hotpluggable-cpus",
    "query-memory-size-summary",
    "query-memdev",
    "query-balloon",
    "query-block",
    "query-blockstats",
    "query-block-jobs",
    "query-named-block-nodes",
    "query-pci",
    "query-chardev",
    "query-iothreads",
    "query-machines",
    "query-commands",
    "query-events",
    "query-qmp-schema",
    "query-vnc",
    "query-spice",
    "query-mice",
    "stop",
    "cont",
    "system_reset",
    "system_powerdown",
];

// ---------------------------------------------------------------------------
// Names
// ---------------------------------------------------------------------------

/// The form in which command names are compared: trimmed and in lowercase.
pub open spec fn normalized(raw: Seq<char>) -> Seq<char> {
    text::lowercase(text::trimmed(raw))
}

/// Normalise a command name for policy matching: trim surrounding white space and lowercase
/// it, so neither a stray space nor a case flip slips a command past the denylist.
pub fn normalize_command_name(raw: &str) -> (r: String)
    ensures
        r@ == normalized(raw@),
{
    let t = text::trim(raw);
    text::to_lowercase(t.as_str())
}

/// `name` is on the immutable hard denylist.
pub open spec fn hard_denied(name: Seq<char>) -> bool {
    exists|i: int| 0 <= i < 37 && (#[trigger] HARD_DENYLIST[i])@ == name
}

/// `name` is on the default allowlist.
pub open spec fn default_allowed(name: Seq<char>) -> bool {
    exists|i: int| 0 <= i < 30 && (#[trigger] DEFAULT_ALLOWLIST[i])@ == name
}

/// Whether `name` (already normalised) is on the immutable hard denylist.
pub fn is_hard_denied(name: &str) -> (r: bool)
    ensures
        r == hard_denied(name@),
{
    let mut i: usize = 0;
    while i < 37
        invariant
            i <= 37,
            forall|j: int| 0 <= j < i ==> (#[trigger] HARD_DENYLIST[j])@ != name@,
        decreases 37 - i,
    {
        if text::str_eq(HARD_DENYLIST[i], name) {
            return true;
        }
        i = i + 1;
    }
    false
}

fn is_default_allowed(name: &str) -> (r: bool)
    ensures
        r == default_allowed(name@),
{
    let mut i: usize = 0;
    while i < 30
        invariant
            i <= 30,
            forall|j: int| 0 <= j < i ==> (#[trigger] DEFAULT_ALLOWLIST[j])@ != name@,
        decreases 30 - i,
    {
        if text::str_eq(DEFAULT_ALLOWLIST[i], name) {
            return true;
        }
        i = i + 1;
    }
    false
}

// ---------------------------------------------------------------------------
// Policies
// ---------------------------------------------------------------------------

/// The override lists: `allow` adds to, `deny` removes from, the allowlist.
#[derive(Debug, Clone, PartialEq, Eq)]
pub struct PolicyOverrides {
    /// Command names to add to the allowlist.
    pub allow: Vec<String>,
    /// Command names to remove from the allowlist.
    pub deny: Vec<String>,
}

impl Default for PolicyOverrides {
    fn default() -> (r: PolicyOverrides)
        ensures
            r.allow@.len() == 0,
            r.deny@.len() == 0,
    {
        PolicyOverrides { allow: Vec::new(), deny: Vec::new() }
    }
}

/// `name` is, once normalised, a non-empty entry of `entries`.
pub open spec fn listed(entries: Seq<String>, name: Seq<char>) -> bool {
    name.len() > 0 && exists|i: int|
        0 <= i < entries.len() && normalized((#[trigger] entries[i])@) == name
}

/// A resolved Command Policy: the effective allow and deny names. The hard denylist is not
/// part of it, so no policy can weaken it.
#[derive(Debug, Clone)]
pub struct ResolvedPolicy {
    allow: Vec<String>,
    deny: Vec<String>,
}

impl ResolvedPolicy {
    /// `name` is on the allowlist: by default or by an override.
    pub closed spec fn allows(self, name: Seq<char>) -> bool {
        default_allowed(name) || text::texts(self.allow@).contains(name)
    }

    /// `name` is removed by an override.
    pub closed spec fn denies(self, name: Seq<char>) -> bool {
        text::texts(self.deny@).contains(name)
    }
}

impl Default for ResolvedPolicy {
    /// The built-in policy: the default allowlist with no overrides.
    fn default() -> (r: ResolvedPolicy)
        ensures
            forall|name: Seq<char>| #[trigger] r.allows(name) == default_allowed(name),
            forall|name: Seq<char>| !#[trigger] r.denies(name),
    {
        build_policy(&PolicyOverrides::default())
    }
}

fn normalized_entries(entries: &Vec<String>) -> (r: Vec<String>)
    ensures
        forall|name: Seq<char>| #[trigger] text::texts(r@).contains(name) == listed(entries@, name),
{
    broadcast use text::group_texts;

    let mut out: Vec<String> = Vec::new();
    let mut i: usize = 0;
    assert forall|name: Seq<char>| #[trigger]
        text::texts(out@).contains(name) == listed(entries@.take(0), name) by {}
    while i < entries.len()
        invariant
            i <= entries.len(),
            forall|name: Seq<char>| #[trigger]
                text::texts(out@).contains(name) == listed(entries@.take(i as int), name),
        decreases entries.len() - i,
    {
        let n = normalize_command_name(entries[i].as_str());
        let ghost before = text::texts(out@);
        let ghost taken = entries@.take(i as int);
        let ghost next = entries@.take(i + 1);
        let empty = n.as_str().is_empty();
        let ghost added = n@;
        if !empty {
            out.push(n);
        }
        i = i + 1;
        assert(next.drop_last() =~= taken);
        assert forall|name: Seq<char>| #[trigger]
            text::texts(out@).contains(name) == listed(next, name) by {
            assert(before.contains(name) == listed(taken, name));
            let after = text::texts(out@);
            if listed(taken, name) {
                let j = choose|j: int|
                    0 <= j < taken.len() && normalized((#[trigger] taken[j])@) == name;
                assert(next[j] == taken[j]);
                let k = choose|k: int| 0 <= k < before.len() && before[k] == name;
                assert(after[k] == name);
            }
            if name == added && !empty {
                assert(after[before.len() as int] == name);
                assert(normalized(next[next.len() - 1]@) == name);
            }
            if listed(next, name) && !listed(taken, name) {
                let j = choose|j: int|
                    0 <= j < next.len() && normalized((#[trigger] next[j])@) == name;
                if j < taken.len() {
                    assert(taken[j] == next[j]);
                }
                assert(name == added);
            }
            if after.contains(name) && !before.contains(name) {
                let k = choose|k: int| 0 <= k < after.len() && after[k] == name;
                if k < before.len() {
                    assert(before[k] == name);
                }
                assert(name == added);
            }
        }
    }
    assert(entries@.take(entries@.len() as int) =~= entries@);
    out
}

/// A policy is the one that the built-in defaults and override lists make.
pub open spec fn is_built_from(policy: ResolvedPolicy, overrides: PolicyOverrides) -> bool {
    &&& forall|name: Seq<char>| #[trigger]
        policy.allows(name) == (default_allowed(name) || listed(overrides.allow@, name))
    &&& forall|name: Seq<char>| #[trigger] policy.denies(name) == listed(overrides.deny@, name)
}

/// Build a policy from the built-in defaults plus override lists. Every entry is normalised
/// on the way in, and entries that are empty once normalised are dropped.
pub fn build_policy(overrides: &PolicyOverrides) -> (r: ResolvedPolicy)
    ensures
        is_built_from(r, *overrides),
{
    let allow = normalized_entries(&overrides.allow);
    let deny = normalized_entries(&overrides.deny);
    ResolvedPolicy { allow, deny }
}

// ---------------------------------------------------------------------------
// Verdicts
// ---------------------------------------------------------------------------

/// A Command Policy verdict for a single command name.
#[derive(Debug, Clone, PartialEq, Eq)]
pub enum CommandVerdict {
    /// The command may run; carries the normalised name that is forwarded to QEMU.
    Allowed {
        /// The normalised command name.
        command: String,
    },
    /// The command is refused.
    Denied {
        /// The normalised command name.
        command: String,
        /// Actionable explanation suitable for returning to the agent.
        reason: String,
        /// Whether the refusal is from the immutable hard denylist.
        hard_denied: bool,
    },
}

impl CommandVerdict {
    /// Whether the command may run.
    pub fn is_allowed(&self) -> (r: bool)
        ensures
            r == (*self is Allowed),
    {
        match self {
            CommandVerdict::Allowed { .. } => true,
            CommandVerdict::Denied { .. } => false,
        }
    }
}

/// What every denial starts with, before the command name.
pub const DENIAL_LEAD: &'static str = "QMP command \"";

/// How a hard denial goes on after the command name.
pub const HARD_DENIAL: &'static str =
    "\" is permanently denied: it is on the immutable hard denylist (it can exfiltrate guest/host memory, read or write host files, open host resources, or run arbitrary HMP). It can NEVER be enabled via QMP_MCP_ALLOW or a policy file. Use a purpose-built, audited tool if you genuinely need this capability.";

/// How a denial by override goes on after the command name.
pub const OVERRIDE_DENIAL: &'static str =
    "\" is denied by the Command Policy (it is in QMP_MCP_DENY or the policy file deny list). Remove it from the deny configuration if it is safe to run.";

/// How the default denial goes on after the command name.
pub const DEFAULT_DENIAL: &'static str =
    "\" is not in the Command Policy allowlist. The generic qmp_execute tool only runs allowlisted commands. Add it via QMP_MCP_ALLOW or the policy file allow list if it is safe — but commands on the hard denylist can never be allowed.";

/// What a policy says of a command.
pub enum Ruling {
    /// It may run.
    Allow,
    /// It is on the hard denylist.
    HardDeny,
    /// It is removed by an override.
    OverrideDeny,
    /// It is not on the allowlist.
    DefaultDeny,
}

/// The ruling on a normalised name: the hard denylist first, then the deny overrides, then
/// the allowlist, and otherwise a denial.
pub open spec fn ruling(policy: ResolvedPolicy, name: Seq<char>) -> Ruling {
    if hard_denied(name) {
        Ruling::HardDeny
    } else if policy.denies(name) {
        Ruling::OverrideDeny
    } else if policy.allows(name) {
        Ruling::Allow
    } else {
        Ruling::DefaultDeny
    }
}

/// The reason that a command is denied with.
pub open spec fn denial(ruling: Ruling, name: Seq<char>) -> Seq<char> {
    DENIAL_LEAD@ + name + (match ruling {
        Ruling::HardDeny => HARD_DENIAL@,
        Ruling::OverrideDeny => OVERRIDE_DENIAL@,
        _ => DEFAULT_DENIAL@,
    })
}

/// A verdict is the one that a policy gives on a command.
pub open spec fn is_verdict(policy: ResolvedPolicy, command: Seq<char>, v: CommandVerdict) -> bool {
    let name = normalized(command);
    match v {
        CommandVerdict::Allowed { command } => command@ == name && ruling(policy, name)
            == Ruling::Allow,
        CommandVerdict::Denied { command, reason, hard_denied } => command@ == name && ruling(
            policy,
            name,
        ) != Ruling::Allow && reason@ == denial(ruling(policy, name), name) && hard_denied == (
        ruling(policy, name) == Ruling::HardDeny),
    }
}

/// Decide whether `command` may run under `policy`.
pub fn decide_command(policy: &ResolvedPolicy, command: &str) -> (r: CommandVerdict)
    ensures
        is_verdict(*policy, command@, r),
{
    let name = normalize_command_name(command);
    if is_hard_denied(name.as_str()) {
        let reason = text::cat3(DENIAL_LEAD, name.as_str(), HARD_DENIAL);
        return CommandVerdict::Denied { command: name, reason, hard_denied: true };
    }
    if text::contains_string(&policy.deny, name.as_str()) {
        let reason = text::cat3(DENIAL_LEAD, name.as_str(), OVERRIDE_DENIAL);
        return CommandVerdict::Denied { command: name, reason, hard_denied: false };
    }
    if is_default_allowed(name.as_str()) || text::contains_string(&policy.allow, name.as_str()) {
        return CommandVerdict::Allowed { command: name };
    }
    let reason = text::cat3(DENIAL_LEAD, name.as_str(), DEFAULT_DENIAL);
    CommandVerdict::Denied { command: name, reason, hard_denied: false }
}

/// Raised when the Command Policy refuses a command requested through `qmp_execute`.
#[derive(Debug, Clone, PartialEq, Eq)]
pub struct CommandPolicyError {
    /// The actionable denial reason.
    pub message: String,
    /// Whether the command is on the immutable hard denylist.
    pub hard_denied: bool,
}

impl CommandPolicyError {
    /// Build the error of a denied verdict; `None` for an allowed one.
    pub fn from_verdict(verdict: &CommandVerdict) -> (r: Option<CommandPolicyError>)
        ensures
            match (*verdict, r) {
                (CommandVerdict::Allowed { .. }, None) => true,
                (CommandVerdict::Denied { reason, hard_denied, .. }, Some(e)) => e.message@
                    == reason@ && e.hard_denied == hard_denied,
                _ => false,
            },
    {
        match verdict {
            CommandVerdict::Allowed { .. } => None,
            CommandVerdict::Denied { reason, hard_denied, .. } => Some(
                CommandPolicyError { message: reason.clone(), hard_denied: *hard_denied },
            ),
        }
    }
}

// ---------------------------------------------------------------------------
// The policy file
// ---------------------------------------------------------------------------

/// Raised when the Command Policy cannot be resolved: the policy file is unreadable, is not
/// YAML, or has the wrong shape.
#[derive(Debug, Clone, PartialEq, Eq)]
pub struct PolicyError(pub String);

/// The message with which `serde_yaml_ng` refuses a text as YAML, if it does.
pub uninterp spec fn yaml_syntax_error(text: Seq<char>) -> Option<Seq<char>>;

/// An entry of a YAML mapping, its key read as a string and its value as a list of strings,
/// or the messages of `serde_yaml_ng` where they are not.
pub type EntryTexts = (Result<Seq<char>, Seq<char>>, Result<Seq<Seq<char>>, Seq<char>>);

/// The entries of a YAML document that is a mapping, in the order in which they are written;
/// none for a null document, the message of `serde_yaml_ng` where it is something else.
pub uninterp spec fn yaml_entries(text: Seq<char>) -> Result<
    Seq<(Result<Seq<char>, Seq<char>>, Result<Seq<Seq<char>>, Seq<char>>)>,
    Seq<char>,
>;

/// An entry by its texts.
pub open spec fn entry_of(e: (Result<String, String>, Result<Vec<String>, String>)) -> EntryTexts {
    (
        match e.0 {
            Ok(key) => Ok(key@),
            Err(m) => Err(m@),
        },
        match e.1 {
            Ok(list) => Ok(text::texts(list@)),
            Err(m) => Err(m@),
        },
    )
}

/// Entries by their texts.
pub open spec fn entries_of(v: Seq<(Result<String, String>, Result<Vec<String>, String>)>) -> Seq<
    EntryTexts,
> {
    v.map_values(|e: (Result<String, String>, Result<Vec<String>, String>)| entry_of(e))
}

/// `serde_yaml_ng::from_str` into a `Value`. Trusted to depend on the text alone; the result
/// is the error message, if there is one.
#[verifier::external_body]
fn check_yaml(text: &str) -> (r: Option<String>)
    ensures
        text::string_of(r) == yaml_syntax_error(text@),
{
    serde_yaml_ng::from_str::<serde_yaml_ng::Value>(text).err().map(|e| e.to_string())
}

/// `serde_yaml_ng::from_value` of the parsed text into a `Mapping`, and of each of its keys
/// and values into a string and a list of strings. Trusted to depend on the text alone.
#[verifier::external_body]
fn read_yaml_entries(text: &str) -> (r: Result<
    Vec<(Result<String, String>, Result<Vec<String>, String>)>,
    String,
>)
    ensures
        match r {
            Ok(v) => yaml_entries(text@) == Ok::<Seq<EntryTexts>, Seq<char>>(entries_of(v@)),
            Err(e) => yaml_entries(text@) == Err::<Seq<EntryTexts>, Seq<char>>(e@),
        },
{
    let value: serde_yaml_ng::Value = serde_yaml_ng::from_str(text).map_err(|e| e.to_string())?;
    let map: serde_yaml_ng::Mapping = serde_yaml_ng::from_value(value).map_err(|e| e.to_string())?;
    Ok(
        map.into_iter().map(
            |(key, list)|
                (
                    serde_yaml_ng::from_value(key).map_err(|e| e.to_string()),
                    serde_yaml_ng::from_value(list).map_err(|e| e.to_string()),
                ),
        ).collect(),
    )
}

/// The message for a policy file that cannot be read.
pub open spec fn unreadable_file(path: Seq<char>, error: Seq<char>) -> Seq<char> {
    "QMP_MCP_POLICY_FILE could not be read: "@ + path + " ("@ + error
        + "). Point it at a readable YAML file, or unset it to use the built-in default policy."@
}

/// The message for a policy file that is not YAML.
pub open spec fn malformed_file(path: Seq<char>, error: Seq<char>) -> Seq<char> {
    "QMP_MCP_POLICY_FILE is not valid YAML: "@ + path + " ("@ + error
        + "). Fix the syntax, or unset it to use the built-in default policy."@
}

/// The message for a policy file with the wrong shape.
pub open spec fn misshapen_file(path: Seq<char>, error: Seq<char>) -> Seq<char> {
    "QMP_MCP_POLICY_FILE has the wrong shape: "@ + path
        + ". It must be a YAML mapping with optional \"allow\" and \"deny\" lists of command-name strings, e.g. `allow: [query-pci]`. ("@
        + error + ")"@
}

/// The message for a key that a policy file must not have.
pub open spec fn unknown_key(key: Seq<char>) -> Seq<char> {
    "unknown field `"@ + key + "`, expected `allow` or `deny`"@
}

/// `key` is one that a policy file may have.
pub open spec fn known_key(key: Seq<char>) -> bool {
    key == "allow"@ || key == "deny"@
}

/// The message for a key that a policy file has twice.
pub open spec fn repeated_key(key: Seq<char>) -> Seq<char> {
    "duplicate field `"@ + key + "`"@
}

/// One of the first `n` entries has the key.
pub open spec fn has_key(entries: Seq<EntryTexts>, n: int, key: Seq<char>) -> bool {
    exists|j: int| 0 <= j < n && (#[trigger] entries[j]).0 == Ok::<Seq<char>, Seq<char>>(key)
}

/// What is wrong with the entry at `i` of a policy file, if anything is: its key is no string,
/// is not known or has come before, or its value is no list of strings.
pub open spec fn entry_problem(entries: Seq<EntryTexts>, i: int) -> Option<Seq<char>> {
    match entries[i].0 {
        Err(m) => Some(m),
        Ok(key) => if !known_key(key) {
            Some(unknown_key(key))
        } else if has_key(entries, i, key) {
            Some(repeated_key(key))
        } else {
            match entries[i].1 {
                Err(m) => Some(m),
                Ok(_) => None,
            }
        },
    }
}

/// `i` is the position of the first entry that something is wrong with.
pub open spec fn first_problem(entries: Seq<EntryTexts>, i: int) -> bool {
    &&& 0 <= i < entries.len()
    &&& entry_problem(entries, i) is Some
    &&& forall|j: int| 0 <= j < i ==> #[trigger] entry_problem(entries, j) is None
}

/// The list under `key`, empty when it is absent.
pub open spec fn listed_under(entries: Seq<EntryTexts>, key: Seq<char>) -> Seq<Seq<char>>
    decreases entries.len(),
{
    if entries.len() == 0 {
        Seq::empty()
    } else {
        listed_under(entries.drop_last(), key) + (match entries.last() {
            (Ok(k), Ok(list)) => if k == key {
                list
            } else {
                Seq::empty()
            },
            _ => Seq::empty(),
        })
    }
}

/// The overrides in the entries of a policy file, or the message for the first entry that
/// something is wrong with.
pub open spec fn overrides_in(path: Seq<char>, entries: Seq<EntryTexts>) -> Result<
    (Seq<Seq<char>>, Seq<Seq<char>>),
    Seq<char>,
> {
    if exists|i: int| first_problem(entries, i) {
        let i = choose|i: int| first_problem(entries, i);
        Err(misshapen_file(path, entry_problem(entries, i)->0))
    } else {
        Ok((listed_under(entries, "allow"@), listed_under(entries, "deny"@)))
    }
}

/// What a policy file says, given its text or the reason it could not be read.
pub open spec fn file_overrides(path: Seq<char>, read: Result<Seq<char>, Seq<char>>) -> Result<
    (Seq<Seq<char>>, Seq<Seq<char>>),
    Seq<char>,
> {
    match read {
        Err(e) => Err(unreadable_file(path, e)),
        Ok(text) => match yaml_syntax_error(text) {
            Some(e) => Err(malformed_file(path, e)),
            None => match yaml_entries(text) {
                Err(e) => Err(misshapen_file(path, e)),
                Ok(entries) => overrides_in(path, entries),
            },
        },
    }
}

/// A result of reading a file, by its texts.
pub open spec fn read_of(r: Result<String, String>) -> Result<Seq<char>, Seq<char>> {
    match r {
        Ok(t) => Ok(t@),
        Err(e) => Err(e@),
    }
}

/// A pair of override lists, or an error, is what the specification gives.
pub open spec fn agrees(
    r: Result<(Vec<String>, Vec<String>), PolicyError>,
    s: Result<(Seq<Seq<char>>, Seq<Seq<char>>), Seq<char>>,
) -> bool {
    match (r, s) {
        (Ok(p), Ok(q)) => text::texts(p.0@) == q.0 && text::texts(p.1@) == q.1,
        (Err(e), Err(m)) => e.0@ == m,
        _ => false,
    }
}

fn misshapen(path: &str, detail: &str) -> (r: PolicyError)
    ensures
        r.0@ == misshapen_file(path@, detail@),
{
    PolicyError(
        text::cat5(
            "QMP_MCP_POLICY_FILE has the wrong shape: ",
            path,
            ". It must be a YAML mapping with optional \"allow\" and \"deny\" lists of command-name strings, e.g. `allow: [query-pci]`. (",
            detail,
            ")",
        ),
    )
}

/// The overrides that the entries of a policy file hold: the lists under `allow` and under
/// `deny`. Any other key is refused, so a typo fails loudly instead of doing nothing, and so
/// is a key that comes twice.
pub fn entries_to_overrides(
    path: &str,
    entries: Vec<(Result<String, String>, Result<Vec<String>, String>)>,
) -> (r: Result<(Vec<String>, Vec<String>), PolicyError>)
    ensures
        agrees(r, overrides_in(path@, entries_of(entries@))),
{
    broadcast use text::group_texts;

    let ghost all = entries_of(entries@);
    let mut allow: Vec<String> = Vec::new();
    let mut deny: Vec<String> = Vec::new();
    let mut allow_seen = false;
    let mut deny_seen = false;
    let mut i: usize = 0;
    proof {
        reveal_strlit("allow");
        reveal_strlit("deny");
        assert("allow"@.len() != "deny"@.len());
        assert(all.take(0) =~= Seq::<EntryTexts>::empty());
    }
    while i < entries.len()
        invariant
            i <= entries.len(),
            all == entries_of(entries@),
            "allow"@ != "deny"@,
            forall|j: int| 0 <= j < i ==> #[trigger] entry_problem(all, j) is None,
            allow_seen == has_key(all, i as int, "allow"@),
            deny_seen == has_key(all, i as int, "deny"@),
            text::texts(allow@) == listed_under(all.take(i as int), "allow"@),
            text::texts(deny@) == listed_under(all.take(i as int), "deny"@),
        decreases entries.len() - i,
    {
        let ghost e = all[i as int];
        assert(e == entry_of(entries@[i as int]));
        assert(all.take(i + 1).drop_last() =~= all.take(i as int));
        assert(all.take(i + 1).last() == e);
        assert(entry_problem(all, i as int) is Some ==> first_problem(all, i as int));
        assert(entry_problem(all, i as int) is Some ==> forall|k: int|
            first_problem(all, k) ==> k == i);
        let key = match &entries[i].0 {
            Ok(key) => key.as_str(),
            Err(m) => return Err(misshapen(path, m.as_str())),
        };
        let to_allow = text::str_eq(key, "allow");
        if !to_allow && !text::str_eq(key, "deny") {
            let detail = text::cat3("unknown field `", key, "`, expected `allow` or `deny`");
            return Err(misshapen(path, detail.as_str()));
        }
        if (to_allow && allow_seen) || (!to_allow && deny_seen) {
            let detail = text::cat3("duplicate field `", key, "`");
            return Err(misshapen(path, detail.as_str()));
        }
        let mut more = match &entries[i].1 {
            Ok(list) => text::clone_strings(list),
            Err(m) => return Err(misshapen(path, m.as_str())),
        };
        assert(listed_under(all.take(i as int), "allow"@) + Seq::empty() =~= listed_under(
            all.take(i as int),
            "allow"@,
        ));
        assert(listed_under(all.take(i as int), "deny"@) + Seq::empty() =~= listed_under(
            all.take(i as int),
            "deny"@,
        ));
        if to_allow {
            allow.append(&mut more);
            allow_seen = true;
        } else {
            deny.append(&mut more);
            deny_seen = true;
        }
        i = i + 1;
        assert(all[i - 1].0 == Ok::<Seq<char>, Seq<char>>(key@));
    }
    assert(all.take(all.len() as int) =~= all);
    Ok((allow, deny))
}

/// Interpret the YAML policy file at `path`, given its text or the reason it could not be
/// read. Fails closed on any problem, naming `QMP_MCP_POLICY_FILE`. Returns the allow and
/// deny lists as they are written.
pub fn load_policy_file(path: &str, read: Result<String, String>) -> (r: Result<
    (Vec<String>, Vec<String>),
    PolicyError,
>)
    ensures
        agrees(r, file_overrides(path@, read_of(read))),
{
    broadcast use text::group_texts;

    let body = match read {
        Ok(t) => t,
        Err(e) => {
            return Err(
                PolicyError(
                    text::cat5(
                        "QMP_MCP_POLICY_FILE could not be read: ",
                        path,
                        " (",
                        e.as_str(),
                        "). Point it at a readable YAML file, or unset it to use the built-in default policy.",
                    ),
                ),
            );
        },
    };
    if let Some(e) = check_yaml(body.as_str()) {
        return Err(
            PolicyError(
                text::cat5(
                    "QMP_MCP_POLICY_FILE is not valid YAML: ",
                    path,
                    " (",
                    e.as_str(),
                    "). Fix the syntax, or unset it to use the built-in default policy.",
                ),
            ),
        );
    }
    match read_yaml_entries(body.as_str()) {
        Err(e) => Err(misshapen(path, e.as_str())),
        Ok(entries) => entries_to_overrides(path, entries),
    }
}

// ---------------------------------------------------------------------------
// Resolution
// ---------------------------------------------------------------------------

/// The policy file that the environment names, if it names one.
pub open spec fn policy_path(env: Map<Seq<char>, Seq<char>>) -> Option<Seq<char>> {
    config::non_blank(env, "QMP_MCP_POLICY_FILE"@)
}

/// The overrides of the environment alone.
pub open spec fn env_overrides(env: Map<Seq<char>, Seq<char>>) -> (
    Seq<Seq<char>>,
    Seq<Seq<char>>,
) {
    (
        config::list_setting(config::lookup(env, "QMP_MCP_ALLOW"@)),
        config::list_setting(config::lookup(env, "QMP_MCP_DENY"@)),
    )
}

/// The overrides of the environment, followed by those of the policy file.
pub open spec fn all_overrides(
    env: Map<Seq<char>, Seq<char>>,
    read: Result<Seq<char>, Seq<char>>,
) -> Result<(Seq<Seq<char>>, Seq<Seq<char>>), Seq<char>> {
    match policy_path(env) {
        None => Ok(env_overrides(env)),
        Some(path) => match file_overrides(path, read) {
            Err(m) => Err(m),
            Ok(file) => Ok((env_overrides(env).0 + file.0, env_overrides(env).1 + file.1)),
        },
    }
}

fn split_list(raw: Option<&str>) -> (r: Vec<String>)
    ensures
        text::texts(r@) == config::list_setting(text::text_of(raw)),
{
    broadcast use text::group_texts;

    match raw {
        None => Vec::new(),
        Some(value) => text::split_commas(value),
    }
}

/// The overrides that the environment sets: `QMP_MCP_ALLOW` and `QMP_MCP_DENY`, and the
/// lists of the file that `QMP_MCP_POLICY_FILE` names. `read` is asked for the text of that
/// file, or the reason it cannot be read, only when the variable is set.
pub fn policy_overrides<F: Fn(&str) -> Result<String, String>>(env: &EnvMap, read: F) -> (r: Result<
    PolicyOverrides,
    PolicyError,
>)
    requires
        forall|path: &str| #[trigger] call_requires(read, (path,)),
    ensures
        match policy_path(env@) {
            None => r matches Ok(o) && text::texts(o.allow@) == env_overrides(env@).0
                && text::texts(o.deny@) == env_overrides(env@).1,
            Some(p) => exists|path: &str, body: Result<String, String>|
                path@ == p && #[trigger] call_ensures(read, (path,), body) && match (
                    r,
                    all_overrides(env@, read_of(body)),
                ) {
                    (Ok(o), Ok(lists)) => text::texts(o.allow@) == lists.0 && text::texts(o.deny@)
                        == lists.1,
                    (Err(e), Err(m)) => e.0@ == m,
                    _ => false,
                },
        },
{
    broadcast use text::group_texts;

    let mut allow = split_list(env.get("QMP_MCP_ALLOW"));
    let mut deny = split_list(env.get("QMP_MCP_DENY"));
    if let Some(raw) = env.get("QMP_MCP_POLICY_FILE") {
        let trimmed = text::trim(raw);
        if !trimmed.as_str().is_empty() {
            let path = trimmed.as_str();
            let body = read(path);
            assert(call_ensures(read, (path,), body));
            match load_policy_file(path, body) {
                Err(e) => return Err(e),
                Ok((file_allow, file_deny)) => {
                    let mut file_allow = file_allow;
                    let mut file_deny = file_deny;
                    allow.append(&mut file_allow);
                    deny.append(&mut file_deny);
                },
            }
        }
    }
    Ok(PolicyOverrides { allow, deny })
}

/// The allow entries that have no effect because they name a hard-denied command.
pub open spec fn ignored(entries: Seq<Seq<char>>) -> Seq<Seq<char>>
    decreases entries.len(),
{
    if entries.len() == 0 {
        Seq::empty()
    } else if hard_denied(normalized(entries.last())) {
        ignored(entries.drop_last()).push(text::trimmed(entries.last()))
    } else {
        ignored(entries.drop_last())
    }
}

/// The allow overrides that name a hard-denied command, trimmed, so that the operator who
/// tried to enable one can be told that it was ignored.
pub fn ignored_overrides(overrides: &PolicyOverrides) -> (r: Vec<String>)
    ensures
        text::texts(r@) == ignored(text::texts(overrides.allow@)),
{
    broadcast use text::group_texts;

    let ghost all = text::texts(overrides.allow@);
    let mut out: Vec<String> = Vec::new();
    let mut i: usize = 0;
    assert(all.take(0) =~= Seq::<Seq<char>>::empty());
    while i < overrides.allow.len()
        invariant
            i <= overrides.allow.len(),
            all == text::texts(overrides.allow@),
            text::texts(out@) == ignored(all.take(i as int)),
        decreases overrides.allow.len() - i,
    {
        assert(all.take(i + 1).drop_last() =~= all.take(i as int));
        assert(all.take(i + 1).last() == overrides.allow@[i as int]@);
        let entry = overrides.allow[i].as_str();
        let name = normalize_command_name(entry);
        if is_hard_denied(name.as_str()) {
            out.push(text::trim(entry));
        }
        i = i + 1;
    }
    assert(all.take(all.len() as int) =~= all);
    out
}

/// A policy is the one that allow and deny lists make.
pub open spec fn policy_of(
    policy: ResolvedPolicy,
    lists: (Seq<Seq<char>>, Seq<Seq<char>>),
) -> bool {
    &&& forall|name: Seq<char>| #[trigger]
        policy.allows(name) == (default_allowed(name) || listed_text(lists.0, name))
    &&& forall|name: Seq<char>| #[trigger] policy.denies(name) == listed_text(lists.1, name)
}

/// `name` is, once normalised, a non-empty entry of `entries`.
pub open spec fn listed_text(entries: Seq<Seq<char>>, name: Seq<char>) -> bool {
    name.len() > 0 && exists|i: int|
        0 <= i < entries.len() && normalized(#[trigger] entries[i]) == name
}

proof fn lemma_listed_text(entries: Seq<String>, name: Seq<char>)
    ensures
        listed(entries, name) == listed_text(text::texts(entries), name),
{
    let t = text::texts(entries);
    if listed(entries, name) {
        let i = choose|i: int|
            0 <= i < entries.len() && normalized((#[trigger] entries[i])@) == name;
        assert(normalized(t[i]) == name);
    }
    if listed_text(t, name) {
        let i = choose|i: int| 0 <= i < t.len() && normalized(#[trigger] t[i]) == name;
        assert(normalized(entries[i]@) == name);
    }
}

/// Resolve the effective Command Policy from the environment: the built-in defaults overlaid
/// with the overrides that [`policy_overrides`] finds. Fails closed when the policy file is
/// unreadable, malformed or misshapen.
pub fn resolve_command_policy<F: Fn(&str) -> Result<String, String>>(env: &EnvMap, read: F) -> (r:
    Result<ResolvedPolicy, PolicyError>)
    requires
        forall|path: &str| #[trigger] call_requires(read, (path,)),
    ensures
        match policy_path(env@) {
            None => r matches Ok(policy) && policy_of(policy, env_overrides(env@)),
            Some(p) => exists|path: &str, body: Result<String, String>|
                path@ == p && #[trigger] call_ensures(read, (path,), body) && match (
                    r,
                    all_overrides(env@, read_of(body)),
                ) {
                    (Ok(policy), Ok(lists)) => policy_of(policy, lists),
                    (Err(e), Err(m)) => e.0@ == m,
                    _ => false,
                },
        },
{
    match policy_overrides(env, read) {
        Err(e) => Err(e),
        Ok(overrides) => {
            let policy = build_policy(&overrides);
            proof {
                assert forall|name: Seq<char>| #[trigger]
                    policy.allows(name) == (default_allowed(name) || listed_text(
                        text::texts(overrides.allow@),
                        name,
                    )) by {
                    lemma_listed_text(overrides.allow@, name);
                }
                assert forall|name: Seq<char>| #[trigger]
                    policy.denies(name) == listed_text(text::texts(overrides.deny@), name) by {
                    lemma_listed_text(overrides.deny@, name);
                }
            }
            Ok(policy)
        },
    }
}

// ---------------------------------------------------------------------------
// Laws
// ---------------------------------------------------------------------------

/// A hard-denied command is refused, as a hard denial, under every policy: no override can
/// enable it.
pub proof fn hard_denial_is_absolute(policy: ResolvedPolicy, command: Seq<char>, v: CommandVerdict)
    requires
        hard_denied(normalized(command)),
        is_verdict(policy, command, v),
    ensures
        v matches CommandVerdict::Denied { hard_denied, .. } && hard_denied,
{
}

/// A command that the deny overrides name is refused, even where an allow override names it
/// too.
pub proof fn deny_wins_over_allow(policy: ResolvedPolicy, command: Seq<char>, v: CommandVerdict)
    requires
        policy.denies(normalized(command)),
        is_verdict(policy, command, v),
    ensures
        v is Denied,
{
}

/// Only commands on the allowlist run, under the name that was matched.
pub proof fn unlisted_commands_are_denied(
    policy: ResolvedPolicy,
    command: Seq<char>,
    v: CommandVerdict,
)
    requires
        is_verdict(policy, command, v),
    ensures
        v matches CommandVerdict::Allowed { command: name } ==> name@ == normalized(command)
            && policy.allows(name@) && !policy.denies(name@) && !hard_denied(name@),
        !policy.allows(normalized(command)) ==> v is Denied,
{
}

proof fn lemma_trim_start_blank_prefix(p: Seq<char>, s: Seq<char>)
    requires
        forall|i: int| 0 <= i < p.len() ==> text::is_white_space(#[trigger] p[i]),
    ensures
        text::trim_start(p + s) == text::trim_start(s),
    decreases p.len(),
{
    if p.len() == 0 {
        assert(p + s =~= s);
    } else {
        assert((p + s).skip(1) =~= p.skip(1) + s);
        assert((p + s)[0] == p[0]);
        lemma_trim_start_blank_prefix(p.skip(1), s);
    }
}

proof fn lemma_trim_end_blank_suffix(s: Seq<char>, q: Seq<char>)
    requires
        forall|i: int| 0 <= i < q.len() ==> text::is_white_space(#[trigger] q[i]),
    ensures
        text::trim_end(s + q) == text::trim_end(s),
    decreases q.len(),
{
    if q.len() == 0 {
        assert(s + q =~= s);
    } else {
        assert((s + q).drop_last() =~= s + q.drop_last());
        assert((s + q).last() == q.last());
        lemma_trim_end_blank_suffix(s, q.drop_last());
    }
}

proof fn lemma_trim_start_append(s: Seq<char>, q: Seq<char>)
    requires
        forall|i: int| 0 <= i < q.len() ==> text::is_white_space(#[trigger] q[i]),
    ensures
        text::trim_end(text::trim_start(s + q)) == text::trim_end(text::trim_start(s)),
    decreases s.len(),
{
    if s.len() == 0 {
        assert(s + q =~= q);
        lemma_trim_start_blank_prefix(q, Seq::empty());
        assert(q + Seq::<char>::empty() =~= q);
    } else if text::is_white_space(s[0]) {
        assert((s + q).skip(1) =~= s.skip(1) + q);
        assert((s + q)[0] == s[0]);
        lemma_trim_start_append(s.skip(1), q);
    } else {
        assert((s + q)[0] == s[0]);
        lemma_trim_end_blank_suffix(s, q);
    }
}

/// White space around a command name changes nothing of how it is judged.
pub proof fn padding_is_ignored(p: Seq<char>, command: Seq<char>, q: Seq<char>)
    requires
        forall|i: int| 0 <= i < p.len() ==> text::is_white_space(#[trigger] p[i]),
        forall|i: int| 0 <= i < q.len() ==> text::is_white_space(#[trigger] q[i]),
    ensures
        normalized(p + command + q) == normalized(command),
{
    assert(p + command + q =~= p + (command + q));
    lemma_trim_start_blank_prefix(p, command + q);
    lemma_trim_start_append(command, q);
}

proof fn lemma_lower_keeps_white_space(c: char)
    requires
        c <= '\u{7f}',
    ensures
        text::is_white_space(text::ascii_lower_char(c)) == text::is_white_space(c),
{
}

proof fn lemma_trim_start_lower(s: Seq<char>)
    requires
        vstd::utf8::is_ascii_chars(s),
    ensures
        text::trim_start(text::ascii_lower(s)) == text::ascii_lower(text::trim_start(s)),
        vstd::utf8::is_ascii_chars(text::trim_start(s)),
    decreases s.len(),
{
    if s.len() > 0 {
        assert(s[0] <= '\u{7f}');
        lemma_lower_keeps_white_space(s[0]);
        if text::is_white_space(s[0]) {
            assert(text::ascii_lower(s).skip(1) =~= text::ascii_lower(s.skip(1)));
            assert forall|i: int| 0 <= i < s.skip(1).len() implies '\0' <= #[trigger] s.skip(1)[i]
                <= '\u{7f}' by {
                assert(s.skip(1)[i] == s[i + 1]);
            }
            lemma_trim_start_lower(s.skip(1));
        }
    }
}

proof fn lemma_trim_end_lower(s: Seq<char>)
    requires
        vstd::utf8::is_ascii_chars(s),
    ensures
        text::trim_end(text::ascii_lower(s)) == text::ascii_lower(text::trim_end(s)),
        vstd::utf8::is_ascii_chars(text::trim_end(s)),
    decreases s.len(),
{
    if s.len() > 0 {
        assert(s[s.len() - 1] <= '\u{7f}');
        lemma_lower_keeps_white_space(s.last());
        if text::is_white_space(s.last()) {
            assert(text::ascii_lower(s).drop_last() =~= text::ascii_lower(s.drop_last()));
            assert forall|i: int| 0 <= i < s.drop_last().len() implies '\0' <= #[trigger]
                s.drop_last()[i] <= '\u{7f}' by {
                assert(s.drop_last()[i] == s[i]);
            }
            lemma_trim_end_lower(s.drop_last());
        }
    }
}

/// Two ASCII command names that differ in letter case only are judged alike.
pub proof fn case_is_ignored(a: Seq<char>, b: Seq<char>)
    requires
        vstd::utf8::is_ascii_chars(a),
        vstd::utf8::is_ascii_chars(b),
        text::ascii_lower(a) == text::ascii_lower(b),
    ensures
        normalized(a) == normalized(b),
{
    lemma_trim_start_lower(a);
    lemma_trim_end_lower(text::trim_start(a));
    lemma_trim_start_lower(b);
    lemma_trim_end_lower(text::trim_start(b));
}

/// A character that is its own normal form: printable ASCII, neither a space nor a capital.
spec fn is_normal_char(c: char) -> bool {
    '!' <= c <= '~' && !('A' <= c <= 'Z')
}

spec fn is_normal(s: Seq<char>) -> bool {
    forall|i: int| 0 <= i < s.len() ==> is_normal_char(#[trigger] s[i])
}

spec fn looks_denied(s: Seq<char>) -> bool {
    s.len() > 4 && s[0] != 's' && !(s[0] == 'q' && s[1] == 'u')
}

spec fn looks_allowed(s: Seq<char>) -> bool {
    s.len() == 4 || (s.len() > 4 && (s[0] == 's' || (s[0] == 'q' && s[1] == 'u')))
}

proof fn lemma_denied_shape()
    ensures
        forall|i: int| 0 <= i < 37 ==> looks_denied((#[trigger] HARD_DENYLIST[i])@) && is_normal(
            HARD_DENYLIST[i]@,
        ),
{
    reveal_strlit("human-monitor-command");
    reveal_strlit("migrate");
    reveal_strlit("migrate-incoming");
    reveal_strlit("migrate-set-parameters");
    reveal_strlit("migrate-set-capabilities");
    reveal_strlit("migrate-recover");
    reveal_strlit("migrate-continue");
    reveal_strlit("migrate-pause");
    reveal_strlit("migrate-start-postcopy");
    reveal_strlit("xen-save-devices-state");
    reveal_strlit("xen-load-devices-state");
    reveal_strlit("dump-guest-memory");
    reveal_strlit("pmemsave");
    reveal_strlit("memsave");
    reveal_strlit("object-add");
    reveal_strlit("blockdev-add");
    reveal_strlit("device_add");
    reveal_strlit("netdev_add");
    reveal_strlit("chardev-add");
    reveal_strlit("chardev-change");
    reveal_strlit("qom-set");
    reveal_strlit("getfd");
    reveal_strlit("add-fd");
    reveal_strlit("drive-backup");
    reveal_strlit("blockdev-backup");
    reveal_strlit("drive-mirror");
    reveal_strlit("blockdev-mirror");
    reveal_strlit("blockdev-create");
    reveal_strlit("block-export-add");
    reveal_strlit("nbd-server-start");
    reveal_strlit("nbd-server-add");
    reveal_strlit("block-commit");
    reveal_strlit("block-stream");
    reveal_strlit("block_resize");
    reveal_strlit("blockdev-snapshot");
    reveal_strlit("blockdev-snapshot-sync");
    reveal_strlit("blockdev-snapshot-internal-sync");
}

proof fn lemma_allowed_shape()
    ensures
        forall|i: int| 0 <= i < 30 ==> looks_allowed((#[trigger] DEFAULT_ALLOWLIST[i])@) && is_normal(
            DEFAULT_ALLOWLIST[i]@,
        ),
{
    reveal_strlit("query-status");
    reveal_strlit("query-version");
    reveal_strlit("query-name");
    reveal_strlit("query-uuid");
    reveal_strlit("query-kvm");
    reveal_strlit("query-target");
    reveal_strlit("query-cpus-fast");
    reveal_strlit("query-cpu-definitions");
    reveal_strlit("query-hotpluggable-cpus");
    reveal_strlit("query-memory-size-summary");
    reveal_strlit("query-memdev");
    reveal_strlit("query-balloon");
    reveal_strlit("query-block");
    reveal_strlit("query-blockstats");
    reveal_strlit("query-block-jobs");
    reveal_strlit("query-named-block-nodes");
    reveal_strlit("query-pci");
    reveal_strlit("query-chardev");
    reveal_strlit("query-iothreads");
    reveal_strlit("query-machines");
    reveal_strlit("query-commands");
    reveal_strlit("query-events");
    reveal_strlit("query-qmp-schema");
    reveal_strlit("query-vnc");
    reveal_strlit("query-spice");
    reveal_strlit("query-mice");
    reveal_strlit("stop");
    reveal_strlit("cont");
    reveal_strlit("system_reset");
    reveal_strlit("system_powerdown");
}

/// No command is both on the hard denylist and on the default allowlist.
pub proof fn lists_are_disjoint(name: Seq<char>)
    ensures
        !(hard_denied(name) && default_allowed(name)),
{
    lemma_denied_shape();
    lemma_allowed_shape();
}

proof fn lemma_normal(s: Seq<char>)
    requires
        is_normal(s),
    ensures
        normalized(s) == s,
{
    assert(s.len() > 0 ==> is_normal_char(s[0]) && is_normal_char(s[s.len() - 1]));
    assert(vstd::utf8::is_ascii_chars(s)) by {
        assert forall|i: int| 0 <= i < s.len() implies '\0' <= #[trigger] s[i] <= '\u{7f}' by {
            assert(is_normal_char(s[i]));
        }
    }
    assert(text::ascii_lower(s) =~= s) by {
        assert forall|i: int| 0 <= i < s.len() implies text::ascii_lower(s)[i] == s[i] by {
            assert(is_normal_char(s[i]));
        }
    }
}

/// The entries of both built-in lists are normal forms, so that a normalised name meets them.
pub proof fn built_in_entries_are_normal(name: Seq<char>)
    requires
        hard_denied(name) || default_allowed(name),
    ensures
        normalized(name) == name,
{
    lemma_denied_shape();
    lemma_allowed_shape();
    lemma_normal(name);
}

proof fn lemma_trim_end_keeps_start(s: Seq<char>)
    requires
        s.len() > 0,
        !text::is_white_space(s[0]),
    ensures
        text::trim_end(s).len() > 0,
        text::trim_end(s)[0] == s[0],
    decreases s.len(),
{
    if text::is_white_space(s.last()) {
        assert(s.len() > 1);
        lemma_trim_end_keeps_start(s.drop_last());
    }
}

proof fn lemma_trim_start_ends(s: Seq<char>)
    ensures
        text::trim_start(s).len() > 0 ==> !text::is_white_space(text::trim_start(s)[0]),
    decreases s.len(),
{
    if s.len() > 0 && text::is_white_space(s[0]) {
        lemma_trim_start_ends(s.skip(1));
    }
}

proof fn lemma_trim_end_ends(s: Seq<char>)
    ensures
        text::trim_end(s).len() > 0 ==> !text::is_white_space(text::trim_end(s).last()),
    decreases s.len(),
{
    if s.len() > 0 && text::is_white_space(s.last()) {
        lemma_trim_end_ends(s.drop_last());
    }
}

/// `s` neither begins nor ends with white space.
pub open spec fn is_unpadded(s: Seq<char>) -> bool {
    s.len() > 0 ==> !text::is_white_space(s[0]) && !text::is_white_space(s.last())
}

proof fn lemma_trimmed_is_unpadded(s: Seq<char>)
    ensures
        is_unpadded(text::trimmed(s)),
{
    let t = text::trim_start(s);
    lemma_trim_start_ends(s);
    lemma_trim_end_ends(t);
    if t.len() > 0 {
        lemma_trim_end_keeps_start(t);
    }
}

/// Normalising an ASCII command name, whatever pads it, leaves no padding, and normalising it
/// again changes nothing.
pub proof fn normal_forms_are_final(raw: Seq<char>)
    requires
        vstd::utf8::is_ascii_chars(text::trimmed(raw)),
    ensures
        is_unpadded(normalized(raw)),
        normalized(normalized(raw)) == normalized(raw),
{
    let t = text::trimmed(raw);
    let n = normalized(raw);
    lemma_trimmed_is_unpadded(raw);
    if t.len() > 0 {
        assert(t[0] <= '\u{7f}');
        assert(t[t.len() - 1] <= '\u{7f}');
        lemma_lower_keeps_white_space(t[0]);
        lemma_lower_keeps_white_space(t.last());
    }
    assert(text::trimmed(n) == n);
    assert forall|i: int| 0 <= i < n.len() implies '\0' <= #[trigger] n[i] <= '\u{7f}'
        && text::ascii_lower_char(n[i]) == n[i] by {
        assert('\0' <= t[i] <= '\u{7f}');
    }
    assert(text::ascii_lower(n) =~= n);
}

/// Two entries of an override list name the same command: they are the same but for padding,
/// or in ASCII the same but for padding and letter case.
pub open spec fn same_name(a: Seq<char>, b: Seq<char>) -> bool {
    let x = text::trimmed(a);
    let y = text::trimmed(b);
    x == y || (vstd::utf8::is_ascii_chars(x) && vstd::utf8::is_ascii_chars(y) && text::ascii_lower(
        x,
    ) == text::ascii_lower(y))
}

/// Every entry of one list that is not blank names a command that the other list names too.
pub open spec fn names_within(a: Seq<String>, b: Seq<String>) -> bool {
    forall|i: int|
        0 <= i < a.len() ==> text::is_blank((#[trigger] a[i])@) || exists|j: int|
            0 <= j < b.len() && same_name(a[i]@, (#[trigger] b[j])@)
}

/// Two override lists name the same commands: they differ at most in the order of their
/// entries, in repetitions, in padding, in the case of ASCII letters and in blank entries.
pub open spec fn same_names(a: Seq<String>, b: Seq<String>) -> bool {
    names_within(a, b) && names_within(b, a)
}

proof fn lemma_names_within(a: Seq<String>, b: Seq<String>, name: Seq<char>)
    requires
        names_within(a, b),
        listed(a, name),
    ensures
        listed(b, name),
{
    let i = choose|i: int| 0 <= i < a.len() && normalized((#[trigger] a[i])@) == name;
    assert(!text::is_blank(a[i]@)) by {
        if text::is_blank(a[i]@) {
            assert(text::trimmed(a[i]@) =~= Seq::<char>::empty());
            assert(normalized(a[i]@) =~= Seq::<char>::empty());
        }
    }
    let j = choose|j: int| 0 <= j < b.len() && same_name(a[i]@, (#[trigger] b[j])@);
    assert(normalized(b[j]@) == name);
}

/// Override lists that name the same commands make policies that judge alike: order,
/// repetition, padding, the case of ASCII letters and blank entries do not matter. Every
/// command has the same verdicts under both.
pub proof fn overrides_count_by_name(
    a: PolicyOverrides,
    b: PolicyOverrides,
    p: ResolvedPolicy,
    q: ResolvedPolicy,
    command: Seq<char>,
    v: CommandVerdict,
)
    requires
        same_names(a.allow@, b.allow@),
        same_names(a.deny@, b.deny@),
        is_built_from(p, a),
        is_built_from(q, b),
    ensures
        ruling(p, normalized(command)) == ruling(q, normalized(command)),
        is_verdict(p, command, v) == is_verdict(q, command, v),
{
    let name = normalized(command);
    if listed(a.allow@, name) {
        lemma_names_within(a.allow@, b.allow@, name);
    }
    if listed(b.allow@, name) {
        lemma_names_within(b.allow@, a.allow@, name);
    }
    if listed(a.deny@, name) {
        lemma_names_within(a.deny@, b.deny@, name);
    }
    if listed(b.deny@, name) {
        lemma_names_within(b.deny@, a.deny@, name);
    }
    assert(p.allows(name) == q.allows(name));
    assert(p.denies(name) == q.denies(name));
}

/// Every entry of both built-in lists counts, at any index: an entry of the default allowlist is
/// allowed by default, a policy without overrides permits it, and no policy permits an entry of
/// the hard denylist.
pub proof fn built_in_lists_count_whole(
    i: int,
    overrides: PolicyOverrides,
    policy: ResolvedPolicy,
    v: CommandVerdict,
)
    requires
        is_built_from(policy, overrides),
    ensures
        0 <= i < DEFAULT_ALLOWLIST@.len() ==> default_allowed(DEFAULT_ALLOWLIST@[i]@),
        0 <= i < DEFAULT_ALLOWLIST@.len() && overrides.deny@.len() == 0 ==> ruling(
            policy,
            DEFAULT_ALLOWLIST@[i]@,
        ) == Ruling::Allow,
        0 <= i < DEFAULT_ALLOWLIST@.len() && overrides.deny@.len() == 0 && is_verdict(
            policy,
            DEFAULT_ALLOWLIST@[i]@,
            v,
        ) ==> v is Allowed,
        0 <= i < HARD_DENYLIST@.len() ==> hard_denied(HARD_DENYLIST@[i]@),
        0 <= i < HARD_DENYLIST@.len() ==> ruling(policy, HARD_DENYLIST@[i]@) == Ruling::HardDeny,
        0 <= i < HARD_DENYLIST@.len() && is_verdict(policy, HARD_DENYLIST@[i]@, v) ==> v is Denied
            && v->hard_denied,
{
    if 0 <= i < DEFAULT_ALLOWLIST@.len() {
        let name = DEFAULT_ALLOWLIST[i]@;
        assert(default_allowed(name));
        lists_are_disjoint(name);
        built_in_entries_are_normal(name);
        assert(policy.allows(name));
        assert(policy.denies(name) == listed(overrides.deny@, name));
    }
    if 0 <= i < HARD_DENYLIST@.len() {
        let name = HARD_DENYLIST[i]@;
        assert(hard_denied(name));
        built_in_entries_are_normal(name);
    }
}

/// The commands that are allowed by default.
pub proof fn default_commands(name: Seq<char>)
    ensures
        default_allowed(name) <==> name == "query-status"@
            || name == "query-version"@
            || name == "query-name"@
            || name == "query-uuid"@
            || name == "query-kvm"@
            || name == "query-target"@
            || name == "query-cpus-fast"@
            || name == "query-cpu-definitions"@
            || name == "query-hotpluggable-cpus"@
            || name == "query-memory-size-summary"@
            || name == "query-memdev"@
            || name == "query-balloon"@
            || name == "query-block"@
            || name == "query-blockstats"@
            || name == "query-block-jobs"@
            || name == "query-named-block-nodes"@
            || name == "query-pci"@
            || name == "query-chardev"@
            || name == "query-iothreads"@
            || name == "query-machines"@
            || name == "query-commands"@
            || name == "query-events"@
            || name == "query-qmp-schema"@
            || name == "query-vnc"@
            || name == "query-spice"@
            || name == "query-mice"@
            || name == "stop"@
            || name == "cont"@
            || name == "system_reset"@
            || name == "system_powerdown"@,
{
    assert(DEFAULT_ALLOWLIST[0]@ == "query-status"@);
    assert(DEFAULT_ALLOWLIST[1]@ == "query-version"@);
    assert(DEFAULT_ALLOWLIST[2]@ == "query-name"@);
    assert(DEFAULT_ALLOWLIST[3]@ == "query-uuid"@);
    assert(DEFAULT_ALLOWLIST[4]@ == "query-kvm"@);
    assert(DEFAULT_ALLOWLIST[5]@ == "query-target"@);
    assert(DEFAULT_ALLOWLIST[6]@ == "query-cpus-fast"@);
    assert(DEFAULT_ALLOWLIST[7]@ == "query-cpu-definitions"@);
    assert(DEFAULT_ALLOWLIST[8]@ == "query-hotpluggable-cpus"@);
    assert(DEFAULT_ALLOWLIST[9]@ == "query-memory-size-summary"@);
    assert(DEFAULT_ALLOWLIST[10]@ == "query-memdev"@);
    assert(DEFAULT_ALLOWLIST[11]@ == "query-balloon"@);
    assert(DEFAULT_ALLOWLIST[12]@ == "query-block"@);
    assert(DEFAULT_ALLOWLIST[13]@ == "query-blockstats"@);
    assert(DEFAULT_ALLOWLIST[14]@ == "query-block-jobs"@);
    assert(DEFAULT_ALLOWLIST[15]@ == "query-named-block-nodes"@);
    assert(DEFAULT_ALLOWLIST[16]@ == "query-pci"@);
    assert(DEFAULT_ALLOWLIST[17]@ == "query-chardev"@);
    assert(DEFAULT_ALLOWLIST[18]@ == "query-iothreads"@);
    assert(DEFAULT_ALLOWLIST[19]@ == "query-machines"@);
    assert(DEFAULT_ALLOWLIST[20]@ == "query-commands"@);
    assert(DEFAULT_ALLOWLIST[21]@ == "query-events"@);
    assert(DEFAULT_ALLOWLIST[22]@ == "query-qmp-schema"@);
    assert(DEFAULT_ALLOWLIST[23]@ == "query-vnc"@);
    assert(DEFAULT_ALLOWLIST[24]@ == "query-spice"@);
    assert(DEFAULT_ALLOWLIST[25]@ == "query-mice"@);
    assert(DEFAULT_ALLOWLIST[26]@ == "stop"@);
    assert(DEFAULT_ALLOWLIST[27]@ == "cont"@);
    assert(DEFAULT_ALLOWLIST[28]@ == "system_reset"@);
    assert(DEFAULT_ALLOWLIST[29]@ == "system_powerdown"@);
}

/// The commands that are never permitted.
pub proof fn forbidden_commands(name: Seq<char>)
    ensures
        hard_denied(name) <==> name == "human-monitor-command"@
            || name == "migrate"@
            || name == "migrate-incoming"@
            || name == "migrate-set-parameters"@
            || name == "migrate-set-capabilities"@
            || name == "migrate-recover"@
            || name == "migrate-continue"@
            || name == "migrate-pause"@
            || name == "migrate-start-postcopy"@
            || name == "xen-save-devices-state"@
            || name == "xen-load-devices-state"@
            || name == "dump-guest-memory"@
            || name == "pmemsave"@
            || name == "memsave"@
            || name == "object-add"@
            || name == "blockdev-add"@
            || name == "device_add"@
            || name == "netdev_add"@
            || name == "chardev-add"@
            || name == "chardev-change"@
            || name == "qom-set"@
            || name == "getfd"@
            || name == "add-fd"@
            || name == "drive-backup"@
            || name == "blockdev-backup"@
            || name == "drive-mirror"@
            || name == "blockdev-mirror"@
            || name == "blockdev-create"@
            || name == "block-export-add"@
            || name == "nbd-server-start"@
            || name == "nbd-server-add"@
            || name == "block-commit"@
            || name == "block-stream"@
            || name == "block_resize"@
            || name == "blockdev-snapshot"@
            || name == "blockdev-snapshot-sync"@
            || name == "blockdev-snapshot-internal-sync"@,
{
    assert(HARD_DENYLIST[0]@ == "human-monitor-command"@);
    assert(HARD_DENYLIST[1]@ == "migrate"@);
    assert(HARD_DENYLIST[2]@ == "migrate-incoming"@);
    assert(HARD_DENYLIST[3]@ == "migrate-set-parameters"@);
    assert(HARD_DENYLIST[4]@ == "migrate-set-capabilities"@);
    assert(HARD_DENYLIST[5]@ == "migrate-recover"@);
    assert(HARD_DENYLIST[6]@ == "migrate-continue"@);
    assert(HARD_DENYLIST[7]@ == "migrate-pause"@);
    assert(HARD_DENYLIST[8]@ == "migrate-start-postcopy"@);
    assert(HARD_DENYLIST[9]@ == "xen-save-devices-state"@);
    assert(HARD_DENYLIST[10]@ == "xen-load-devices-state"@);
    assert(HARD_DENYLIST[11]@ == "dump-guest-memory"@);
    assert(HARD_DENYLIST[12]@ == "pmemsave"@);
    assert(HARD_DENYLIST[13]@ == "memsave"@);
    assert(HARD_DENYLIST[14]@ == "object-add"@);
    assert(HARD_DENYLIST[15]@ == "blockdev-add"@);
    assert(HARD_DENYLIST[16]@ == "device_add"@);
    assert(HARD_DENYLIST[17]@ == "netdev_add"@);
    assert(HARD_DENYLIST[18]@ == "chardev-add"@);
    assert(HARD_DENYLIST[19]@ == "chardev-change"@);
    assert(HARD_DENYLIST[20]@ == "qom-set"@);
    assert(HARD_DENYLIST[21]@ == "getfd"@);
    assert(HARD_DENYLIST[22]@ == "add-fd"@);
    assert(HARD_DENYLIST[23]@ == "drive-backup"@);
    assert(HARD_DENYLIST[24]@ == "blockdev-backup"@);
    assert(HARD_DENYLIST[25]@ == "drive-mirror"@);
    assert(HARD_DENYLIST[26]@ == "blockdev-mirror"@);
    assert(HARD_DENYLIST[27]@ == "blockdev-create"@);
    assert(HARD_DENYLIST[28]@ == "block-export-add"@);
    assert(HARD_DENYLIST[29]@ == "nbd-server-start"@);
    assert(HARD_DENYLIST[30]@ == "nbd-server-add"@);
    assert(HARD_DENYLIST[31]@ == "block-commit"@);
    assert(HARD_DENYLIST[32]@ == "block-stream"@);
    assert(HARD_DENYLIST[33]@ == "block_resize"@);
    assert(HARD_DENYLIST[34]@ == "blockdev-snapshot"@);
    assert(HARD_DENYLIST[35]@ == "blockdev-snapshot-sync"@);
    assert(HARD_DENYLIST[36]@ == "blockdev-snapshot-internal-sync"@);
}

/// An entry names a command: the two are the same but for padding and letter case, and not
/// blank.
pub open spec fn names(entry: Seq<char>, command: Seq<char>) -> bool {
    text::lowercase(text::trimmed(entry)) == text::lowercase(text::trimmed(command))
        && text::lowercase(text::trimmed(command)).len() > 0
}

/// A command is permitted exactly where it is not on the hard denylist, no deny entry names it,
/// and it is allowed by default or some allow entry names it. A refusal says that it is hard
/// exactly where the hard denylist is the reason, and both carry the name in its normal form.
pub proof fn verdicts_follow_the_lists(
    policy: ResolvedPolicy,
    overrides: PolicyOverrides,
    command: Seq<char>,
    v: CommandVerdict,
)
    requires
        is_built_from(policy, overrides),
        is_verdict(policy, command, v),
    ensures
        v is Allowed <==> !hard_denied(text::lowercase(text::trimmed(command))) && (forall|i: int|
            0 <= i < overrides.deny@.len() ==> !names((#[trigger] overrides.deny@[i])@, command))
            && (default_allowed(text::lowercase(text::trimmed(command))) || exists|i: int|
            0 <= i < overrides.allow@.len() && names((#[trigger] overrides.allow@[i])@, command)),
        v matches CommandVerdict::Allowed { command: c } ==> c@ == text::lowercase(
            text::trimmed(command),
        ),
        v matches CommandVerdict::Denied { command: c, reason, hard_denied: h } ==> {
            let name = text::lowercase(text::trimmed(command));
            let by_entry = exists|i: int|
                0 <= i < overrides.deny@.len() && names((#[trigger] overrides.deny@[i])@, command);
            &&& c@ == name
            &&& h == hard_denied(name)
            &&& reason@ == "QMP command \""@ + name + (if h {
                HARD_DENIAL@
            } else if by_entry {
                OVERRIDE_DENIAL@
            } else {
                DEFAULT_DENIAL@
            })
        },
{
    let name = normalized(command);
    assert(policy.allows(name) == (default_allowed(name) || listed(overrides.allow@, name)));
    assert(policy.denies(name) == listed(overrides.deny@, name));
    if listed(overrides.allow@, name) {
        let i = choose|i: int|
            0 <= i < overrides.allow@.len() && normalized((#[trigger] overrides.allow@[i])@) == name;
        assert(names(overrides.allow@[i]@, command));
    }
    if listed(overrides.deny@, name) {
        let i = choose|i: int|
            0 <= i < overrides.deny@.len() && normalized((#[trigger] overrides.deny@[i])@) == name;
        assert(names(overrides.deny@[i]@, command));
    }
    if exists|i: int|
        0 <= i < overrides.allow@.len() && names((#[trigger] overrides.allow@[i])@, command) {
        let i = choose|i: int|
            0 <= i < overrides.allow@.len() && names((#[trigger] overrides.allow@[i])@, command);
        assert(normalized(overrides.allow@[i]@) == name);
    }
    if exists|i: int|
        0 <= i < overrides.deny@.len() && names((#[trigger] overrides.deny@[i])@, command) {
        let i = choose|i: int|
            0 <= i < overrides.deny@.len() && names((#[trigger] overrides.deny@[i])@, command);
        assert(normalized(overrides.deny@[i]@) == name);
    }
}

/// A policy made from lists of names, as they are loaded, judges by every one of them.
pub proof fn loaded_lists_count_whole(
    policy: ResolvedPolicy,
    lists: (Seq<Seq<char>>, Seq<Seq<char>>),
    command: Seq<char>,
)
    requires
        policy_of(policy, lists),
    ensures
        ruling(policy, normalized(command)) == Ruling::Allow <==> !hard_denied(normalized(command))
            && (forall|i: int| 0 <= i < lists.1.len() ==> !names(#[trigger] lists.1[i], command))
            && (default_allowed(normalized(command)) || exists|i: int|
            0 <= i < lists.0.len() && names(#[trigger] lists.0[i], command)),
{
    let name = normalized(command);
    assert(policy.allows(name) == (default_allowed(name) || listed_text(lists.0, name)));
    assert(policy.denies(name) == listed_text(lists.1, name));
    if listed_text(lists.0, name) {
        let i = choose|i: int| 0 <= i < lists.0.len() && normalized(#[trigger] lists.0[i]) == name;
        assert(names(lists.0[i], command));
    }
    if listed_text(lists.1, name) {
        let i = choose|i: int| 0 <= i < lists.1.len() && normalized(#[trigger] lists.1[i]) == name;
        assert(names(lists.1[i], command));
    }
    if exists|i: int| 0 <= i < lists.0.len() && names(#[trigger] lists.0[i], command) {
        let i = choose|i: int| 0 <= i < lists.0.len() && names(#[trigger] lists.0[i], command);
        assert(normalized(lists.0[i]) == name);
    }
    if exists|i: int| 0 <= i < lists.1.len() && names(#[trigger] lists.1[i], command) {
        let i = choose|i: int| 0 <= i < lists.1.len() && names(#[trigger] lists.1[i], command);
        assert(normalized(lists.1[i]) == name);
    }
}

/// The entries that an override list cannot move are those on the hard denylist, in order and
/// as they were written but for padding.
pub proof fn ignored_entries_are_hard_denied(entries: Seq<Seq<char>>)
    ensures
        ignored(entries) == entries.filter(
            |e: Seq<char>| hard_denied(text::lowercase(text::trimmed(e))),
        ).map_values(|e: Seq<char>| text::trimmed(e)),
    decreases entries.len(),
{
    reveal(Seq::filter);
    let p = |e: Seq<char>| hard_denied(text::lowercase(text::trimmed(e)));
    let t = |e: Seq<char>| text::trimmed(e);
    if entries.len() == 0 {
        assert(entries.filter(p).map_values(t) =~= Seq::empty());
    } else {
        let init = entries.drop_last();
        ignored_entries_are_hard_denied(init);
        if p(entries.last()) {
            assert(entries.filter(p) == init.filter(p).push(entries.last()));
            assert(entries.filter(p).map_values(t) =~= init.filter(p).map_values(t).push(
                t(entries.last()),
            ));
        }
    }
}

/// An entry of a policy file is well-formed: under one of the two keys, which no earlier entry
/// has, a list.
pub open spec fn is_entry(entries: Seq<EntryTexts>, i: int) -> bool {
    &&& entries[i].0 == Ok::<Seq<char>, Seq<char>>("allow"@) || entries[i].0 == Ok::<
        Seq<char>,
        Seq<char>,
    >("deny"@)
    &&& entries[i].1 is Ok
    &&& forall|j: int| 0 <= j < i ==> (#[trigger] entries[j]).0 != entries[i].0
}

proof fn lemma_entry(entries: Seq<EntryTexts>, i: int)
    requires
        0 <= i < entries.len(),
    ensures
        entry_problem(entries, i) is None <==> is_entry(entries, i),
{
    if entries[i].0 is Ok {
        let key = entries[i].0->Ok_0;
        if has_key(entries, i, key) {
            let j = choose|j: int|
                0 <= j < i && (#[trigger] entries[j]).0 == Ok::<Seq<char>, Seq<char>>(key);
            assert(entries[j].0 == entries[i].0);
        }
    }
}

proof fn lemma_listed_under(entries: Seq<EntryTexts>, key: Seq<char>)
    requires
        forall|i: int| 0 <= i < entries.len() ==> #[trigger] is_entry(entries, i),
    ensures
        forall|i: int|
            0 <= i < entries.len() && (#[trigger] entries[i]).0 == Ok::<Seq<char>, Seq<char>>(key)
                ==> listed_under(entries, key) == entries[i].1->Ok_0,
        (forall|i: int|
            0 <= i < entries.len() ==> (#[trigger] entries[i]).0 != Ok::<Seq<char>, Seq<char>>(key))
            ==> listed_under(entries, key).len() == 0,
    decreases entries.len(),
{
    if entries.len() > 0 {
        let init = entries.drop_last();
        assert forall|i: int| 0 <= i < init.len() implies #[trigger] is_entry(init, i) by {
            assert(is_entry(entries, i));
            assert(init[i] == entries[i]);
            assert forall|j: int| 0 <= j < i implies (#[trigger] init[j]).0 != init[i].0 by {
                assert(entries[j].0 != entries[i].0);
            }
        }
        lemma_listed_under(init, key);
        let n = entries.len() - 1;
        assert(is_entry(entries, n));
        assert(entries.last() == entries[n]);
        if entries[n].0 == Ok::<Seq<char>, Seq<char>>(key) {
            assert forall|i: int| 0 <= i < init.len() implies (#[trigger] init[i]).0 != Ok::<
                Seq<char>,
                Seq<char>,
            >(key) by {
                assert(entries[i].0 != entries[n].0);
            }
            assert(listed_under(entries, key) =~= entries[n].1->Ok_0);
        } else {
            assert(listed_under(entries, key) =~= listed_under(init, key));
            assert forall|i: int|
                0 <= i < entries.len() && (#[trigger] entries[i]).0 == Ok::<Seq<char>, Seq<char>>(
                    key,
                ) implies listed_under(entries, key) == entries[i].1->Ok_0 by {
                assert(init[i] == entries[i]);
            }
            if forall|i: int|
                0 <= i < entries.len() ==> (#[trigger] entries[i]).0 != Ok::<Seq<char>, Seq<char>>(
                    key,
                ) {
                assert forall|i: int| 0 <= i < init.len() implies (#[trigger] init[i]).0 != Ok::<
                    Seq<char>,
                    Seq<char>,
                >(key) by {
                    assert(entries[i] == init[i]);
                }
            }
        }
    }
}

/// A policy file is accepted exactly where each of its entries is well-formed, and gives then
/// the list under each of the two keys, or none where the key is missing. Otherwise the first
/// entry that is not well-formed is what the refusal speaks of.
pub proof fn files_hold_what_their_keys_hold(path: Seq<char>, entries: Seq<EntryTexts>, i: int)
    requires
        0 <= i < entries.len() || entries.len() == 0,
    ensures
        overrides_in(path, entries) is Ok <==> forall|k: int|
            0 <= k < entries.len() ==> #[trigger] is_entry(entries, k),
        overrides_in(path, entries) matches Ok(lists) ==> {
            &&& entries.len() > 0 && entries[i].0 == Ok::<Seq<char>, Seq<char>>("allow"@)
                ==> lists.0 == entries[i].1->Ok_0
            &&& entries.len() > 0 && entries[i].0 == Ok::<Seq<char>, Seq<char>>("deny"@)
                ==> lists.1 == entries[i].1->Ok_0
            &&& (forall|k: int|
                0 <= k < entries.len() ==> (#[trigger] entries[k]).0 != Ok::<Seq<char>, Seq<char>>(
                    "allow"@,
                )) ==> lists.0.len() == 0
            &&& (forall|k: int|
                0 <= k < entries.len() ==> (#[trigger] entries[k]).0 != Ok::<Seq<char>, Seq<char>>(
                    "deny"@,
                )) ==> lists.1.len() == 0
        },
        entries.len() > 0 && !is_entry(entries, i) && (forall|k: int|
            0 <= k < i ==> #[trigger] is_entry(entries, k)) ==> overrides_in(path, entries) == Err::<
            (Seq<Seq<char>>, Seq<Seq<char>>),
            Seq<char>,
        >(
            misshapen_file(
                path,
                match entries[i] {
                    (Err(m), _) => m,
                    (Ok(key), list) => if key != "allow"@ && key != "deny"@ {
                        "unknown field `"@ + key + "`, expected `allow` or `deny`"@
                    } else if exists|k: int|
                        0 <= k < i && (#[trigger] entries[k]).0 == Ok::<Seq<char>, Seq<char>>(key) {
                        "duplicate field `"@ + key + "`"@
                    } else {
                        list->Err_0
                    },
                },
            ),
        ),
{
    assert forall|k: int| 0 <= k < entries.len() implies (entry_problem(entries, k) is None <==> (
    #[trigger] is_entry(entries, k))) by {
        lemma_entry(entries, k);
    }
    if exists|k: int| first_problem(entries, k) {
        let k = choose|k: int| first_problem(entries, k);
        assert(!is_entry(entries, k));
        if entries.len() > 0 && !is_entry(entries, i) && (forall|k: int|
            0 <= k < i ==> #[trigger] is_entry(entries, k)) {
            if k < i {
                assert(is_entry(entries, k));
            }
            if i < k {
                assert(entry_problem(entries, i) is None);
            }
            assert(k == i);
        }
    } else {
        assert forall|k: int| 0 <= k < entries.len() implies #[trigger] is_entry(entries, k) by {
            lemma_no_problem(entries, k);
        }
        lemma_listed_under(entries, "allow"@);
        lemma_listed_under(entries, "deny"@);
    }
}

proof fn lemma_no_problem(entries: Seq<EntryTexts>, k: int)
    requires
        0 <= k < entries.len(),
        !(exists|k: int| first_problem(entries, k)),
    ensures
        is_entry(entries, k),
    decreases k,
{
    lemma_entry(entries, k);
    assert forall|j: int| 0 <= j < k implies #[trigger] entry_problem(entries, j) is None by {
        lemma_no_problem(entries, j);
        lemma_entry(entries, j);
    }
    assert(!first_problem(entries, k));
}

/// The overrides are those of the two environment settings, followed by those of the policy
/// file where one is set. A file that cannot be read, or is not YAML, or has another shape is
/// refused with its path and the reason.
pub proof fn overrides_come_from_both_places(
    env: Map<Seq<char>, Seq<char>>,
    read: Result<Seq<char>, Seq<char>>,
)
    ensures
        ({
            let path = text::trimmed(env["QMP_MCP_POLICY_FILE"@]);
            let set = env.contains_key("QMP_MCP_POLICY_FILE"@) && !text::is_blank(
                env["QMP_MCP_POLICY_FILE"@],
            );
            let allow = if env.contains_key("QMP_MCP_ALLOW"@) {
                text::comma_list(env["QMP_MCP_ALLOW"@])
            } else {
                Seq::empty()
            };
            let deny = if env.contains_key("QMP_MCP_DENY"@) {
                text::comma_list(env["QMP_MCP_DENY"@])
            } else {
                Seq::empty()
            };
            let r = all_overrides(env, read);
            &&& !set ==> r == Ok::<(Seq<Seq<char>>, Seq<Seq<char>>), Seq<char>>((allow, deny))
            &&& set ==> match read {
                Err(e) => r == Err::<(Seq<Seq<char>>, Seq<Seq<char>>), Seq<char>>(
                    unreadable_file(path, e),
                ),
                Ok(text) => match (yaml_syntax_error(text), yaml_entries(text)) {
                    (Some(e), _) => r == Err::<(Seq<Seq<char>>, Seq<Seq<char>>), Seq<char>>(
                        malformed_file(path, e),
                    ),
                    (None, Err(e)) => r == Err::<(Seq<Seq<char>>, Seq<Seq<char>>), Seq<char>>(
                        misshapen_file(path, e),
                    ),
                    (None, Ok(entries)) => match overrides_in(path, entries) {
                        Err(m) => r == Err::<(Seq<Seq<char>>, Seq<Seq<char>>), Seq<char>>(m),
                        Ok(lists) => r matches Ok(all) && all.0 == allow + lists.0 && all.1 == deny
                            + lists.1,
                    },
                },
            }
        }),
{
}

/// What is said of a load is all that it gives: every allow and every deny entry in order, or the
/// text of the error; and so it is of what was read and of an entry of a file.
pub proof fn loads_are_seen_whole(
    r: Result<(Vec<String>, Vec<String>), PolicyError>,
    s: Result<(Seq<Seq<char>>, Seq<Seq<char>>), Seq<char>>,
    read: Result<String, String>,
    e: (Result<String, String>, Result<Vec<String>, String>),
    v: Seq<(Result<String, String>, Result<Vec<String>, String>)>,
)
    ensures
        agrees(r, s) <==> (r is Ok && s is Ok && text::texts(r->Ok_0.0@) == s->Ok_0.0 && text::texts(
            r->Ok_0.1@,
        ) == s->Ok_0.1) || (r is Err && s is Err && r->Err_0.0@ == s->Err_0),
        read matches Ok(t) ==> read_of(read) == Ok::<Seq<char>, Seq<char>>(t@),
        read matches Err(m) ==> read_of(read) == Err::<Seq<char>, Seq<char>>(m@),
        e.0 matches Ok(k) ==> entry_of(e).0 == Ok::<Seq<char>, Seq<char>>(k@),
        e.0 matches Err(m) ==> entry_of(e).0 == Err::<Seq<char>, Seq<char>>(m@),
        e.1 matches Ok(l) ==> entry_of(e).1 == Ok::<Seq<Seq<char>>, Seq<char>>(text::texts(l@)),
        e.1 matches Err(m) ==> entry_of(e).1 == Err::<Seq<Seq<char>>, Seq<char>>(m@),
        entries_of(v).len() == v.len(),
        forall|i: int| 0 <= i < v.len() ==> #[trigger] entries_of(v)[i] == entry_of(v[i]),
{
}

/// A file that is refused is refused with its path and the reason, and with what it must be.
pub proof fn file_refusals_name_the_path(path: Seq<char>, error: Seq<char>)
    ensures
        unreadable_file(path, error) == "QMP_MCP_POLICY_FILE could not be read: "@ + path + " ("@
            + error
            + "). Point it at a readable YAML file, or unset it to use the built-in default policy."@,
        malformed_file(path, error) == "QMP_MCP_POLICY_FILE is not valid YAML: "@ + path + " ("@
            + error + "). Fix the syntax, or unset it to use the built-in default policy."@,
        misshapen_file(path, error) == "QMP_MCP_POLICY_FILE has the wrong shape: "@ + path
            + ". It must be a YAML mapping with optional \"allow\" and \"deny\" lists of command-name strings, e.g. `allow: [query-pci]`. ("@
            + error + ")"@,
{
}

} // verus!
