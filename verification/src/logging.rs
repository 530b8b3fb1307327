//! Which log messages are emitted, and where the log file may lie.

use vstd::prelude::*;

use crate::config::LogLevel;
use crate::text;

verus! {

/// The level of a log message.
#[derive(Debug, Clone, Copy, PartialEq, Eq, Structural)]
pub enum Level {
    /// Finest detail.
    Trace,
    /// Debugging detail.
    Debug,
    /// Information.
    Info,
    /// Warnings.
    Warn,
    /// Errors.
    Error,
}

/// The subsystem that a log target belongs to.
pub open spec fn subsystem(target: Seq<char>) -> Option<Seq<char>> {
    if target == "qmp_mcp"@ || text::has_prefix(target, "qmp_mcp::server"@) {
        Some("server"@)
    } else if text::has_prefix(target, "qmp_mcp::instance::download"@) || text::has_prefix(
        target,
        "qmp_mcp::instance::catalog"@,
    ) {
        Some("download"@)
    } else if text::has_prefix(target, "qmp_mcp::instance"@) {
        Some("orchestrator"@)
    } else if text::has_prefix(target, "qmp_mcp::qemu"@) {
        Some("qmp"@)
    } else if text::has_prefix(target, "qmp_mcp::viewer"@) {
        Some("viewer"@)
    } else if text::has_prefix(target, "qmp_mcp::policy"@) {
        Some("policy"@)
    } else {
        None
    }
}

/// The subsystem that a log target (a module path) belongs to. Targets of other crates
/// belong to none, and follow the global level only.
pub fn subsystem_for_target(target: &str) -> (r: Option<&'static str>)
    ensures
        text::text_of(r) == subsystem(target@),
{
    if text::str_eq(target, "qmp_mcp") || text::starts_with(target, "qmp_mcp::server") {
        return Some("server");
    }
    if text::starts_with(target, "qmp_mcp::instance::download") || text::starts_with(
        target,
        "qmp_mcp::instance::catalog",
    ) {
        return Some("download");
    }
    if text::starts_with(target, "qmp_mcp::instance") {
        return Some("orchestrator");
    }
    if text::starts_with(target, "qmp_mcp::qemu") {
        return Some("qmp");
    }
    if text::starts_with(target, "qmp_mcp::viewer") {
        return Some("viewer");
    }
    if text::starts_with(target, "qmp_mcp::policy") {
        return Some("policy");
    }
    None
}

/// The severity of a message; the finest detail counts as debugging detail.
pub open spec fn severity_of(level: Level) -> u8 {
    match level {
        Level::Trace => 0,
        Level::Debug => 0,
        Level::Info => 1,
        Level::Warn => 2,
        Level::Error => 3,
    }
}

/// The severity of a message of this level.
pub fn severity(level: Level) -> (r: u8)
    ensures
        r == severity_of(level),
{
    match level {
        Level::Trace => 0,
        Level::Debug => 0,
        Level::Info => 1,
        Level::Warn => 2,
        Level::Error => 3,
    }
}

/// The least severity that a configured level lets through.
pub open spec fn least_severity(level: LogLevel) -> u8 {
    match level {
        LogLevel::Debug => 0,
        LogLevel::Info => 1,
        LogLevel::Warning => 2,
        LogLevel::Error => 3,
    }
}

/// The least severity that a configured level lets through.
pub fn min_severity(level: LogLevel) -> (r: u8)
    ensures
        r == least_severity(level),
{
    match level {
        LogLevel::Debug => 0,
        LogLevel::Info => 1,
        LogLevel::Warning => 2,
        LogLevel::Error => 3,
    }
}

/// The level that overrides are set to for a subsystem; the first one recorded counts.
pub open spec fn override_in(filters: Seq<(String, LogLevel)>, name: Seq<char>) -> Option<LogLevel>
    decreases filters.len(),
{
    if filters.len() == 0 {
        None
    } else if filters[0].0@ == name {
        Some(filters[0].1)
    } else {
        override_in(filters.skip(1), name)
    }
}

/// The level that a target is logged at: the override for its subsystem, or the global one.
pub open spec fn effective_level(
    target: Seq<char>,
    level: LogLevel,
    filters: Seq<(String, LogLevel)>,
) -> LogLevel {
    match subsystem(target) {
        None => level,
        Some(name) => match override_in(filters, name) {
            Some(l) => l,
            None => level,
        },
    }
}

fn find_override(filters: &Vec<(String, LogLevel)>, name: &str) -> (r: Option<LogLevel>)
    ensures
        r == override_in(filters@, name@),
{
    let mut i: usize = 0;
    assert(filters@.skip(0) =~= filters@);
    while i < filters.len()
        invariant
            i <= filters.len(),
            override_in(filters@.skip(i as int), name@) == override_in(filters@, name@),
        decreases filters.len() - i,
    {
        assert(filters@.skip(i as int).skip(1) =~= filters@.skip(i + 1));
        if text::str_eq(filters[i].0.as_str(), name) {
            return Some(filters[i].1);
        }
        i = i + 1;
    }
    None
}

/// Whether a message is emitted: its severity reaches the level its target is logged at.
pub fn enabled(
    message: Level,
    target: &str,
    level: LogLevel,
    filters: &Vec<(String, LogLevel)>,
) -> (r: bool)
    ensures
        r == (severity_of(message) >= least_severity(effective_level(target@, level, filters@))),
{
    let least = match subsystem_for_target(target) {
        None => level,
        Some(name) => match find_override(filters, name) {
            Some(l) => l,
            None => level,
        },
    };
    severity(message) >= min_severity(least)
}

// ---------------------------------------------------------------------------
// The log file
// ---------------------------------------------------------------------------

/// What lies at the directory of the log file.
#[derive(Debug, Clone, Copy, PartialEq, Eq, Structural)]
pub enum Parent {
    /// Nothing that can be examined.
    Missing,
    /// Something that is not a directory.
    NotDirectory,
    /// A directory.
    Directory,
}

/// Why a log file is refused, if it is.
pub open spec fn log_file_problem(
    path: Seq<char>,
    dir: Seq<char>,
    parent: Parent,
    is_directory: bool,
) -> Option<Seq<char>> {
    match parent {
        Parent::Missing => Some(
            "QMP_MCP_LOG_FILE: directory \""@ + dir
                + "\" does not exist (create it first; the server does not create log directories)."@,
        ),
        Parent::NotDirectory => Some(
            "QMP_MCP_LOG_FILE: \""@ + dir + "\" is not a directory."@,
        ),
        Parent::Directory => if is_directory {
            Some("QMP_MCP_LOG_FILE: \""@ + path + "\" is a directory, not a file."@)
        } else {
            None
        },
    }
}

/// Check the place of the log file before it is opened for appending: its directory `dir`
/// must exist, and the path itself must not be a directory.
pub fn check_log_file(path: &str, dir: &str, parent: Parent, is_directory: bool) -> (r: Result<
    (),
    String,
>)
    ensures
        match r {
            Ok(_) => log_file_problem(path@, dir@, parent, is_directory) is None,
            Err(m) => log_file_problem(path@, dir@, parent, is_directory) == Some(m@),
        },
{
    match parent {
        Parent::Missing => Err(
            text::cat3(
                "QMP_MCP_LOG_FILE: directory \"",
                dir,
                "\" does not exist (create it first; the server does not create log directories).",
            ),
        ),
        Parent::NotDirectory => Err(
            text::cat3("QMP_MCP_LOG_FILE: \"", dir, "\" is not a directory."),
        ),
        Parent::Directory => {
            if is_directory {
                Err(text::cat3("QMP_MCP_LOG_FILE: \"", path, "\" is a directory, not a file."))
            } else {
                Ok(())
            }
        },
    }
}

/// A message that is emitted at one level is emitted at every more permissive level.
pub proof fn permissive_levels_emit_more(message: Level, strict: LogLevel, permissive: LogLevel)
    requires
        least_severity(permissive) <= least_severity(strict),
        severity_of(message) >= least_severity(strict),
    ensures
        severity_of(message) >= least_severity(permissive),
{
}

/// A target begins with a module path of the server.
pub open spec fn is_under(target: Seq<char>, module: Seq<char>) -> bool {
    exists|rest: Seq<char>| target == #[trigger] (module + rest)
}

proof fn lemma_under(target: Seq<char>, module: Seq<char>)
    ensures
        text::has_prefix(target, module) <==> is_under(target, module),
{
    if text::has_prefix(target, module) {
        let rest = target.skip(module.len() as int);
        assert(target =~= module + rest);
    }
    if is_under(target, module) {
        let rest = choose|rest: Seq<char>| target == #[trigger] (module + rest);
        assert(Seq::empty() + module + rest =~= target);
        text::parts_are_found(Seq::empty(), module, rest, target);
    }
}

/// A target belongs to the subsystem of the module that it is in. Downloads and the catalog are a
/// subsystem of their own, though they are part of the Instance, and what is not of the server
/// belongs to none.
pub proof fn targets_belong_to_their_module(target: Seq<char>)
    ensures
        ({
            let own = |m: Seq<char>| is_under(target, m);
            let server = target == "qmp_mcp"@ || own("qmp_mcp::server"@);
            let download = own("qmp_mcp::instance::download"@) || own("qmp_mcp::instance::catalog"@);
            &&& server ==> subsystem(target) == Some("server"@)
            &&& !server && download ==> subsystem(target) == Some("download"@)
            &&& !server && !download && own("qmp_mcp::instance"@) ==> subsystem(target) == Some(
                "orchestrator"@,
            )
            &&& !server && !own("qmp_mcp::instance"@) && !download && own("qmp_mcp::qemu"@)
                ==> subsystem(target) == Some("qmp"@)
            &&& !server && !own("qmp_mcp::instance"@) && !download && !own("qmp_mcp::qemu"@) && own(
                "qmp_mcp::viewer"@,
            ) ==> subsystem(target) == Some("viewer"@)
            &&& !server && !own("qmp_mcp::instance"@) && !download && !own("qmp_mcp::qemu"@) && !own(
                "qmp_mcp::viewer"@,
            ) && own("qmp_mcp::policy"@) ==> subsystem(target) == Some("policy"@)
            &&& !server && !own("qmp_mcp::instance"@) && !download && !own("qmp_mcp::qemu"@) && !own(
                "qmp_mcp::viewer"@,
            ) && !own("qmp_mcp::policy"@) ==> subsystem(target) is None
        }),
{
    lemma_under(target, "qmp_mcp::server"@);
    lemma_under(target, "qmp_mcp::instance::download"@);
    lemma_under(target, "qmp_mcp::instance::catalog"@);
    lemma_under(target, "qmp_mcp::instance"@);
    lemma_under(target, "qmp_mcp::qemu"@);
    lemma_under(target, "qmp_mcp::viewer"@);
    lemma_under(target, "qmp_mcp::policy"@);
}

/// The first override recorded for a subsystem counts, wherever it stands, and the global level
/// where there is none.
pub proof fn the_first_override_counts(
    target: Seq<char>,
    level: LogLevel,
    filters: Seq<(String, LogLevel)>,
    name: Seq<char>,
    k: int,
)
    ensures
        override_in(filters, name) is None <==> forall|i: int|
            0 <= i < filters.len() ==> (#[trigger] filters[i]).0@ != name,
        0 <= k < filters.len() && filters[k].0@ == name && (forall|i: int|
            0 <= i < k ==> (#[trigger] filters[i]).0@ != name) ==> override_in(filters, name)
            == Some(filters[k].1),
        subsystem(target) == Some(name) && 0 <= k < filters.len() && filters[k].0@ == name && (
        forall|i: int| 0 <= i < k ==> (#[trigger] filters[i]).0@ != name) ==> effective_level(
            target,
            level,
            filters,
        ) == filters[k].1,
        subsystem(target) is None || (subsystem(target) == Some(name) && forall|i: int|
            0 <= i < filters.len() ==> (#[trigger] filters[i]).0@ != name) ==> effective_level(
            target,
            level,
            filters,
        ) == level,
    decreases filters.len(),
{
    if filters.len() > 0 {
        let rest = filters.skip(1);
        the_first_override_counts(target, level, rest, name, k - 1);
        if forall|i: int| 0 <= i < filters.len() ==> (#[trigger] filters[i]).0@ != name {
            assert(filters[0].0@ != name);
            assert forall|i: int| 0 <= i < rest.len() implies (#[trigger] rest[i]).0@ != name by {
                assert(rest[i] == filters[i + 1]);
            }
        }
        if override_in(filters, name) is None {
            assert forall|i: int| 0 <= i < filters.len() implies (#[trigger] filters[i]).0@
                != name by {
                if i > 0 {
                    assert(rest[i - 1].0@ != name);
                }
            }
        }
        if 0 < k < filters.len() && filters[k].0@ == name && (forall|i: int|
            0 <= i < k ==> (#[trigger] filters[i]).0@ != name) {
            assert(filters[0].0@ != name);
            assert(rest[k - 1] == filters[k]);
            assert forall|i: int| 0 <= i < k - 1 implies (#[trigger] rest[i]).0@ != name by {
                assert(rest[i] == filters[i + 1]);
            }
        }
    }
}

/// Messages rank from detail over information and warnings to errors, and a level lets through
/// exactly the messages of its own rank and above.
pub proof fn levels_let_through_their_rank_and_above(m: Level)
    ensures
        severity_of(m) >= least_severity(LogLevel::Debug),
        severity_of(m) >= least_severity(LogLevel::Info) <==> m == Level::Info || m == Level::Warn
            || m == Level::Error,
        severity_of(m) >= least_severity(LogLevel::Warning) <==> m == Level::Warn || m
            == Level::Error,
        severity_of(m) >= least_severity(LogLevel::Error) <==> m == Level::Error,
        severity_of(Level::Trace) == 0,
        severity_of(Level::Debug) == 0,
        severity_of(Level::Info) == 1,
        severity_of(Level::Warn) == 2,
        severity_of(Level::Error) == 3,
        least_severity(LogLevel::Debug) == 0,
        least_severity(LogLevel::Info) == 1,
        least_severity(LogLevel::Warning) == 2,
        least_severity(LogLevel::Error) == 3,
{
}

/// A log file is accepted exactly where its directory is one and it is none itself. A refusal
/// names what is in the way.
pub proof fn log_files_need_a_directory(
    path: Seq<char>,
    dir: Seq<char>,
    parent: Parent,
    is_directory: bool,
)
    ensures
        log_file_problem(path, dir, parent, is_directory) is None <==> parent == Parent::Directory
            && !is_directory,
        log_file_problem(path, dir, parent, is_directory) matches Some(m) ==> if parent
            == Parent::Directory {
            text::has_infix(m, path)
        } else {
            text::has_infix(m, dir)
        },
        log_file_problem(path, dir, Parent::Missing, is_directory) == Some(
            "QMP_MCP_LOG_FILE: directory \""@ + dir
                + "\" does not exist (create it first; the server does not create log directories)."@,
        ),
        log_file_problem(path, dir, Parent::NotDirectory, is_directory) == Some(
            "QMP_MCP_LOG_FILE: \""@ + dir + "\" is not a directory."@,
        ),
        log_file_problem(path, dir, Parent::Directory, true) == Some(
            "QMP_MCP_LOG_FILE: \""@ + path + "\" is a directory, not a file."@,
        ),
{
    text::parts_are_found(
        "QMP_MCP_LOG_FILE: directory \""@,
        dir,
        "\" does not exist (create it first; the server does not create log directories)."@,
        "QMP_MCP_LOG_FILE: directory \""@ + dir
            + "\" does not exist (create it first; the server does not create log directories)."@,
    );
    text::parts_are_found(
        "QMP_MCP_LOG_FILE: \""@,
        dir,
        "\" is not a directory."@,
        "QMP_MCP_LOG_FILE: \""@ + dir + "\" is not a directory."@,
    );
    text::parts_are_found(
        "QMP_MCP_LOG_FILE: \""@,
        path,
        "\" is a directory, not a file."@,
        "QMP_MCP_LOG_FILE: \""@ + path + "\" is a directory, not a file."@,
    );
}

} // verus!
