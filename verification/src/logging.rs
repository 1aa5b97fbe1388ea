use vstd::prelude::*;

verus! {

broadcast use vstd::string::group_string_axioms;

/// A log record's severity, most severe first.
#[derive(PartialEq, Eq, Structural, Clone, Copy, Debug)]
pub enum LogLevel {
    Error,
    Warn,
    Info,
    Debug,
    Trace,
}

/// The level's place in the order from most to least severe.
pub open spec fn level_rank(level: LogLevel) -> nat {
    match level {
        LogLevel::Error => 1,
        LogLevel::Warn => 2,
        LogLevel::Info => 3,
        LogLevel::Debug => 4,
        LogLevel::Trace => 5,
    }
}

/// Whether the library's logger writes a record of `level`: everything up to
/// and including debug, never trace.
pub fn enabled(level: LogLevel) -> (r: bool)
    ensures
        r == (level_rank(level) <= level_rank(LogLevel::Debug)),
{
    match level {
        LogLevel::Trace => false,
        _ => true,
    }
}

/// The name a level is printed with.
pub open spec fn level_name(level: LogLevel) -> Seq<char> {
    match level {
        LogLevel::Error => "ERROR"@,
        LogLevel::Warn => "WARN"@,
        LogLevel::Info => "INFO"@,
        LogLevel::Debug => "DEBUG"@,
        LogLevel::Trace => "TRACE"@,
    }
}

fn level_str(level: LogLevel) -> (r: &'static str)
    ensures
        r@ == level_name(level),
{
    match level {
        LogLevel::Error => "ERROR",
        LogLevel::Warn => "WARN",
        LogLevel::Info => "INFO",
        LogLevel::Debug => "DEBUG",
        LogLevel::Trace => "TRACE",
    }
}

/// The line the logger writes for a record: the library tag, the level in
/// brackets, then the message.
pub fn log_line(level: LogLevel, message: &str) -> (r: String)
    ensures
        r@ == "[unity_dlp]["@ + level_name(level) + "] "@ + message@,
{
    let mut line = "[unity_dlp][".to_owned();
    line.append(level_str(level));
    line.append("] ");
    line.append(message);
    line
}

#[verifier::external_type_specification]
#[verifier::external_body]
pub struct ExSetLoggerError(log::SetLoggerError);

/// log `set_max_level(LevelFilter::Debug)`: raises the global level filter to
/// debug. Nothing is claimed of the global state.
#[verifier::external_body]
fn set_max_level_debug() {
    log::set_max_level(log::LevelFilter::Debug)
}

/// Finish installing the library's logger, given what `log::set_logger` said
/// of it. When ours was installed, the global level is raised to debug and
/// `true` returned; when a logger was already installed (ours from an earlier
/// init, or the host's), the global level is left alone and `false` returned.
pub fn init(installed: Result<(), log::SetLoggerError>) -> (raised: bool)
    ensures
        raised == installed is Ok,
{
    match installed {
        Ok(()) => {
            set_max_level_debug();
            true
        },
        Err(_) => false,
    }
}

} // verus!
