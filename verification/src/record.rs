//! The log record handed to a renderer, and the text fragments both
//! renderers share: the level name and the `[<module>] <message>` body.

use vstd::prelude::*;

verus! {

/// Severity of a log record, from most to least severe.
#[derive(Clone, Copy, PartialEq, Eq, Structural, Debug)]
pub enum Level {
    Error,
    Warn,
    Info,
    Debug,
    Trace,
}

/// The upper-case textual name of a severity level.
pub open spec fn level_name(l: Level) -> Seq<char> {
    match l {
        Level::Error => "ERROR"@,
        Level::Warn => "WARN"@,
        Level::Info => "INFO"@,
        Level::Debug => "DEBUG"@,
        Level::Trace => "TRACE"@,
    }
}

impl Level {
    /// The upper-case name of the level, e.g. `"DEBUG"`.
    pub fn as_str(&self) -> (r: &'static str)
        ensures
            r@ == level_name(*self),
    {
        match self {
            Level::Error => "ERROR",
            Level::Warn => "WARN",
            Level::Info => "INFO",
            Level::Debug => "DEBUG",
            Level::Trace => "TRACE",
        }
    }
}

/// One structured log record: what a renderer turns into a line. The message
/// is already fully interpolated; the module path may be absent.
pub struct LogRecord {
    pub level: Level,
    pub module: Option<String>,
    pub message: String,
}

/// The module path as text: the path itself, or empty where absent.
pub open spec fn module_text(r: LogRecord) -> Seq<char> {
    match r.module {
        Some(m) => m@,
        None => Seq::<char>::empty(),
    }
}

/// `[<module>] <message>`: the body both renderers share. The simple
/// renderer writes it after the level name; the JSON renderer puts its
/// escaped form in the `msg` field.
pub open spec fn bracketed_message(r: LogRecord) -> Seq<char> {
    "["@ + module_text(r) + "] "@ + r.message@
}

/// Builds `[<module>] <message>` for a record.
pub fn render_bracketed_message(record: &LogRecord) -> (r: String)
    ensures
        r@ == bracketed_message(*record),
{
    let mut s = String::from_str("[");
    match &record.module {
        Some(m) => s.append(m.as_str()),
        None => (),
    }
    s.append("] ");
    s.append(record.message.as_str());
    proof {
        assert(s@ =~= bracketed_message(*record));
    }
    s
}

} // verus!
