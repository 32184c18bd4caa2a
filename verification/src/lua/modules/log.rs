//! `@skekbot/log`: where a script's message comes from, and at which level it is logged.
use vstd::prelude::*;
use vstd::string::StringExecFns;

use crate::text::{
    chars_of, ends_with, has_prefix, has_suffix, same_text, slice_chars, starts_with, string_of,
    to_uppercase, uppercase,
};

verus! {

/// The levels that a script can log at.
#[derive(Debug, Clone, Copy, PartialEq, Eq, Structural)]
pub enum LogLevel {
    Error,
    Warn,
    Info,
}

/// The level named by a level in upper case: `ERROR` and `WARN` by name, anything else is
/// `Info`.
pub open spec fn level_of(upper: Seq<char>) -> LogLevel {
    if upper == "ERROR"@ {
        LogLevel::Error
    } else if upper == "WARN"@ {
        LogLevel::Warn
    } else {
        LogLevel::Info
    }
}

/// The level named by `upper`, a level already in upper case.
pub fn level_from_uppercase(upper: &str) -> (r: LogLevel)
    ensures
        r == level_of(upper@),
{
    let v = chars_of(upper);
    if same_text(&v, "ERROR") {
        LogLevel::Error
    } else if same_text(&v, "WARN") {
        LogLevel::Warn
    } else {
        LogLevel::Info
    }
}

/// The level that a script asked for, in any case.
pub fn log_level(level: &str) -> (r: LogLevel)
    ensures
        r == level_of(uppercase(level@)),
{
    level_from_uppercase(to_uppercase(level).as_str())
}

/// The logged line: the location in parentheses, then the message.
pub fn log_line(location: &str, message: &str) -> (r: String)
    ensures
        r@ == "("@ + location@ + ") "@ + message@,
{
    String::from_str("(").concat(location).concat(") ").concat(message)
}

/// The chunk name as a location: a `[string "..."]` wrapper is removed, then a leading `=`
/// or `@`.
pub open spec fn chunk_source(source: Seq<char>) -> Seq<char> {
    let unwrapped = if source.len() >= 11 && starts_with(source, "[string \""@) && ends_with(
        source,
        "\"]"@,
    ) {
        source.subrange(9, source.len() - 2)
    } else {
        source
    };
    if unwrapped.len() > 0 && (unwrapped[0] == '=' || unwrapped[0] == '@') {
        unwrapped.drop_first()
    } else {
        unwrapped
    }
}

/// Where a logged message comes from: the caller's chunk and line as `source:line`, or
/// `unknown` when the caller has no source.
pub open spec fn caller_location_spec(source: Option<Seq<char>>, line: Seq<char>) -> Seq<char> {
    match source {
        Some(s) => chunk_source(s) + ":"@ + line,
        None => "unknown"@,
    }
}

/// Where a logged message comes from, given the caller's chunk name (if any) and its line as
/// text.
pub fn caller_location(source: Option<&str>, line: &str) -> (r: String)
    ensures
        r@ == caller_location_spec(
            match source {
                Some(s) => Some(s@),
                None => None,
            },
            line@,
        ),
{
    proof {
        reveal_strlit("[string \"");
        reveal_strlit("\"]");
        reveal_strlit(":");
    }
    match source {
        None => String::from_str("unknown"),
        Some(s) => {
            let v = chars_of(s);
            let unwrapped = if v.len() >= 11 && has_prefix(&v, "[string \"") && has_suffix(
                &v,
                "\"]",
            ) {
                slice_chars(&v, 9, v.len() - 2)
            } else {
                v
            };
            let cleaned = if unwrapped.len() > 0 && (unwrapped[0] == '=' || unwrapped[0] == '@') {
                slice_chars(&unwrapped, 1, unwrapped.len())
            } else {
                unwrapped
            };
            assert(cleaned@ =~= chunk_source(s@));
            string_of(&cleaned).concat(":").concat(line)
        },
    }
}

} // verus!
