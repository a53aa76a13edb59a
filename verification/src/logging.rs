//! The lines of the error log.

use vstd::prelude::*;
use crate::text::{decimal, decimal_string, spaced, replace_chars_with_space};

verus! {

/// The line breaks that a log line cannot hold.
pub open spec fn line_breaks() -> Seq<char> {
    seq!['\r', '\n']
}

/// A log line: the time in seconds, the level, and the context and
/// message with their line breaks turned into spaces.
pub open spec fn log_line_of(timestamp: u64, level: Seq<char>, context: Seq<char>, message: Seq<char>) -> Seq<char> {
    decimal(timestamp as nat) + " "@ + level + " "@ + spaced(context, line_breaks()) + ": "@ + spaced(
        message,
        line_breaks(),
    )
}

/// The log line for an event, without its terminating newline.
pub fn log_line(timestamp: u64, level: &str, context: &str, message: &str) -> (r: String)
    ensures
        r@ == log_line_of(timestamp, level@, context@, message@),
{
    let breaks = vec!['\r', '\n'];
    assert(breaks@ =~= line_breaks());
    let mut line = decimal_string(timestamp);
    line.append(" ");
    line.append(level);
    line.append(" ");
    line.append(replace_chars_with_space(context, &breaks).as_str());
    line.append(": ");
    line.append(replace_chars_with_space(message, &breaks).as_str());
    line
}

} // verus!
