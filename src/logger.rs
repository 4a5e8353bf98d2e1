//! Diagnostic records for the user interface.

use vstd::prelude::*;
use crate::signals::LogSignal;

verus! {

fn record(level: &str, message: &str) -> (r: LogSignal)
    ensures
        r.level@ == level@,
        r.message@ == message@,
{
    LogSignal { level: level.to_owned(), message: message.to_owned() }
}

/// A debug record of `message`.
pub fn debug(message: &str) -> (r: LogSignal)
    ensures
        r.level@ == "DEBUG"@,
        r.message@ == message@,
{
    record("DEBUG", message)
}

/// An error record of `message`.
pub fn error(message: &str) -> (r: LogSignal)
    ensures
        r.level@ == "ERROR"@,
        r.message@ == message@,
{
    record("ERROR", message)
}

} // verus!
