//! What one invocation does: the action and format selectors, the errors a
//! `set` request can raise before any clock write, and the plan that fixes
//! the order of the steps.

use vstd::prelude::*;
use crate::parse::{parse_rfc2822_spec, parse_rfc3339_spec, read_rfc2822, read_rfc3339};
use crate::timestamp::Timestamp;

verus! {

/// The output format, and for `set` the expected input format.
#[derive(Clone, Copy, Debug, PartialEq, Eq, Structural)]
pub enum Format {
    Timestamp,
    Rfc2822,
    Rfc3339,
}

/// Whether the invocation only reads the clock or also writes it.
#[derive(Clone, Copy, Debug, PartialEq, Eq, Structural)]
pub enum Action {
    Get,
    SetClock,
}

/// Why a `set` request is rejected before any clock write.
#[derive(Clone, Copy, Debug, PartialEq, Eq, Structural)]
pub enum ParseError {
    /// `set` was asked for without a datetime argument.
    MissingDatetime,
    /// Epoch seconds are not an accepted input grammar for `set`.
    UnsupportedSetFormat,
    /// The datetime argument does not parse under the active format.
    InvalidDatetime,
}

/// The steps of one invocation, fixed before any side effect.
#[derive(Clone, Copy, Debug, PartialEq, Eq, Structural)]
pub enum Plan {
    /// Read the clock and print it; the privileged write path is not taken.
    GetOnly,
    /// Install `target` as the system time, then read the clock and print it.
    SetThenGet { target: Timestamp },
    /// Stop with a fatal error before any clock write and any output.
    Reject { error: ParseError },
}

/// Decides what an invocation does from its parsed arguments alone. A `get`
/// never reaches the write path; a `set` reaches it only with a datetime
/// that parses under the active format, and epoch seconds are rejected as
/// an input format.
pub fn plan(action: Action, format: Format, datetime: Option<&Vec<u8>>) -> (p: Plan)
    ensures
        action == Action::Get ==> p == Plan::GetOnly,
        action == Action::SetClock && datetime is None ==> p == (Plan::Reject {
            error: ParseError::MissingDatetime,
        }),
        action == Action::SetClock && datetime is Some && format == Format::Timestamp ==> p == (
        Plan::Reject { error: ParseError::UnsupportedSetFormat }),
        action == Action::SetClock && datetime is Some && format == Format::Rfc3339 ==> p == (
        match parse_rfc3339_spec(datetime->0@) {
            Some(t) => Plan::SetThenGet { target: t },
            None => Plan::Reject { error: ParseError::InvalidDatetime },
        }),
        action == Action::SetClock && datetime is Some && format == Format::Rfc2822 ==> p == (
        match parse_rfc2822_spec(datetime->0@) {
            Some(t) => Plan::SetThenGet { target: t },
            None => Plan::Reject { error: ParseError::InvalidDatetime },
        }),
{
    match action {
        Action::Get => Plan::GetOnly,
        Action::SetClock => match datetime {
            None => Plan::Reject { error: ParseError::MissingDatetime },
            Some(s) => match format {
                Format::Timestamp => Plan::Reject { error: ParseError::UnsupportedSetFormat },
                Format::Rfc3339 => match read_rfc3339(s) {
                    Some(t) => Plan::SetThenGet { target: t },
                    None => Plan::Reject { error: ParseError::InvalidDatetime },
                },
                Format::Rfc2822 => match read_rfc2822(s) {
                    Some(t) => Plan::SetThenGet { target: t },
                    None => Plan::Reject { error: ParseError::InvalidDatetime },
                },
            },
        },
    }
}

} // verus!
