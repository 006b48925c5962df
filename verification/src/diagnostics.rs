//! The text of a diagnostic: where it arose and what it says.

use vstd::prelude::*;
use vstd::string::StringExecFns;
use crate::text::{decimal, push_decimal, push_signed_decimal, signed_decimal};

verus! {

/// The text of a diagnostic for the given place in the source.
pub open spec fn report_text(line: int, column: int, place: Seq<char>, message: Seq<char>) -> Seq<
    char,
> {
    "[line: "@ + decimal(line as nat) + ", column: "@ + signed_decimal(column) + "] Error "@ + place
        + ": "@ + message
}

/// The text of a diagnostic that names no place in the line.
pub fn error(line: usize, column: i64, message: &str) -> (text: String)
    ensures
        text@ == report_text(line as int, column as int, ""@, message@),
{
    report(line, column, "", message)
}

/// The text of a diagnostic: the line and column, the place in the line,
/// and the message.
pub fn report(line: usize, column: i64, place: &str, message: &str) -> (text: String)
    ensures
        text@ == report_text(line as int, column as int, place@, message@),
{
    let mut text = String::from_str("[line: ");
    push_decimal(&mut text, line as u64);
    text.append(", column: ");
    push_signed_decimal(&mut text, column);
    text.append("] Error ");
    text.append(place);
    text.append(": ");
    text.append(message);
    text
}

} // verus!
