//! Turning parse errors into the text that a user reads.

use crate::parser::ParseError;
use crate::token::{caret_message, caret_message_spec};
use vstd::prelude::*;

verus! {

/// The diagnostic for a parse error in the source `src`: the error's message
/// with the line, the column and a caret at the error's position.
pub fn format_parse_error(e: &ParseError, src: &str) -> (r: String)
    ensures
        r@ == caret_message_spec(src@, e.byte as int, e.message@),
{
    caret_message(src, e.byte, e.message.as_str())
}

/// Runs a parsing operation on the source `src` and gives its result, with
/// an error turned into its diagnostic.
pub fn safe_parse<T, F: FnOnce() -> Result<T, ParseError>>(operation: F, src: &str) -> (r: Result<
    T,
    String,
>)
    requires
        operation.requires(()),
    ensures
        match r {
            Ok(v) => operation.ensures((), Ok(v)),
            Err(s) => exists|e: ParseError| #[trigger]
                operation.ensures((), Err(e)) && s@ == caret_message_spec(
                    src@,
                    e.byte as int,
                    e.message@,
                ),
        },
{
    match operation() {
        Ok(v) => Ok(v),
        Err(e) => Err(format_parse_error(&e, src)),
    }
}

} // verus!
