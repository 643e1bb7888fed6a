//! What can go wrong with a query.

use vstd::prelude::*;

verus! {

/// Why a text was not read as a JSON document.
#[derive(Debug)]
pub enum Refusal {
    /// A character stands where the grammar allows none like it.
    UnexpectedCharacter { ch: char, line: usize, column: usize },
    /// The text ends inside a value.
    UnexpectedEndOfJson,
    /// Arrays and objects are nested deeper than the reader follows.
    ExceededDepthLimit,
    /// The bytes are not UTF-8.
    FailedUtf8Parsing,
    /// A value is of another kind than the one named.
    WrongType(String),
    /// A fraction has more digits than the reader can count.
    TooManyDigits,
}

/// Why a query gave no report.
#[derive(Debug)]
pub enum Error {
    /// The registry could not be asked or did not answer. The text says why.
    Requests(String),
    /// The registry's answer is not a JSON document.
    Json(Refusal),
    /// The raw document was asked for together with a single field or the
    /// keywords.
    Conflict,
}

} // verus!
