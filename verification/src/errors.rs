//! The error taxonomy of the parser.

use vstd::prelude::*;

verus! {

/// Why a parse failed. Every error is terminal for its parse call: the
/// parser reports the first failure of its left-to-right scan and never
/// backtracks.
#[derive(Debug, PartialEq)]
pub enum ParseError {
    /// The input lexed to no tokens at all (it was empty).
    NoTokens,
    /// The line did not start with a plain word usable as the executable path.
    MalformedPath,
    /// An escape marker stood last in the line, with nothing left to escape.
    UnexpectedEndOfInput,
    /// A double-quoted region was opened and never closed.
    UnterminatedDoubleQuote,
    /// A single-quoted region was opened and never closed.
    UnterminatedSingleQuote,
    /// A token that only the parser itself produces appeared in its input.
    UnexpectedToken,
    /// A `$name` reference named a variable absent from the mapping.
    UndefinedVariable(String),
    /// Pipeline splitting found no single unquoted `|` to split at.
    NotAPipeline,
}

/// The mathematical shadow of [`ParseError`], used by all specifications.
pub enum ParseErrV {
    NoTokens,
    MalformedPath,
    UnexpectedEndOfInput,
    UnterminatedDoubleQuote,
    UnterminatedSingleQuote,
    UnexpectedToken,
    UndefinedVariable(Seq<char>),
    NotAPipeline,
}

impl DeepView for ParseError {
    type V = ParseErrV;

    open spec fn deep_view(&self) -> ParseErrV {
        match self {
            ParseError::NoTokens => ParseErrV::NoTokens,
            ParseError::MalformedPath => ParseErrV::MalformedPath,
            ParseError::UnexpectedEndOfInput => ParseErrV::UnexpectedEndOfInput,
            ParseError::UnterminatedDoubleQuote => ParseErrV::UnterminatedDoubleQuote,
            ParseError::UnterminatedSingleQuote => ParseErrV::UnterminatedSingleQuote,
            ParseError::UnexpectedToken => ParseErrV::UnexpectedToken,
            ParseError::UndefinedVariable(n) => ParseErrV::UndefinedVariable(n@),
            ParseError::NotAPipeline => ParseErrV::NotAPipeline,
        }
    }
}

} // verus!
