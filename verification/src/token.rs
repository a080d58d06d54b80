//! The token alphabet shared by the lexer and the token-stream parser.

use vstd::prelude::*;

verus! {

/// A classified fragment of lexed input: a tag together with the literal text
/// it matched.
///
/// The lexer emits `Text` for every maximal run of ordinary characters and
/// `Whitespace`, `Escape`, `DoubleQuote` or `SingleQuote` for each occurrence
/// of a delimiter character. `Path` and `Arg` classify the words that the
/// token-stream parser produces when it reduces a lexed line to one
/// executable path followed by its arguments.
#[derive(Debug, PartialEq)]
pub enum Token {
    Path(String),
    Arg(String),
    Text(String),
    Whitespace(String),
    Escape(String),
    DoubleQuote(String),
    SingleQuote(String),
}

/// The mathematical shadow of [`Token`]: the same tags over character
/// sequences, used by all specifications.
pub enum TokenV {
    Path(Seq<char>),
    Arg(Seq<char>),
    Text(Seq<char>),
    Whitespace(Seq<char>),
    Escape(Seq<char>),
    DoubleQuote(Seq<char>),
    SingleQuote(Seq<char>),
}

impl TokenV {
    /// The literal text a token carries, whatever its tag.
    pub open spec fn payload(self) -> Seq<char> {
        match self {
            TokenV::Path(p) => p,
            TokenV::Arg(p) => p,
            TokenV::Text(p) => p,
            TokenV::Whitespace(p) => p,
            TokenV::Escape(p) => p,
            TokenV::DoubleQuote(p) => p,
            TokenV::SingleQuote(p) => p,
        }
    }
}

impl View for Token {
    type V = TokenV;

    open spec fn view(&self) -> TokenV {
        match self {
            Token::Path(p) => TokenV::Path(p@),
            Token::Arg(p) => TokenV::Arg(p@),
            Token::Text(p) => TokenV::Text(p@),
            Token::Whitespace(p) => TokenV::Whitespace(p@),
            Token::Escape(p) => TokenV::Escape(p@),
            Token::DoubleQuote(p) => TokenV::DoubleQuote(p@),
            Token::SingleQuote(p) => TokenV::SingleQuote(p@),
        }
    }
}

impl DeepView for Token {
    type V = TokenV;

    open spec fn deep_view(&self) -> TokenV {
        self.view()
    }
}

impl Token {
    /// The literal text a token carries, whatever its tag.
    pub fn payload(&self) -> (s: &str)
        ensures
            s@ == self@.payload(),
    {
        match self {
            Token::Path(p) => p.as_str(),
            Token::Arg(p) => p.as_str(),
            Token::Text(p) => p.as_str(),
            Token::Whitespace(p) => p.as_str(),
            Token::Escape(p) => p.as_str(),
            Token::DoubleQuote(p) => p.as_str(),
            Token::SingleQuote(p) => p.as_str(),
        }
    }
}

} // verus!
