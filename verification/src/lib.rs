//! A POSIX-like parser for one line of shell input.
//!
//! The library turns raw text into a structured command descriptor: an
//! executable path plus an ordered list of fully resolved arguments. It
//! follows shell-like lexical rules — whitespace-delimited words, single and
//! double quoting, backslash escaping, and `$NAME` substitution from a
//! caller-supplied mapping — and can split a line into the two stages of a
//! pipeline around an unquoted `|`. Running the parsed command is left to the
//! host program; the parser itself performs no I/O.

pub mod env;
pub mod errors;
pub mod expand;
pub mod lexer;
pub mod ops;
pub mod parser;
pub mod pipeline;
pub mod token;

pub use env::Env;
pub use errors::ParseError;
pub use ops::Operation;
pub use parser::parse;
pub use parser::Process;
pub use pipeline::split_pipe;
pub use pipeline::Pipe;
pub use token::Token;
