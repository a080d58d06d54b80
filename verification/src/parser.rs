//! The token-stream parser: reduces a lexed line to one executable path
//! followed by its arguments, resolving quoting, escaping and variable
//! expansion along the way.

use crate::env::Env;
use crate::errors::{ParseErrV, ParseError};
use crate::expand::expand_spec;
use crate::expand::expand_text;
use crate::lexer::{lex, lex_spec};
use crate::token::{Token, TokenV};
use vstd::prelude::*;

verus! {

/// A parsed executable descriptor: the program path and its fully resolved
/// argument literals, in their original left-to-right order. Built only by a
/// successful parse and never mutated afterwards.
#[derive(Debug, PartialEq)]
pub struct Process {
    pub path: String,
    pub args: Vec<String>,
}

/// The mathematical shadow of [`Process`], used by all specifications.
pub struct ProcV {
    pub path: Seq<char>,
    pub args: Seq<Seq<char>>,
}

impl DeepView for Process {
    type V = ProcV;

    open spec fn deep_view(&self) -> ProcV {
        ProcV { path: self.path@, args: self.args.deep_view() }
    }
}

/// The error a quoted region that is never closed fails with.
pub open spec fn unterminated(double: bool) -> ParseErrV {
    if double {
        ParseErrV::UnterminatedDoubleQuote
    } else {
        ParseErrV::UnterminatedSingleQuote
    }
}

/// The quote sub-parse, entered just after an opening quote; `double` says
/// which kind. It consumes tokens up to the matching quote and yields the
/// literal they spell plus the tokens that follow the close.
///
/// Inside double quotes text is still expanded and single quotes are
/// literal; inside single quotes everything, `$` references included, is
/// literal. In both, an escape consumes exactly the next token and keeps its
/// payload verbatim, and running out of tokens before the close fails with
/// the matching `Unterminated` error.
pub open spec fn quoted_spec(
    toks: Seq<TokenV>,
    vars: Map<Seq<char>, Seq<char>>,
    double: bool,
) -> Result<(Seq<char>, Seq<TokenV>), ParseErrV>
    decreases toks.len(),
{
    if toks.len() == 0 {
        Err(unterminated(double))
    } else {
        match toks[0] {
            TokenV::DoubleQuote(p) => if double {
                Ok((Seq::<char>::empty(), toks.skip(1)))
            } else {
                match quoted_spec(toks.skip(1), vars, double) {
                    Ok(pr) => Ok((p + pr.0, pr.1)),
                    Err(e) => Err(e),
                }
            },
            TokenV::SingleQuote(p) => if !double {
                Ok((Seq::<char>::empty(), toks.skip(1)))
            } else {
                match quoted_spec(toks.skip(1), vars, double) {
                    Ok(pr) => Ok((p + pr.0, pr.1)),
                    Err(e) => Err(e),
                }
            },
            TokenV::Escape(_) => if toks.len() >= 2 {
                match quoted_spec(toks.skip(2), vars, double) {
                    Ok(pr) => Ok((toks[1].payload() + pr.0, pr.1)),
                    Err(e) => Err(e),
                }
            } else {
                Err(unterminated(double))
            },
            TokenV::Text(p) => if double {
                match expand_spec(p, vars) {
                    Ok(v) => match quoted_spec(toks.skip(1), vars, double) {
                        Ok(pr) => Ok((v + pr.0, pr.1)),
                        Err(e) => Err(e),
                    },
                    Err(n) => Err(ParseErrV::UndefinedVariable(n)),
                }
            } else {
                match quoted_spec(toks.skip(1), vars, double) {
                    Ok(pr) => Ok((p + pr.0, pr.1)),
                    Err(e) => Err(e),
                }
            },
            TokenV::Whitespace(p) => match quoted_spec(toks.skip(1), vars, double) {
                Ok(pr) => Ok((p + pr.0, pr.1)),
                Err(e) => Err(e),
            },
            TokenV::Path(p) => match quoted_spec(toks.skip(1), vars, double) {
                Ok(pr) => Ok((p + pr.0, pr.1)),
                Err(e) => Err(e),
            },
            TokenV::Arg(p) => match quoted_spec(toks.skip(1), vars, double) {
                Ok(pr) => Ok((p + pr.0, pr.1)),
                Err(e) => Err(e),
            },
        }
    }
}

/// A successful quote sub-parse consumes at least its closing quote.
pub proof fn lemma_quoted_consumes(toks: Seq<TokenV>, vars: Map<Seq<char>, Seq<char>>, double: bool)
    ensures
        quoted_spec(toks, vars, double) matches Ok(pr) ==> pr.1.len() < toks.len(),
    decreases toks.len(),
{
    if toks.len() > 0 {
        lemma_quoted_consumes(toks.skip(1), vars, double);
        if toks.len() >= 2 {
            lemma_quoted_consumes(toks.skip(2), vars, double);
        }
    }
}

/// The top-level argument scan, with `buf` the literal collected since the
/// last word break. Text is expanded; an escape keeps the next token's
/// payload verbatim (failing with `UnexpectedEndOfInput` when none is
/// left); a quote hands over to [`quoted_spec`]; whitespace closes a
/// non-empty buffer into an argument; tokens that only the parser itself
/// produces fail with `UnexpectedToken`.
pub open spec fn args_spec(
    toks: Seq<TokenV>,
    vars: Map<Seq<char>, Seq<char>>,
    buf: Seq<char>,
) -> Result<Seq<Seq<char>>, ParseErrV>
    decreases toks.len(),
    via args_spec_dec
{
    if toks.len() == 0 {
        if buf.len() == 0 {
            Ok(Seq::<Seq<char>>::empty())
        } else {
            Ok(seq![buf])
        }
    } else {
        match toks[0] {
            TokenV::Text(p) => match expand_spec(p, vars) {
                Ok(v) => args_spec(toks.skip(1), vars, buf + v),
                Err(n) => Err(ParseErrV::UndefinedVariable(n)),
            },
            TokenV::Escape(_) => if toks.len() >= 2 {
                args_spec(toks.skip(2), vars, buf + toks[1].payload())
            } else {
                Err(ParseErrV::UnexpectedEndOfInput)
            },
            TokenV::DoubleQuote(_) => match quoted_spec(toks.skip(1), vars, true) {
                Ok(pr) => args_spec(pr.1, vars, buf + pr.0),
                Err(e) => Err(e),
            },
            TokenV::SingleQuote(_) => match quoted_spec(toks.skip(1), vars, false) {
                Ok(pr) => args_spec(pr.1, vars, buf + pr.0),
                Err(e) => Err(e),
            },
            TokenV::Whitespace(_) => if buf.len() == 0 {
                args_spec(toks.skip(1), vars, Seq::<char>::empty())
            } else {
                match args_spec(toks.skip(1), vars, Seq::<char>::empty()) {
                    Ok(rest) => Ok(seq![buf] + rest),
                    Err(e) => Err(e),
                }
            },
            TokenV::Path(_) => Err(ParseErrV::UnexpectedToken),
            TokenV::Arg(_) => Err(ParseErrV::UnexpectedToken),
        }
    }
}

#[via_fn]
proof fn args_spec_dec(toks: Seq<TokenV>, vars: Map<Seq<char>, Seq<char>>, buf: Seq<char>) {
    if toks.len() > 0 {
        match toks[0] {
            TokenV::DoubleQuote(_) => lemma_quoted_consumes(toks.skip(1), vars, true),
            TokenV::SingleQuote(_) => lemma_quoted_consumes(toks.skip(1), vars, false),
            _ => {},
        }
    }
}

/// What parsing a token stream yields: the first token must be text — its
/// expansion is the path — and the rest are scanned into arguments; an
/// empty stream fails with `NoTokens`, any other leading tag with
/// `MalformedPath`.
pub open spec fn parse_tokens_spec(toks: Seq<TokenV>, vars: Map<Seq<char>, Seq<char>>) -> Result<
    ProcV,
    ParseErrV,
> {
    if toks.len() == 0 {
        Err(ParseErrV::NoTokens)
    } else {
        match toks[0] {
            TokenV::Text(p) => match expand_spec(p, vars) {
                Ok(path) => match args_spec(toks.skip(1), vars, Seq::<char>::empty()) {
                    Ok(args) => Ok(ProcV { path, args }),
                    Err(e) => Err(e),
                },
                Err(n) => Err(ParseErrV::UndefinedVariable(n)),
            },
            _ => Err(ParseErrV::MalformedPath),
        }
    }
}

/// What parsing a whole line yields: the lexed line, run through
/// [`parse_tokens_spec`].
pub open spec fn parse_spec(input: Seq<char>, vars: Map<Seq<char>, Seq<char>>) -> Result<
    ProcV,
    ParseErrV,
> {
    parse_tokens_spec(lex_spec(input), vars)
}

/// Runs the quote sub-parse over `toks` from position `i` (just past the
/// opening quote), exactly as [`quoted_spec`] describes; on success returns
/// the literal and the position just past the closing quote.
fn parse_quoted(toks: &Vec<Token>, i: usize, vars: &Env, double: bool) -> (r: Result<
    (String, usize),
    ParseError,
>)
    requires
        i <= toks@.len(),
    ensures
        match r {
            Ok(pr) => {
                &&& quoted_spec(toks.deep_view().skip(i as int), vars@, double) matches Ok(q)
                &&& q.0 == pr.0@
                &&& i < pr.1 <= toks@.len()
                &&& q.1 == toks.deep_view().skip(pr.1 as int)
            },
            Err(e) => quoted_spec(toks.deep_view().skip(i as int), vars@, double) == Err::<
                (Seq<char>, Seq<TokenV>),
                ParseErrV,
            >(e.deep_view()),
        },
    decreases toks@.len() - i,
{
    let ghost tv = toks.deep_view();
    proof {
        assert(tv.len() == toks@.len());
    }
    if i == toks.len() {
        proof {
            assert(tv.skip(i as int).len() == 0);
        }
        return Err(
            if double {
                ParseError::UnterminatedDoubleQuote
            } else {
                ParseError::UnterminatedSingleQuote
            },
        );
    }
    proof {
        assert(tv.skip(i as int)[0] == tv[i as int]);
        assert(tv.skip(i as int).skip(1) =~= tv.skip(i as int + 1));
        if i + 2 <= tv.len() {
            assert(tv.skip(i as int).skip(2) =~= tv.skip(i as int + 2));
        }
    }
    let is_close = match &toks[i] {
        Token::DoubleQuote(_) => double,
        Token::SingleQuote(_) => !double,
        _ => false,
    };
    if is_close {
        return Ok((String::new(), i + 1));
    }
    match &toks[i] {
        Token::Escape(_) => {
            if i + 1 == toks.len() {
                return Err(
                    if double {
                        ParseError::UnterminatedDoubleQuote
                    } else {
                        ParseError::UnterminatedSingleQuote
                    },
                );
            }
            proof {
                assert(tv.skip(i as int)[1] == tv[i as int + 1]);
            }
            let mut lit = toks[i + 1].payload().to_owned();
            match parse_quoted(toks, i + 2, vars, double) {
                Ok(pr) => {
                    let (rest, j) = pr;
                    lit.append(rest.as_str());
                    Ok((lit, j))
                },
                Err(e) => Err(e),
            }
        },
        Token::Text(p) => {
            let first: String;
            if double {
                match expand_text(p.as_str(), vars) {
                    Ok(v) => {
                        first = v;
                    },
                    Err(e) => {
                        return Err(e);
                    },
                }
            } else {
                first = p.clone();
            }
            match parse_quoted(toks, i + 1, vars, double) {
                Ok(pr) => {
                    let (rest, j) = pr;
                    let mut lit = first;
                    lit.append(rest.as_str());
                    Ok((lit, j))
                },
                Err(e) => Err(e),
            }
        },
        _ => {
            // any other token is literal inside quotes
            let mut lit = toks[i].payload().to_owned();
            match parse_quoted(toks, i + 1, vars, double) {
                Ok(pr) => {
                    let (rest, j) = pr;
                    lit.append(rest.as_str());
                    Ok((lit, j))
                },
                Err(e) => Err(e),
            }
        },
    }
}

/// Runs the top-level argument scan from position `i` with `buf` the
/// literal collected so far, exactly as [`args_spec`] describes.
fn parse_args(toks: &Vec<Token>, i: usize, vars: &Env, buf: String) -> (r: Result<
    Vec<String>,
    ParseError,
>)
    requires
        i <= toks@.len(),
    ensures
        match r {
            Ok(v) => args_spec(toks.deep_view().skip(i as int), vars@, buf@) == Ok::<
                Seq<Seq<char>>,
                ParseErrV,
            >(v.deep_view()),
            Err(e) => args_spec(toks.deep_view().skip(i as int), vars@, buf@) == Err::<
                Seq<Seq<char>>,
                ParseErrV,
            >(e.deep_view()),
        },
    decreases toks@.len() - i,
{
    let ghost tv = toks.deep_view();
    proof {
        assert(tv.len() == toks@.len());
    }
    if i == toks.len() {
        proof {
            assert(tv.skip(i as int).len() == 0);
        }
        let mut out: Vec<String> = Vec::new();
        if !buf.as_str().is_empty() {
            out.push(buf);
            proof {
                assert(out.deep_view() =~= seq![out@[0]@]);
            }
        } else {
            proof {
                assert(out.deep_view() =~= Seq::<Seq<char>>::empty());
            }
        }
        return Ok(out);
    }
    proof {
        assert(tv.skip(i as int)[0] == tv[i as int]);
        assert(tv.skip(i as int).skip(1) =~= tv.skip(i as int + 1));
        if i + 2 <= tv.len() {
            assert(tv.skip(i as int).skip(2) =~= tv.skip(i as int + 2));
        }
    }
    match &toks[i] {
        Token::Text(p) => match expand_text(p.as_str(), vars) {
            Ok(v) => {
                let mut b = buf;
                b.append(v.as_str());
                parse_args(toks, i + 1, vars, b)
            },
            Err(e) => Err(e),
        },
        Token::Escape(_) => {
            if i + 1 == toks.len() {
                return Err(ParseError::UnexpectedEndOfInput);
            }
            proof {
                assert(tv.skip(i as int)[1] == tv[i as int + 1]);
            }
            let mut b = buf;
            b.append(toks[i + 1].payload());
            parse_args(toks, i + 2, vars, b)
        },
        Token::DoubleQuote(_) => match parse_quoted(toks, i + 1, vars, true) {
            Ok(pr) => {
                let (lit, j) = pr;
                let mut b = buf;
                b.append(lit.as_str());
                parse_args(toks, j, vars, b)
            },
            Err(e) => Err(e),
        },
        Token::SingleQuote(_) => match parse_quoted(toks, i + 1, vars, false) {
            Ok(pr) => {
                let (lit, j) = pr;
                let mut b = buf;
                b.append(lit.as_str());
                parse_args(toks, j, vars, b)
            },
            Err(e) => Err(e),
        },
        Token::Whitespace(_) => {
            if buf.as_str().is_empty() {
                proof {
                    assert(buf@ =~= Seq::<char>::empty());
                }
                parse_args(toks, i + 1, vars, buf)
            } else {
                match parse_args(toks, i + 1, vars, String::new()) {
                    Ok(rest) => {
                        let mut out = rest;
                        let ghost restdv = out.deep_view();
                        out.insert(0, buf);
                        proof {
                            assert(out.deep_view() =~= seq![buf@] + restdv);
                        }
                        Ok(out)
                    },
                    Err(e) => Err(e),
                }
            }
        },
        Token::Path(_) => Err(ParseError::UnexpectedToken),
        Token::Arg(_) => Err(ParseError::UnexpectedToken),
    }
}

/// Parses a token stream into a [`Process`], exactly as
/// [`parse_tokens_spec`] describes: one path, then the arguments, or the
/// first error of the left-to-right scan.
pub fn parse_tokens(toks: &Vec<Token>, vars: &Env) -> (r: Result<Process, ParseError>)
    ensures
        match r {
            Ok(p) => parse_tokens_spec(toks.deep_view(), vars@) == Ok::<ProcV, ParseErrV>(
                p.deep_view(),
            ),
            Err(e) => parse_tokens_spec(toks.deep_view(), vars@) == Err::<ProcV, ParseErrV>(
                e.deep_view(),
            ),
        },
{
    let ghost tv = toks.deep_view();
    proof {
        assert(tv.len() == toks@.len());
    }
    if toks.len() == 0 {
        return Err(ParseError::NoTokens);
    }
    proof {
        assert(tv[0] == toks@[0].deep_view());
        assert(tv.skip(0).skip(1) =~= tv.skip(1));
    }
    match &toks[0] {
        Token::Text(p) => match expand_text(p.as_str(), vars) {
            Ok(path) => match parse_args(toks, 1, vars, String::new()) {
                Ok(args) => Ok(Process { path, args }),
                Err(e) => Err(e),
            },
            Err(e) => Err(e),
        },
        _ => Err(ParseError::MalformedPath),
    }
}

/// A plain word character: an ASCII letter or digit. Such a character is
/// neither a delimiter nor the start of a variable reference.
pub open spec fn is_plain_char(c: char) -> bool {
    ('a' as u32 <= c as u32 && c as u32 <= 'z' as u32) || ('A' as u32 <= c as u32 && c as u32
        <= 'Z' as u32) || ('0' as u32 <= c as u32 && c as u32 <= '9' as u32)
}

/// Law: a non-empty line made only of ASCII letters and digits is a bare
/// program name. Under any mapping it parses to exactly that word as the
/// path, with no arguments.
pub proof fn lemma_plain_word_parse(s: Seq<char>, vars: Map<Seq<char>, Seq<char>>)
    requires
        s.len() > 0,
        forall|i: int| 0 <= i < s.len() ==> is_plain_char(s[i]),
    ensures
        parse_spec(s, vars) == Ok::<ProcV, ParseErrV>(ProcV { path: s, args: Seq::<Seq<char>>::empty() }),
{
    assert(forall|i: int| 0 <= i < s.len() ==> !crate::lexer::is_special(s[i]));
    crate::lexer::lemma_lex_run_plain(s, Seq::<char>::empty());
    assert(Seq::<char>::empty() + s =~= s);
    let toks = lex_spec(s);
    assert(toks == seq![TokenV::Text(s)]);
    assert(toks.len() == 1);
    assert(toks[0] == TokenV::Text(s));
    assert(forall|i: int| 0 <= i < s.len() ==> s[i] != '$');
    crate::expand::lemma_expand_literal_run(s, vars, 0, s.len() as int);
    assert(s.skip(s.len() as int).len() == 0);
    assert(expand_spec(s.skip(s.len() as int), vars) == Ok::<Seq<char>, Seq<char>>(
        Seq::<char>::empty(),
    ));
    assert(s.skip(0) =~= s);
    assert(s.subrange(0, s.len() as int) + Seq::<char>::empty() =~= s);
    assert(expand_spec(s, vars) == Ok::<Seq<char>, Seq<char>>(s));
    assert(toks.skip(1).len() == 0);
    assert(args_spec(toks.skip(1), vars, Seq::<char>::empty()) == Ok::<Seq<Seq<char>>, ParseErrV>(
        Seq::<Seq<char>>::empty(),
    ));
}

/// Parses one line of input against the mapping `vars`, exactly as
/// [`parse_spec`] describes: on success the [`Process`] whose path and
/// arguments are the line's fully expanded, unescaped literals; otherwise
/// the first error of the left-to-right scan, each error on exactly the
/// inputs its documentation names.
pub fn parse(input: &str, vars: &Env) -> (r: Result<Process, ParseError>)
    ensures
        match r {
            Ok(p) => parse_spec(input@, vars@) == Ok::<ProcV, ParseErrV>(p.deep_view()),
            Err(e) => parse_spec(input@, vars@) == Err::<ProcV, ParseErrV>(e.deep_view()),
        },
{
    match lex(input) {
        None => {
            proof {
                assert(lex_spec(input@).len() == 0);
            }
            Err(ParseError::NoTokens)
        },
        Some(toks) => parse_tokens(&toks, vars),
    }
}

} // verus!
