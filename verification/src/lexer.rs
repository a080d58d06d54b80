//! The lexer: one left-to-right scan that classifies a line of raw text into
//! a flat token sequence.

use crate::token::{Token, TokenV};
use vstd::prelude::*;

verus! {

/// The delimiter characters: the two quotes, the escape marker, and
/// whitespace (space, tab, newline, carriage return). Each occurrence lexes
/// to its own single-character token; everything else joins a text run.
pub open spec fn is_special(c: char) -> bool {
    c == '"' || c == '\'' || c == '\\' || c == ' ' || c == '\t' || c == '\n' || c == '\r'
}

/// Decides [`is_special`] at run time.
pub fn is_special_char(c: char) -> (r: bool)
    ensures
        r == is_special(c),
{
    c == '"' || c == '\'' || c == '\\' || c == ' ' || c == '\t' || c == '\n' || c == '\r'
}

/// The single-character token a delimiter lexes to.
pub open spec fn delimiter_token(c: char) -> TokenV {
    if c == '"' {
        TokenV::DoubleQuote(seq![c])
    } else if c == '\'' {
        TokenV::SingleQuote(seq![c])
    } else if c == '\\' {
        TokenV::Escape(seq![c])
    } else {
        TokenV::Whitespace(seq![c])
    }
}

/// The pending text run as a token sequence: nothing when it is empty, one
/// `Text` token otherwise.
pub open spec fn flush_run(run: Seq<char>) -> Seq<TokenV> {
    if run.len() == 0 {
        Seq::<TokenV>::empty()
    } else {
        seq![TokenV::Text(run)]
    }
}

/// The scan itself: `run` is the text run collected so far, `rest` what is
/// still unread. A delimiter flushes the run and stands as its own token; an
/// ordinary character extends the run; the end of input flushes what is left.
pub open spec fn lex_run(rest: Seq<char>, run: Seq<char>) -> Seq<TokenV>
    decreases rest.len(),
{
    if rest.len() == 0 {
        flush_run(run)
    } else if is_special(rest[0]) {
        flush_run(run) + seq![delimiter_token(rest[0])] + lex_run(rest.skip(1), Seq::empty())
    } else {
        lex_run(rest.skip(1), run.push(rest[0]))
    }
}

/// What lexing a whole line yields.
pub open spec fn lex_spec(s: Seq<char>) -> Seq<TokenV> {
    lex_run(s, Seq::<char>::empty())
}

/// A scan that meets no delimiter flushes everything as one run.
pub proof fn lemma_lex_run_plain(rest: Seq<char>, run: Seq<char>)
    requires
        forall|i: int| 0 <= i < rest.len() ==> !is_special(rest[i]),
    ensures
        lex_run(rest, run) == flush_run(run + rest),
    decreases rest.len(),
{
    if rest.len() == 0 {
        assert(run + rest =~= run);
    } else {
        assert(forall|i: int|
            0 <= i < rest.skip(1).len() ==> rest.skip(1)[i] == rest[i + 1] && !is_special(
                rest[i + 1],
            ));
        lemma_lex_run_plain(rest.skip(1), run.push(rest[0]));
        assert(run.push(rest[0]) + rest.skip(1) =~= run + rest);
    }
}

/// Builds the delimiter token for `c`.
fn delimiter_token_of(c: char) -> (t: Token)
    requires
        is_special(c),
    ensures
        t.deep_view() == delimiter_token(c),
{
    if c == '"' {
        let p = "\"".to_owned();
        proof {
            reveal_strlit("\"");
            assert(p@ =~= seq![c]);
        }
        Token::DoubleQuote(p)
    } else if c == '\'' {
        let p = "'".to_owned();
        proof {
            reveal_strlit("'");
            assert(p@ =~= seq![c]);
        }
        Token::SingleQuote(p)
    } else if c == '\\' {
        let p = "\\".to_owned();
        proof {
            reveal_strlit("\\");
            assert(p@ =~= seq![c]);
        }
        Token::Escape(p)
    } else if c == ' ' {
        let p = " ".to_owned();
        proof {
            reveal_strlit(" ");
            assert(p@ =~= seq![c]);
        }
        Token::Whitespace(p)
    } else if c == '\t' {
        let p = "\t".to_owned();
        proof {
            reveal_strlit("\t");
            assert(p@ =~= seq![c]);
        }
        Token::Whitespace(p)
    } else if c == '\n' {
        let p = "\n".to_owned();
        proof {
            reveal_strlit("\n");
            assert(p@ =~= seq![c]);
        }
        Token::Whitespace(p)
    } else {
        let p = "\r".to_owned();
        proof {
            reveal_strlit("\r");
            assert(p@ =~= seq![c]);
        }
        Token::Whitespace(p)
    }
}

/// Lexes one line: `None` for empty input, otherwise the token sequence that
/// [`lex_spec`] describes — each delimiter character its own token, each
/// maximal run of ordinary characters a `Text` token carrying the run
/// verbatim.
pub fn lex(input: &str) -> (r: Option<Vec<Token>>)
    ensures
        match r {
            None => input@.len() == 0,
            Some(toks) => input@.len() > 0 && toks.deep_view() == lex_spec(input@),
        },
{
    let n = input.unicode_len();
    if n == 0 {
        return None;
    }
    let mut toks: Vec<Token> = Vec::new();
    let mut start: usize = 0;
    let mut i: usize = 0;
    proof {
        assert(input@.skip(0) =~= input@);
        assert(input@.subrange(0, 0) =~= Seq::<char>::empty());
        assert(toks.deep_view() =~= Seq::<TokenV>::empty());
        assert(lex_spec(input@) =~= toks.deep_view() + lex_run(
            input@.skip(0),
            input@.subrange(0, 0),
        ));
    }
    while i < n
        invariant
            start <= i <= n,
            n == input@.len(),
            forall|j: int| start <= j < i ==> !is_special(input@[j]),
            lex_spec(input@) == toks.deep_view() + lex_run(
                input@.skip(i as int),
                input@.subrange(start as int, i as int),
            ),
        decreases n - i,
    {
        let ghost s = input@;
        let ghost run = s.subrange(start as int, i as int);
        let ghost dv0 = toks.deep_view();
        let c = input.get_char(i);
        proof {
            assert(s.skip(i as int)[0] == s[i as int]);
            assert(s.skip(i as int).skip(1) =~= s.skip(i as int + 1));
        }
        if is_special_char(c) {
            if start < i {
                let word = input.substring_char(start, i);
                let tok = Token::Text(word.to_owned());
                proof {
                    assert(tok.deep_view() == TokenV::Text(run));
                }
                toks.push(tok);
                proof {
                    assert(toks.deep_view() =~= dv0 + flush_run(run));
                }
            } else {
                proof {
                    assert(run.len() == 0);
                    assert(toks.deep_view() =~= dv0 + flush_run(run));
                }
            }
            let ghost dv1 = toks.deep_view();
            let dtok = delimiter_token_of(c);
            toks.push(dtok);
            proof {
                assert(toks.deep_view() =~= dv1 + seq![delimiter_token(c)]);
                assert(s.subrange(i as int + 1, i as int + 1) =~= Seq::<char>::empty());
                assert(lex_run(s.skip(i as int), run) == flush_run(run) + seq![
                    delimiter_token(c),
                ] + lex_run(s.skip(i as int + 1), Seq::<char>::empty()));
                assert(toks.deep_view() + lex_run(s.skip(i as int + 1), Seq::<char>::empty())
                    =~= dv0 + lex_run(s.skip(i as int), run));
            }
            i = i + 1;
            start = i;
        } else {
            proof {
                assert(run.push(c) =~= s.subrange(start as int, i as int + 1));
                assert(lex_run(s.skip(i as int), run) == lex_run(
                    s.skip(i as int + 1),
                    run.push(c),
                ));
            }
            i = i + 1;
        }
    }
    let ghost s = input@;
    let ghost run = s.subrange(start as int, n as int);
    let ghost dv0 = toks.deep_view();
    proof {
        assert(s.skip(n as int).len() == 0);
        assert(lex_run(s.skip(n as int), run) == flush_run(run));
    }
    if start < n {
        let word = input.substring_char(start, n);
        let tok = Token::Text(word.to_owned());
        toks.push(tok);
        proof {
            assert(toks.deep_view() =~= dv0 + flush_run(run));
        }
    } else {
        proof {
            assert(run.len() == 0);
            assert(toks.deep_view() =~= dv0 + flush_run(run));
        }
    }
    proof {
        assert(lex_spec(s) == toks.deep_view());
    }
    Some(toks)
}

} // verus!
