//! Pipeline splitting: locating the single unquoted `|` of a line and
//! parsing the two halves into a producer and a consumer.

use crate::env::Env;
use crate::errors::{ParseErrV, ParseError};
use crate::lexer::is_special;
use crate::parser::{parse, parse_spec, ProcV, Process};
use vstd::prelude::*;

verus! {

/// A two-stage pipeline: the producer's output is meant to feed the
/// consumer's input. Wiring the two up is the host program's job.
#[derive(Debug, PartialEq)]
pub struct Pipe {
    pub producer: Process,
    pub consumer: Process,
}

/// The mathematical shadow of [`Pipe`], used by all specifications.
pub struct PipeV {
    pub producer: ProcV,
    pub consumer: ProcV,
}

impl DeepView for Pipe {
    type V = PipeV;

    open spec fn deep_view(&self) -> PipeV {
        PipeV { producer: self.producer.deep_view(), consumer: self.consumer.deep_view() }
    }
}

/// The quote-tracking state of the separator scan, mirroring how the
/// token-stream parser consumes the same line: `Top` is outside any quote;
/// `TopEsc` has just read a top-level escape marker; `TopEscText` is inside
/// the text run that the escape made literal; the quote states are inside a
/// quoted region, with `Esc` just after an escape marker there.
pub enum ScanState {
    Top,
    TopEsc,
    TopEscText,
    InDouble,
    InDoubleEsc,
    InSingle,
    InSingleEsc,
}

/// Where a character read in the `Top` state leads.
pub open spec fn top_step(c: char) -> ScanState {
    if c == '"' {
        ScanState::InDouble
    } else if c == '\'' {
        ScanState::InSingle
    } else if c == '\\' {
        ScanState::TopEsc
    } else {
        ScanState::Top
    }
}

/// One step of the separator scan.
///
/// An escape consumes exactly the next token, so after `TopEsc` a delimiter
/// is swallowed whole while an ordinary character opens a literal text run
/// (`TopEscText`) that lasts until the next delimiter. Inside quotes only
/// the matching quote ends the region, and an escape there keeps the next
/// token literal — in particular an escaped quote does not close.
pub open spec fn scan_step(st: ScanState, c: char) -> ScanState {
    match st {
        ScanState::Top => top_step(c),
        ScanState::TopEsc => if is_special(c) {
            ScanState::Top
        } else {
            ScanState::TopEscText
        },
        ScanState::TopEscText => if is_special(c) {
            top_step(c)
        } else {
            ScanState::TopEscText
        },
        ScanState::InDouble => if c == '"' {
            ScanState::Top
        } else if c == '\\' {
            ScanState::InDoubleEsc
        } else {
            ScanState::InDouble
        },
        ScanState::InDoubleEsc => ScanState::InDouble,
        ScanState::InSingle => if c == '\'' {
            ScanState::Top
        } else if c == '\\' {
            ScanState::InSingleEsc
        } else {
            ScanState::InSingle
        },
        ScanState::InSingleEsc => ScanState::InSingle,
    }
}

/// The scan state just before position `i` of `s`.
pub open spec fn state_at(s: Seq<char>, i: int) -> ScanState
    decreases i,
{
    if i <= 0 {
        ScanState::Top
    } else {
        scan_step(state_at(s, i - 1), s[i - 1])
    }
}

/// Whether position `i` holds a separator: an unquoted, unescaped `|` at
/// the top level of the line.
pub open spec fn is_sep(s: Seq<char>, i: int) -> bool {
    0 <= i < s.len() && s[i] == '|' && state_at(s, i) is Top
}

/// How many separators stand before position `n`.
pub open spec fn sep_count_to(s: Seq<char>, n: int) -> nat
    decreases n,
{
    if n <= 0 {
        0
    } else {
        sep_count_to(s, n - 1) + if is_sep(s, n - 1) {
            1nat
        } else {
            0nat
        }
    }
}

/// How many separators the whole line holds.
pub open spec fn sep_count(s: Seq<char>) -> nat {
    sep_count_to(s, s.len() as int)
}

/// The first separator position at or after `i`, or the line's length when
/// there is none.
pub open spec fn first_sep_from(s: Seq<char>, i: int) -> int
    decreases s.len() - i,
{
    if i >= s.len() {
        s.len() as int
    } else if is_sep(s, i) {
        i
    } else {
        first_sep_from(s, i + 1)
    }
}

/// Horizontal whitespace: what may pad a separator on either side.
pub open spec fn is_hws(c: char) -> bool {
    c == ' ' || c == '\t'
}

/// `s` without its leading horizontal whitespace.
pub open spec fn trim_lead(s: Seq<char>) -> Seq<char>
    decreases s.len(),
{
    if s.len() > 0 && is_hws(s[0]) {
        trim_lead(s.skip(1))
    } else {
        s
    }
}

/// `s` without its trailing horizontal whitespace.
pub open spec fn trim_trail(s: Seq<char>) -> Seq<char>
    decreases s.len(),
{
    if s.len() > 0 && is_hws(s[s.len() - 1]) {
        trim_trail(s.take(s.len() - 1))
    } else {
        s
    }
}

/// What splitting a line at its pipeline separator yields: unless the line
/// holds exactly one unquoted top-level `|` it fails with `NotAPipeline`;
/// otherwise the halves on either side of the separator, less the
/// horizontal whitespace that pads it, are parsed independently, the left
/// as producer first, the right as consumer.
pub open spec fn split_pipe_spec(s: Seq<char>, vars: Map<Seq<char>, Seq<char>>) -> Result<
    PipeV,
    ParseErrV,
> {
    if sep_count(s) != 1 {
        Err(ParseErrV::NotAPipeline)
    } else {
        let k = first_sep_from(s, 0);
        match parse_spec(trim_trail(s.take(k)), vars) {
            Ok(producer) => match parse_spec(trim_lead(s.skip(k + 1)), vars) {
                Ok(consumer) => Ok(PipeV { producer, consumer }),
                Err(e) => Err(e),
            },
            Err(e) => Err(e),
        }
    }
}

/// One step of the separator scan, at run time.
fn scan_step_run(st: ScanState, c: char) -> (r: ScanState)
    ensures
        r == scan_step(st, c),
{
    match st {
        ScanState::Top => {
            if c == '"' {
                ScanState::InDouble
            } else if c == '\'' {
                ScanState::InSingle
            } else if c == '\\' {
                ScanState::TopEsc
            } else {
                ScanState::Top
            }
        },
        ScanState::TopEsc => {
            if crate::lexer::is_special_char(c) {
                ScanState::Top
            } else {
                ScanState::TopEscText
            }
        },
        ScanState::TopEscText => {
            if crate::lexer::is_special_char(c) {
                if c == '"' {
                    ScanState::InDouble
                } else if c == '\'' {
                    ScanState::InSingle
                } else if c == '\\' {
                    ScanState::TopEsc
                } else {
                    ScanState::Top
                }
            } else {
                ScanState::TopEscText
            }
        },
        ScanState::InDouble => {
            if c == '"' {
                ScanState::Top
            } else if c == '\\' {
                ScanState::InDoubleEsc
            } else {
                ScanState::InDouble
            }
        },
        ScanState::InDoubleEsc => ScanState::InDouble,
        ScanState::InSingle => {
            if c == '\'' {
                ScanState::Top
            } else if c == '\\' {
                ScanState::InSingleEsc
            } else {
                ScanState::InSingle
            }
        },
        ScanState::InSingleEsc => ScanState::InSingle,
    }
}

/// No separator stands before a position whose running count is zero.
proof fn lemma_no_sep_below(s: Seq<char>, n: int)
    requires
        sep_count_to(s, n) == 0,
    ensures
        forall|j: int| 0 <= j < n ==> !is_sep(s, j),
    decreases n,
{
    if n > 0 {
        lemma_no_sep_below(s, n - 1);
    }
}

/// A separator that nothing precedes is the first one.
proof fn lemma_first_sep_is(s: Seq<char>, j: int, k: int)
    requires
        0 <= j <= k,
        is_sep(s, k),
        forall|t: int| j <= t < k ==> !is_sep(s, t),
    ensures
        first_sep_from(s, j) == k,
    decreases k - j,
{
    if j < k {
        lemma_first_sep_is(s, j + 1, k);
    }
}

/// Splits `input` at its single unquoted `|`, exactly as
/// [`split_pipe_spec`] describes: the two halves, less the horizontal
/// whitespace around the separator, parsed independently into the
/// pipeline's two stages; `NotAPipeline` unless exactly one separator
/// stands at the top level.
pub fn split_pipe(input: &str, vars: &Env) -> (r: Result<Pipe, ParseError>)
    ensures
        match r {
            Ok(p) => split_pipe_spec(input@, vars@) == Ok::<PipeV, ParseErrV>(p.deep_view()),
            Err(e) => split_pipe_spec(input@, vars@) == Err::<PipeV, ParseErrV>(e.deep_view()),
        },
{
    let ghost s = input@;
    let n = input.unicode_len();
    let mut st = ScanState::Top;
    let mut count: usize = 0;
    let mut k: usize = 0;
    let mut i: usize = 0;
    while i < n
        invariant
            i <= n,
            n == s.len(),
            s == input@,
            count <= i,
            st == state_at(s, i as int),
            count == sep_count_to(s, i as int),
            count > 0 ==> k < i && is_sep(s, k as int) && sep_count_to(s, k as int) == 0,
        decreases n - i,
    {
        let c = input.get_char(i);
        let sep_here = c == '|' && matches!(st, ScanState::Top);
        proof {
            assert(sep_here == is_sep(s, i as int));
            assert(sep_count_to(s, i as int + 1) == sep_count_to(s, i as int) + if is_sep(
                s,
                i as int,
            ) {
                1nat
            } else {
                0nat
            });
            assert(state_at(s, i as int + 1) == scan_step(state_at(s, i as int), s[i as int]));
        }
        if sep_here {
            if count == 0 {
                k = i;
            }
            count = count + 1;
        }
        st = scan_step_run(st, c);
        i = i + 1;
    }
    if count != 1 {
        return Err(ParseError::NotAPipeline);
    }
    proof {
        lemma_no_sep_below(s, k as int);
        lemma_first_sep_is(s, 0, k as int);
    }
    // drop the horizontal whitespace that pads the separator
    let mut hi = k;
    while hi > 0 && is_hws_run(input.get_char(hi - 1))
        invariant
            hi <= k,
            k < n,
            n == s.len(),
            s == input@,
            trim_trail(s.take(k as int)) == trim_trail(s.take(hi as int)),
        decreases hi,
    {
        proof {
            assert(s.take(hi as int).take(hi as int - 1) =~= s.take(hi as int - 1));
            assert(s.take(hi as int)[hi as int - 1] == s[hi as int - 1]);
        }
        hi = hi - 1;
    }
    proof {
        if hi > 0 {
            assert(s.take(hi as int)[hi as int - 1] == s[hi as int - 1]);
        }
        assert(trim_trail(s.take(hi as int)) == s.take(hi as int));
    }
    let mut lo = k + 1;
    while lo < n && is_hws_run(input.get_char(lo))
        invariant
            k + 1 <= lo <= n,
            n == s.len(),
            s == input@,
            trim_lead(s.skip(k as int + 1)) == trim_lead(s.skip(lo as int)),
        decreases n - lo,
    {
        proof {
            assert(s.skip(lo as int)[0] == s[lo as int]);
            assert(s.skip(lo as int).skip(1) =~= s.skip(lo as int + 1));
        }
        lo = lo + 1;
    }
    proof {
        if lo < n {
            assert(s.skip(lo as int)[0] == s[lo as int]);
        }
        assert(trim_lead(s.skip(lo as int)) == s.skip(lo as int));
    }
    let left = input.substring_char(0, hi);
    let right = input.substring_char(lo, n);
    proof {
        assert(left@ =~= s.take(hi as int));
        assert(right@ =~= s.skip(lo as int));
    }
    match parse(left, vars) {
        Ok(producer) => match parse(right, vars) {
            Ok(consumer) => Ok(Pipe { producer, consumer }),
            Err(e) => Err(e),
        },
        Err(e) => Err(e),
    }
}

/// Decides [`is_hws`] at run time.
fn is_hws_run(c: char) -> (r: bool)
    ensures
        r == is_hws(c),
{
    c == ' ' || c == '\t'
}

} // verus!
