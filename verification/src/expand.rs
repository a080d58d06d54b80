//! Variable expansion: resolving `$NAME` references while a text run is
//! assembled into a literal.

use crate::env::Env;
use crate::errors::ParseError;
use vstd::prelude::*;

verus! {

/// The characters a variable name is made of: ASCII letters.
pub open spec fn is_name_char(c: char) -> bool {
    ('a' as u32 <= c as u32 && c as u32 <= 'z' as u32) || ('A' as u32 <= c as u32 && c as u32
        <= 'Z' as u32)
}

/// Decides [`is_name_char`] at run time.
pub fn is_name_char_at(c: char) -> (r: bool)
    ensures
        r == is_name_char(c),
{
    ('a' <= c && c <= 'z') || ('A' <= c && c <= 'Z')
}

/// Length of the maximal leading run of name characters.
pub open spec fn name_len(s: Seq<char>) -> nat
    decreases s.len(),
{
    if s.len() == 0 || !is_name_char(s[0]) {
        0
    } else {
        1 + name_len(s.skip(1))
    }
}

/// A name run is never longer than the text it leads.
pub proof fn lemma_name_len_le(s: Seq<char>)
    ensures
        name_len(s) <= s.len(),
    decreases s.len(),
{
    if s.len() != 0 && is_name_char(s[0]) {
        lemma_name_len_le(s.skip(1));
    }
}

/// What expanding a text run yields: the run with every `$name` reference —
/// a `$` followed by one or more letters — replaced by the mapping's value
/// for `name`. A `$` not followed by a letter stays literal. A name absent
/// from the mapping fails with that name, and substituted values are never
/// re-scanned.
pub open spec fn expand_spec(s: Seq<char>, vars: Map<Seq<char>, Seq<char>>) -> Result<
    Seq<char>,
    Seq<char>,
>
    decreases s.len(),
    via expand_spec_dec
{
    if s.len() == 0 {
        Ok(Seq::<char>::empty())
    } else if s[0] == '$' && s.len() >= 2 && is_name_char(s[1]) {
        let n = name_len(s.skip(1));
        let name = s.skip(1).take(n as int);
        if vars.contains_key(name) {
            match expand_spec(s.skip(1 + n as int), vars) {
                Ok(rest) => Ok(vars[name] + rest),
                Err(e) => Err(e),
            }
        } else {
            Err(name)
        }
    } else {
        match expand_spec(s.skip(1), vars) {
            Ok(rest) => Ok(seq![s[0]] + rest),
            Err(e) => Err(e),
        }
    }
}

#[via_fn]
proof fn expand_spec_dec(s: Seq<char>, vars: Map<Seq<char>, Seq<char>>) {
    if s.len() >= 2 && s[0] == '$' && is_name_char(s[1]) {
        lemma_name_len_le(s.skip(1));
    }
}

/// A run without `$` expands to itself; more precisely, expansion walks
/// straight over the `$`-free span between positions `i` and `k`.
pub proof fn lemma_expand_literal_run(
    s: Seq<char>,
    vars: Map<Seq<char>, Seq<char>>,
    i: int,
    k: int,
)
    requires
        0 <= i <= k <= s.len(),
        forall|m: int| i <= m < k ==> s[m] != '$',
    ensures
        match expand_spec(s.skip(k), vars) {
            Ok(rest) => expand_spec(s.skip(i), vars) == Ok::<Seq<char>, Seq<char>>(
                s.subrange(i, k) + rest,
            ),
            Err(e) => expand_spec(s.skip(i), vars) == Err::<Seq<char>, Seq<char>>(e),
        },
    decreases k - i,
{
    if i == k {
        assert(s.subrange(i, k) =~= Seq::<char>::empty());
        match expand_spec(s.skip(k), vars) {
            Ok(rest) => {
                assert(s.subrange(i, k) + rest =~= rest);
            },
            Err(_) => {},
        }
    } else {
        lemma_expand_literal_run(s, vars, i + 1, k);
        assert(s.skip(i)[0] == s[i]);
        assert(s.skip(i).skip(1) =~= s.skip(i + 1));
        match expand_spec(s.skip(k), vars) {
            Ok(rest) => {
                assert(seq![s[i]] + (s.subrange(i + 1, k) + rest) =~= s.subrange(i, k) + rest);
            },
            Err(_) => {},
        }
    }
}

/// Scans the maximal run of name characters that starts at `from`.
fn scan_name(s: &str, from: usize) -> (j: usize)
    requires
        from <= s@.len(),
    ensures
        from <= j <= s@.len(),
        j - from == name_len(s@.skip(from as int)),
{
    let n = s.unicode_len();
    let mut j = from;
    while j < n && is_name_char_at(s.get_char(j))
        invariant
            from <= j <= n,
            n == s@.len(),
            name_len(s@.skip(from as int)) == j - from + name_len(s@.skip(j as int)),
        decreases n - j,
    {
        proof {
            assert(s@.skip(j as int)[0] == s@[j as int]);
            assert(s@.skip(j as int).skip(1) =~= s@.skip(j as int + 1));
        }
        j = j + 1;
    }
    proof {
        if j < n {
            assert(s@.skip(j as int)[0] == s@[j as int]);
        }
        assert(name_len(s@.skip(j as int)) == 0);
    }
    j
}

/// Expands every `$name` reference in `s` against `vars`, as
/// [`expand_spec`] describes; fails with `UndefinedVariable` exactly when a
/// referenced name is unbound.
pub fn expand_text(s: &str, vars: &Env) -> (r: Result<String, ParseError>)
    ensures
        match r {
            Ok(out) => expand_spec(s@, vars@) == Ok::<Seq<char>, Seq<char>>(out@),
            Err(e) => {
                &&& expand_spec(s@, vars@) matches Err(n)
                &&& e.deep_view() == crate::errors::ParseErrV::UndefinedVariable(n)
            },
        },
{
    let n = s.unicode_len();
    let mut out = String::new();
    let mut i: usize = 0;
    proof {
        assert(s@.skip(0) =~= s@);
    }
    while i < n
        invariant
            i <= n,
            n == s@.len(),
            match expand_spec(s@.skip(i as int), vars@) {
                Ok(rest) => expand_spec(s@, vars@) == Ok::<Seq<char>, Seq<char>>(out@ + rest),
                Err(e) => expand_spec(s@, vars@) == Err::<Seq<char>, Seq<char>>(e),
            },
        decreases n - i,
    {
        let ghost sv = s@;
        let ghost out0 = out@;
        let c = s.get_char(i);
        proof {
            assert(sv.skip(i as int)[0] == sv[i as int]);
            assert(sv.skip(i as int).skip(1) =~= sv.skip(i as int + 1));
        }
        if c == '$' {
            if i + 1 < n && is_name_char_at(s.get_char(i + 1)) {
                // a variable reference: read its name and substitute
                let j = scan_name(s, i + 1);
                proof {
                    assert(sv.skip(i as int).skip(1) =~= sv.skip(i as int + 1));
                    assert(name_len(sv.skip(i as int + 1)) == j - i - 1);
                    assert(sv.skip(i as int + 1).take(j - i - 1) =~= sv.subrange(
                        i as int + 1,
                        j as int,
                    ));
                    assert(sv.skip(i as int).skip(1 + (j - i - 1)) =~= sv.skip(j as int));
                }
                let name = s.substring_char(i + 1, j);
                match vars.get(name) {
                    Some(value) => {
                        out.append(value.as_str());
                        proof {
                            match expand_spec(sv.skip(j as int), vars@) {
                                Ok(rest) => {
                                    assert(expand_spec(sv.skip(i as int), vars@)
                                        == Ok::<Seq<char>, Seq<char>>(vars@[name@] + rest));
                                    assert(out0 + (vars@[name@] + rest) =~= out@ + rest);
                                },
                                Err(_) => {},
                            }
                        }
                        i = j;
                    },
                    None => {
                        proof {
                            assert(expand_spec(sv.skip(i as int), vars@)
                                == Err::<Seq<char>, Seq<char>>(name@));
                        }
                        return Err(ParseError::UndefinedVariable(name.to_owned()));
                    },
                }
            } else {
                // a bare `$`: literal
                out.append("$");
                proof {
                    reveal_strlit("$");
                    assert("$"@ =~= seq![c]);
                    match expand_spec(sv.skip(i as int + 1), vars@) {
                        Ok(rest) => {
                            assert(out0 + (seq![c] + rest) =~= out@ + rest);
                        },
                        Err(_) => {},
                    }
                }
                i = i + 1;
            }
        } else {
            // a `$`-free span: copy it over whole
            let mut k = i + 1;
            while k < n && s.get_char(k) != '$'
                invariant
                    i < k <= n,
                    n == sv.len(),
                    s@ == sv,
                    forall|m: int| i <= m < k ==> sv[m] != '$',
                decreases n - k,
            {
                k = k + 1;
            }
            let word = s.substring_char(i, k);
            out.append(word);
            proof {
                lemma_expand_literal_run(sv, vars@, i as int, k as int);
                match expand_spec(sv.skip(k as int), vars@) {
                    Ok(rest) => {
                        assert(out0 + (sv.subrange(i as int, k as int) + rest) =~= out@ + rest);
                    },
                    Err(_) => {},
                }
            }
            i = k;
        }
    }
    proof {
        assert(s@.skip(n as int).len() == 0);
        assert(out@ + Seq::<char>::empty() =~= out@);
    }
    Ok(out)
}

} // verus!
