//! Whole-source comment removal that leaves string and character literals alone.

use vstd::prelude::*;

use super::macros::prepend;
use crate::lexer::grammar::starts_with2;

verus! {

/// Where the comment remover is: in code, in a string or character literal
/// (or just after a backslash in one), in a line comment, or in a block
/// comment that opened at index `start`.
#[derive(Debug, Clone, Copy, PartialEq, Eq, Structural)]
pub enum Strip {
    Code,
    Str,
    StrEscape,
    Chr,
    ChrEscape,
    Line,
    Block { start: usize },
}

/// What reading `s[i]` in state `m` emits, where reading goes on, and the next state.
/// With `keep`, comment text becomes blanks and its line breaks stay.
pub open spec fn strip_step(s: Seq<char>, i: int, m: Strip, keep: bool) -> (Seq<char>, int, Strip) {
    let c = s[i];
    let blank: Seq<char> = if keep { seq![' '] } else { Seq::empty() };
    let blank2: Seq<char> = if keep { seq![' ', ' '] } else { Seq::empty() };
    match m {
        Strip::Code => if c == '"' {
            (seq![c], i + 1, Strip::Str)
        } else if c == '\'' {
            (seq![c], i + 1, Strip::Chr)
        } else if starts_with2(s, i, '/', '/') {
            (blank, i + 2, Strip::Line)
        } else if starts_with2(s, i, '/', '*') {
            (blank2, i + 2, Strip::Block { start: i as usize })
        } else {
            (seq![c], i + 1, Strip::Code)
        },
        Strip::Str => (
            seq![c],
            i + 1,
            if c == '"' {
                Strip::Code
            } else if c == '\\' {
                Strip::StrEscape
            } else {
                Strip::Str
            },
        ),
        Strip::StrEscape => (seq![c], i + 1, Strip::Str),
        Strip::Chr => (
            seq![c],
            i + 1,
            if c == '\'' {
                Strip::Code
            } else if c == '\\' {
                Strip::ChrEscape
            } else {
                Strip::Chr
            },
        ),
        Strip::ChrEscape => (seq![c], i + 1, Strip::Chr),
        Strip::Line => if c == '\n' {
            (seq!['\n'], i + 1, Strip::Code)
        } else {
            (blank, i + 1, Strip::Line)
        },
        Strip::Block { .. } => if starts_with2(s, i, '*', '/') {
            (blank2, i + 2, Strip::Code)
        } else {
            (
                if keep {
                    if c == '\n' {
                        seq!['\n']
                    } else {
                        seq![' ']
                    }
                } else {
                    Seq::empty()
                },
                i + 1,
                m,
            )
        },
    }
}

/// The text from index `i` on with comments removed, or the index of the
/// `/*` of a block comment still open at the end.
pub open spec fn strip_from(s: Seq<char>, i: int, m: Strip, keep: bool) -> Result<Seq<char>, int>
    decreases s.len() - i,
{
    if i < 0 || i >= s.len() {
        match m {
            Strip::Block { start } => Err(start as int),
            _ => Ok(Seq::empty()),
        }
    } else {
        let (em, i2, m2) = strip_step(s, i, m, keep);
        if i < i2 {
            prepend(em, strip_from(s, i2, m2, keep))
        } else {
            Ok(Seq::empty())
        }
    }
}

/// `s` with comments removed, or the index of the `/*` of a block comment left open.
pub open spec fn strip_comments(s: Seq<char>, keep: bool) -> Result<Seq<char>, int> {
    strip_from(s, 0, Strip::Code, keep)
}

pub proof fn lemma_prepend_twice<E>(a: Seq<char>, b: Seq<char>, r: Result<Seq<char>, E>)
    ensures
        prepend(a, prepend(b, r)) == prepend(a + b, r),
{
    match r {
        Ok(x) => assert(a + (b + x) =~= (a + b) + x),
        Err(_) => {},
    }
}

/// Reads `s[i]` in state `m`, appending what it emits to `out`.
fn step(s: &Vec<char>, i: usize, m: Strip, keep: bool, out: &mut Vec<char>) -> (r: (usize, Strip))
    requires
        i < s.len(),
        m is Block ==> m->start < i,
    ensures
        final(out)@ == old(out)@ + strip_step(s@, i as int, m, keep).0,
        r.0 as int == strip_step(s@, i as int, m, keep).1,
        r.1 == strip_step(s@, i as int, m, keep).2,
        i < r.0 <= s.len(),
        r.1 is Block ==> r.1->start < r.0,
{
    let c = s[i];
    let pair_next = i + 1 < s.len();
    let ghost o = out@;
    match m {
        Strip::Code => {
            if c == '"' {
                out.push(c);
                (i + 1, Strip::Str)
            } else if c == '\'' {
                out.push(c);
                (i + 1, Strip::Chr)
            } else if c == '/' && pair_next && s[i + 1] == '/' {
                if keep {
                    out.push(' ');
                }
                assert(out@ =~= o + strip_step(s@, i as int, m, keep).0);
                (i + 2, Strip::Line)
            } else if c == '/' && pair_next && s[i + 1] == '*' {
                if keep {
                    out.push(' ');
                    out.push(' ');
                }
                assert(out@ =~= o + strip_step(s@, i as int, m, keep).0);
                (i + 2, Strip::Block { start: i })
            } else {
                out.push(c);
                (i + 1, Strip::Code)
            }
        },
        Strip::Str => {
            out.push(c);
            if c == '"' {
                (i + 1, Strip::Code)
            } else if c == '\\' {
                (i + 1, Strip::StrEscape)
            } else {
                (i + 1, Strip::Str)
            }
        },
        Strip::StrEscape => {
            out.push(c);
            (i + 1, Strip::Str)
        },
        Strip::Chr => {
            out.push(c);
            if c == '\'' {
                (i + 1, Strip::Code)
            } else if c == '\\' {
                (i + 1, Strip::ChrEscape)
            } else {
                (i + 1, Strip::Chr)
            }
        },
        Strip::ChrEscape => {
            out.push(c);
            (i + 1, Strip::Chr)
        },
        Strip::Line => {
            if c == '\n' {
                out.push('\n');
                (i + 1, Strip::Code)
            } else {
                if keep {
                    out.push(' ');
                }
                assert(out@ =~= o + strip_step(s@, i as int, m, keep).0);
                (i + 1, Strip::Line)
            }
        },
        Strip::Block { start } => {
            if c == '*' && pair_next && s[i + 1] == '/' {
                if keep {
                    out.push(' ');
                    out.push(' ');
                }
                assert(out@ =~= o + strip_step(s@, i as int, m, keep).0);
                (i + 2, Strip::Code)
            } else {
                if keep {
                    if c == '\n' {
                        out.push('\n');
                    } else {
                        out.push(' ');
                    }
                }
                assert(out@ =~= o + strip_step(s@, i as int, m, keep).0);
                (i + 1, Strip::Block { start })
            }
        },
    }
}

/// `s` with comments removed, or the index of the `/*` of a block comment left open.
pub fn remove_comments(s: &Vec<char>, keep: bool) -> (r: Result<Vec<char>, usize>)
    ensures
        match strip_comments(s@, keep) {
            Ok(x) => r is Ok && r->Ok_0@ == x,
            Err(start) => r is Err && r->Err_0 as int == start && start < s.len(),
        },
{
    let mut out: Vec<char> = Vec::new();
    let mut mode = Strip::Code;
    let mut i: usize = 0;
    while i < s.len()
        invariant
            i <= s.len(),
            mode is Block ==> mode->start < i,
            strip_comments(s@, keep) == prepend(out@, strip_from(s@, i as int, mode, keep)),
        decreases s.len() - i,
    {
        let ghost o = out@;
        let ghost i0 = i as int;
        let ghost m0 = mode;
        let (next, m) = step(s, i, mode, keep, &mut out);
        i = next;
        mode = m;
        proof {
            let em = strip_step(s@, i0, m0, keep).0;
            assert(strip_from(s@, i0, m0, keep) == prepend(em, strip_from(s@, i as int, mode, keep)));
            lemma_prepend_twice(o, em, strip_from(s@, i as int, mode, keep));
        }
    }
    proof {
        assert(out@ + Seq::<char>::empty() =~= out@);
    }
    match mode {
        Strip::Block { start } => Err(start),
        _ => Ok(out),
    }
}

} // verus!
