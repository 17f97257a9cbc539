//! Properties that hold for whole families of inputs, stated over the models
//! that the scanner's and the preprocessor's contracts use.

use vstd::prelude::*;

use crate::common::position::{position_at, Position};
use crate::common::text::{is_name_char, is_name_start};
use crate::common::token::{kind_is_delimiter, kind_is_operator, Token, TokenKind};
use crate::lexer::error::LexerError;
use crate::lexer::grammar::{
    keyword_kind, name_end, scan_trace, skip_trivia, starts_with2, token_end, Trivia,
    MAX_IDENTIFIER_LEN,
};
use crate::preprocessor::comments::{strip_comments, strip_from, Strip};
use crate::preprocessor::lines::{trim_start, words_from};
use crate::preprocessor::macros::{expansion, has_name, Entries};
use crate::preprocessor::{preprocess, run_lines, Fault, PassState};

verus! {

/// One of the nine delimiter characters.
pub open spec fn is_delimiter_char(c: char) -> bool {
    c == '(' || c == ')' || c == '{' || c == '}' || c == '[' || c == ']' || c == ';' || c == ','
        || c == ':'
}

/// One of the nineteen operator lexemes.
pub open spec fn is_operator_text(w: Seq<char>) -> bool {
    w == seq!['+'] || w == seq!['-'] || w == seq!['*'] || w == seq!['/'] || w == seq!['%']
        || w == seq!['=', '='] || w == seq!['!', '='] || w == seq!['<'] || w == seq!['<', '=']
        || w == seq!['>'] || w == seq!['>', '='] || w == seq!['&', '&'] || w == seq!['|', '|']
        || w == seq!['!'] || w == seq!['='] || w == seq!['+', '='] || w == seq!['-', '=']
        || w == seq!['*', '='] || w == seq!['/', '=']
}

/// Scanning a text that is one delimiter character yields exactly that
/// delimiter and the end-of-file token, and no error.
pub proof fn law_single_delimiter(c: char, tokens: Seq<Token>, errors: Seq<LexerError>)
    requires
        is_delimiter_char(c),
        scan_trace(seq![c], 0, tokens, errors),
    ensures
        tokens.len() == 2,
        errors.len() == 0,
        kind_is_delimiter(tokens[0].kind),
        tokens[0].lexeme@ == seq![c],
        tokens[1].kind is EndOfFile,
{
    let s = seq![c];
    assert(skip_trivia(s, 0, Trivia::Code) == Ok::<int, int>(0));
    assert(token_end(s, 0) == 1);
    assert(skip_trivia(s, 1, Trivia::Code) == Ok::<int, int>(1));
    assert(s.subrange(0, 1) =~= s);
    assert(scan_trace(s, 1, tokens.drop_first(), errors));
}

/// Scanning a text that is one operator lexeme yields exactly one operator
/// token with that lexeme, then the end-of-file token, and no error.
pub proof fn law_single_operator(w: Seq<char>, tokens: Seq<Token>, errors: Seq<LexerError>)
    requires
        is_operator_text(w),
        scan_trace(w, 0, tokens, errors),
    ensures
        tokens.len() == 2,
        errors.len() == 0,
        kind_is_operator(tokens[0].kind),
        tokens[0].lexeme@ == w,
        tokens[1].kind is EndOfFile,
{
    let n = w.len() as int;
    assert(skip_trivia(w, 0, Trivia::Code) == Ok::<int, int>(0));
    assert(token_end(w, 0) == n);
    assert(skip_trivia(w, n, Trivia::Code) == Ok::<int, int>(n));
    assert(w.subrange(0, n) =~= w);
    assert(scan_trace(w, n, tokens.drop_first(), errors));
}

proof fn lemma_name_run_to_end(w: Seq<char>, k: int)
    requires
        0 <= k <= w.len(),
        forall|x: int| 0 <= x < w.len() ==> is_name_char(#[trigger] w[x]),
    ensures
        name_end(w, k) == w.len(),
    decreases w.len() - k,
{
    if k < w.len() {
        lemma_name_run_to_end(w, k + 1);
    }
}

/// Scanning an identifier-shaped text that is no reserved word yields one
/// identifier token when it has at most 255 characters, and otherwise exactly
/// one identifier-too-long error at its start (and just the end-of-file token).
pub proof fn law_identifier_length(w: Seq<char>, tokens: Seq<Token>, errors: Seq<LexerError>)
    requires
        w.len() > 0,
        is_name_start(w[0]),
        forall|x: int| 0 <= x < w.len() ==> is_name_char(#[trigger] w[x]),
        keyword_kind(w) is None,
        scan_trace(w, 0, tokens, errors),
    ensures
        w.len() <= MAX_IDENTIFIER_LEN ==> {
            &&& errors.len() == 0
            &&& tokens.len() == 2
            &&& tokens[0].kind == TokenKind::Identifier(tokens[0].lexeme)
            &&& tokens[0].lexeme@ == w
            &&& tokens[1].kind is EndOfFile
        },
        w.len() > MAX_IDENTIFIER_LEN ==> {
            &&& errors.len() == 1
            &&& errors[0] == LexerError::IdentifierTooLong { position: Position { line: 1, column: 1 } }
            &&& tokens.len() == 1
            &&& tokens[0].kind is EndOfFile
        },
{
    let n = w.len() as int;
    lemma_name_run_to_end(w, 1);
    assert(skip_trivia(w, 0, Trivia::Code) == Ok::<int, int>(0));
    assert(token_end(w, 0) == n);
    assert(skip_trivia(w, n, Trivia::Code) == Ok::<int, int>(n));
    assert(w.subrange(0, n) =~= w);
    assert(position_at(w, 0) == Position { line: 1, column: 1 });
    if n <= MAX_IDENTIFIER_LEN {
        assert(scan_trace(w, n, tokens.drop_first(), errors));
    } else {
        assert(scan_trace(w, n, tokens, errors.drop_first()));
    }
}

/// The line `l` is a directive line whose words are `parts`.
pub open spec fn directive_words(l: Seq<char>, parts: Seq<Seq<char>>) -> bool {
    let t = trim_start(l);
    t.len() > 0 && t[0] == '#' && words_from(t, 0) == parts
}

/// The line `l` is ordinary text: its first non-blank character is not `#`.
pub open spec fn ordinary_line(l: Seq<char>) -> bool {
    let t = trim_start(l);
    !(t.len() > 0 && t[0] == '#')
}

/// In `#ifdef NAME`, line `a`, `#else`, line `b`, `#endif`, exactly one of the
/// two lines comes out: `a` when NAME is defined, `b` when it is not.
pub proof fn law_ifdef_else_exclusive(
    defs: Entries,
    name: Seq<char>,
    l1: Seq<char>,
    a: Seq<char>,
    l3: Seq<char>,
    b: Seq<char>,
    l5: Seq<char>,
)
    requires
        directive_words(l1, seq!["#ifdef"@, name]),
        directive_words(l3, seq!["#else"@]),
        directive_words(l5, seq!["#endif"@]),
        ordinary_line(a),
        ordinary_line(b),
        expansion(defs, a) is Ok,
        expansion(defs, b) is Ok,
    ensures
        run_lines(
            seq![l1, a, l3, b, l5],
            0,
            PassState { defs, stack: Seq::empty() },
            false,
            true,
        ) == Ok::<(Seq<char>, PassState), Fault>(
            (
                if has_name(defs, name) {
                    expansion(defs, a)->Ok_0.push('\n')
                } else {
                    expansion(defs, b)->Ok_0.push('\n')
                },
                PassState { defs, stack: Seq::empty() },
            ),
        ),
{
    reveal_strlit("#define");
    reveal_strlit("#undef");
    reveal_strlit("#ifdef");
    reveal_strlit("#ifndef");
    reveal_strlit("#endif");
    reveal_strlit("#else");
    reveal_strlit("#");
    assert("#endif"@ != "#undef"@) by {
        assert("#endif"@[1] != "#undef"@[1]);
    }
    assert("#endif"@ != "#ifdef"@) by {
        assert("#endif"@[1] != "#ifdef"@[1]);
    }
    assert("#else"@ != "#endif"@) by {
        assert("#else"@.len() != "#endif"@.len());
    }
    assert("#endif"@ != "#define"@) by {
        assert("#endif"@.len() != "#define"@.len());
    }
    assert("#endif"@ != "#ifndef"@) by {
        assert("#endif"@.len() != "#ifndef"@.len());
    }
    assert("#else"@.len() == 5 && "#endif"@.len() == 6 && "#ifdef"@.len() == 6
        && "#undef"@.len() == 6 && "#define"@.len() == 7 && "#ifndef"@.len() == 7 && "#"@.len()
        == 1);
    assert("#ifdef"@ != "#undef"@) by {
        assert("#ifdef"@[1] != "#undef"@[1]);
    }
    assert("#else"@ != "#define"@ && "#else"@ != "#undef"@ && "#else"@ != "#ifdef"@ && "#else"@
        != "#ifndef"@ && "#else"@ != "#"@);
    assert("#ifdef"@ != "#define"@ && "#endif"@ != "#"@);
    let ls = seq![l1, a, l3, b, l5];
    let h = has_name(defs, name);
    let st0 = PassState { defs, stack: Seq::<bool>::empty() };
    let st1 = PassState { defs, stack: seq![h] };
    let st3 = PassState { defs, stack: seq![!h] };
    assert(seq![h].update(0, !h) =~= seq![!h]);
    assert(Seq::<bool>::empty().push(h) =~= seq![h]);
    assert(seq![!h].drop_last() =~= Seq::<bool>::empty());
    let oa = if h { expansion(defs, a)->Ok_0.push('\n') } else { Seq::<char>::empty() };
    let ob = if !h { expansion(defs, b)->Ok_0.push('\n') } else { Seq::<char>::empty() };
    assert(run_lines(ls, 5, st0, false, true) == Ok::<(Seq<char>, PassState), Fault>(
        (Seq::empty(), st0),
    ));
    assert(run_lines(ls, 4, st3, false, true) == Ok::<(Seq<char>, PassState), Fault>(
        (Seq::empty() + Seq::empty(), st0),
    ));
    assert(run_lines(ls, 3, st3, false, true) == Ok::<(Seq<char>, PassState), Fault>(
        (ob + (Seq::empty() + Seq::empty()), st0),
    ));
    assert(run_lines(ls, 2, st1, false, true) == Ok::<(Seq<char>, PassState), Fault>(
        (Seq::empty() + (ob + (Seq::empty() + Seq::empty())), st0),
    ));
    assert(run_lines(ls, 1, st1, false, true) == Ok::<(Seq<char>, PassState), Fault>(
        (oa + (Seq::empty() + (ob + (Seq::empty() + Seq::empty()))), st0),
    ));
    assert(run_lines(ls, 0, st0, false, true) == Ok::<(Seq<char>, PassState), Fault>(
        (Seq::empty() + (oa + (Seq::empty() + (ob + (Seq::empty() + Seq::empty())))), st0),
    ));
    if h {
        assert(Seq::empty() + (oa + (Seq::empty() + (ob + (Seq::empty() + Seq::empty()))))
            =~= expansion(defs, a)->Ok_0.push('\n'));
    } else {
        assert(Seq::empty() + (oa + (Seq::empty() + (ob + (Seq::empty() + Seq::empty()))))
            =~= expansion(defs, b)->Ok_0.push('\n'));
    }
}

/// A block comment still open at the end of the source fails the whole pass,
/// at the position of its `/*`.
pub proof fn law_open_comment_fails(src: Seq<char>, defs: Entries, keep: bool, cond: bool)
    requires
        strip_comments(src, keep) is Err,
    ensures
        preprocess(src, defs, keep, cond) == Err::<(Seq<char>, Entries), Fault>(
            Fault::UnterminatedComment(position_at(src, strip_comments(src, keep)->Err_0)),
        ),
{
}

/// A conditional block still open after the last line fails the whole pass
/// with an unterminated-conditional error.
pub proof fn law_open_block_fails(src: Seq<char>, defs: Entries, keep: bool, cond: bool)
    requires
        strip_comments(src, keep) is Ok,
        run_lines(
            crate::preprocessor::lines::lines_of(strip_comments(src, keep)->Ok_0),
            0,
            PassState { defs, stack: Seq::empty() },
            keep,
            cond,
        ) matches Ok((_, st)) && st.stack.len() > 0,
    ensures
        preprocess(src, defs, keep, cond) == Err::<(Seq<char>, Entries), Fault>(
            Fault::UnterminatedConditional(Position { line: 1, column: 1 }),
        ),
{
}

/// No `*/` starts at or after index `k` of `s`.
pub open spec fn never_closed(s: Seq<char>, k: int) -> bool {
    forall|x: int| k <= x < s.len() ==> !starts_with2(s, x, '*', '/')
}

proof fn lemma_block_stays_open(s: Seq<char>, k: int, start: int, depth: nat)
    requires
        0 <= k <= s.len(),
        never_closed(s, k),
    ensures
        skip_trivia(s, k, Trivia::Block { start, depth }) == Err::<int, int>(start),
    decreases s.len() - k,
{
    if k < s.len() {
        assert(!starts_with2(s, k, '*', '/'));
        if starts_with2(s, k, '/', '*') {
            lemma_block_stays_open(s, k + 2, start, depth + 1);
        } else {
            lemma_block_stays_open(s, k + 1, start, depth);
        }
    }
}

proof fn lemma_strip_stays_open(s: Seq<char>, k: int, start: usize, keep: bool)
    requires
        0 <= k <= s.len(),
        never_closed(s, k),
    ensures
        strip_from(s, k, Strip::Block { start }, keep) == Err::<Seq<char>, int>(start as int),
    decreases s.len() - k,
{
    if k < s.len() {
        assert(!starts_with2(s, k, '*', '/'));
        lemma_strip_stays_open(s, k + 1, start, keep);
    }
}

/// A text that opens with `/*` and never closes it is one unterminated-comment
/// error at 1:1 for the scanner (which then reaches the end), and an
/// unterminated-comment failure at 1:1 for the preprocessor.
pub proof fn law_unclosed_comment(
    body: Seq<char>,
    tokens: Seq<Token>,
    errors: Seq<LexerError>,
    defs: Entries,
    keep: bool,
    cond: bool,
)
    requires
        never_closed(seq!['/', '*'] + body, 2),
        scan_trace(seq!['/', '*'] + body, 0, tokens, errors),
    ensures
        errors == seq![LexerError::UnterminatedComment { position: Position { line: 1, column: 1 } }],
        tokens.len() == 1,
        tokens[0].kind is EndOfFile,
        preprocess(seq!['/', '*'] + body, defs, keep, cond) == Err::<(Seq<char>, Entries), Fault>(
            Fault::UnterminatedComment(Position { line: 1, column: 1 }),
        ),
{
    let s = seq!['/', '*'] + body;
    let n = s.len() as int;
    lemma_block_stays_open(s, 2, 0, 1);
    assert(s[0] == '/' && s[1] == '*');
    assert(skip_trivia(s, 0, Trivia::Code) == Err::<int, int>(0));
    assert(position_at(s, 0) == Position { line: 1, column: 1 });
    assert(skip_trivia(s, n, Trivia::Code) == Ok::<int, int>(n));
    assert(scan_trace(s, n, tokens, errors.drop_first()));
    assert(errors =~= seq![LexerError::UnterminatedComment { position: Position { line: 1, column: 1 } }]);
    lemma_strip_stays_open(s, 2, 0, keep);
    assert(strip_comments(s, keep) == Err::<Seq<char>, int>(0));
}

} // verus!
