//! Helpers on the shared types: keyword tokens, name checks and a token listing.

use vstd::prelude::*;

use super::position::Position;
use super::text::{chars_of, push_char, push_text, text_is};
use super::token::{Token, TokenKind};

pub use crate::utils::{is_keyword, is_valid_identifier};

verus! {

/// The keyword kind spelled by `w`, with `true` and `false` as keywords.
pub open spec fn keyword_token_kind(w: Seq<char>) -> Option<TokenKind> {
    if w == "if"@ { Some(TokenKind::KwIf) }
    else if w == "else"@ { Some(TokenKind::KwElse) }
    else if w == "while"@ { Some(TokenKind::KwWhile) }
    else if w == "for"@ { Some(TokenKind::KwFor) }
    else if w == "int"@ { Some(TokenKind::KwInt) }
    else if w == "float"@ { Some(TokenKind::KwFloat) }
    else if w == "bool"@ { Some(TokenKind::KwBool) }
    else if w == "return"@ { Some(TokenKind::KwReturn) }
    else if w == "true"@ { Some(TokenKind::KwTrue) }
    else if w == "false"@ { Some(TokenKind::KwFalse) }
    else if w == "void"@ { Some(TokenKind::KwVoid) }
    else if w == "struct"@ { Some(TokenKind::KwStruct) }
    else if w == "fn"@ { Some(TokenKind::KwFn) }
    else { None }
}

/// One line per token: its index, right-aligned in three columns, and the token.
pub open spec fn debug_lines(tokens: Seq<Token>, n: int) -> Seq<char>
    decreases n,
{
    if n <= 0 {
        Seq::empty()
    } else {
        debug_lines(tokens, n - 1) + crate::utils::pad3((n - 1) as nat) + ": "@ + tokens[n - 1].text()
            + seq!['\n']
    }
}

/// The keyword token spelled by `keyword`, at `position`.
pub fn create_keyword_token(keyword: &str, position: Position) -> (r: Option<Token>)
    requires
        position.valid(),
    ensures
        match keyword_token_kind(keyword@) {
            Some(k) => r is Some && r->0.kind == k && r->0.lexeme@ == keyword@ && r->0.position
                == position,
            None => r is None,
        },
{
    let v = chars_of(keyword);
    let n = v.len();
    assert(v@.subrange(0, n as int) =~= v@);
    let kind = if text_is(&v, 0, n, "if") { TokenKind::KwIf }
    else if text_is(&v, 0, n, "else") { TokenKind::KwElse }
    else if text_is(&v, 0, n, "while") { TokenKind::KwWhile }
    else if text_is(&v, 0, n, "for") { TokenKind::KwFor }
    else if text_is(&v, 0, n, "int") { TokenKind::KwInt }
    else if text_is(&v, 0, n, "float") { TokenKind::KwFloat }
    else if text_is(&v, 0, n, "bool") { TokenKind::KwBool }
    else if text_is(&v, 0, n, "return") { TokenKind::KwReturn }
    else if text_is(&v, 0, n, "true") { TokenKind::KwTrue }
    else if text_is(&v, 0, n, "false") { TokenKind::KwFalse }
    else if text_is(&v, 0, n, "void") { TokenKind::KwVoid }
    else if text_is(&v, 0, n, "struct") { TokenKind::KwStruct }
    else if text_is(&v, 0, n, "fn") { TokenKind::KwFn }
    else { return None; };
    proof {
        reveal_strlit("if");
        reveal_strlit("else");
        reveal_strlit("while");
        reveal_strlit("for");
        reveal_strlit("int");
        reveal_strlit("float");
        reveal_strlit("bool");
        reveal_strlit("return");
        reveal_strlit("true");
        reveal_strlit("false");
        reveal_strlit("void");
        reveal_strlit("struct");
        reveal_strlit("fn");
    }
    Some(Token::new(kind, String::from_str(keyword), position))
}

/// Every token on a line of its own, after its index.
pub fn format_tokens_debug(tokens: &[Token]) -> (r: String)
    ensures
        r@ == debug_lines(tokens@, tokens@.len() as int),
{
    let mut r = String::new();
    let mut i: usize = 0;
    while i < tokens.len()
        invariant
            i <= tokens@.len(),
            r@ == debug_lines(tokens@, i as int),
        decreases tokens@.len() - i,
    {
        crate::utils::push_pad3(&mut r, i);
        push_text(&mut r, ": ");
        let text = tokens[i].to_string();
        push_text(&mut r, text.as_str());
        push_char(&mut r, '\n');
        i = i + 1;
        assert(r@ =~= debug_lines(tokens@, i as int));
    }
    r
}

} // verus!
