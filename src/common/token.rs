//! Token kinds and tokens.

use vstd::prelude::*;

use super::position::Position;
use super::text::{push_char, push_signed_decimal, push_text, signed_decimal};

verus! {

/// The closed set of token classes.
///
/// Literal variants carry their parsed value. A float literal carries its
/// checked decimal text (optional `-`, digits, `.`, digits); turning it into a
/// binary floating-point number is left to the consumer.
#[derive(Debug, Clone, PartialEq, Eq)]
pub enum TokenKind {
    KwIf,
    KwElse,
    KwWhile,
    KwFor,
    KwInt,
    KwFloat,
    KwBool,
    KwReturn,
    KwTrue,
    KwFalse,
    KwVoid,
    KwStruct,
    KwFn,
    Identifier(String),
    IntLiteral(i32),
    FloatLiteral(String),
    StringLiteral(String),
    BoolLiteral(bool),
    Plus,
    Minus,
    Asterisk,
    Slash,
    Percent,
    EqEq,
    BangEq,
    Lt,
    LtEq,
    Gt,
    GtEq,
    AmpAmp,
    PipePipe,
    Bang,
    Eq,
    PlusEq,
    MinusEq,
    AsteriskEq,
    SlashEq,
    LParen,
    RParen,
    LBrace,
    RBrace,
    LBracket,
    RBracket,
    Semicolon,
    Comma,
    Colon,
    EndOfFile,
}

pub open spec fn kind_is_keyword(k: TokenKind) -> bool {
    k is KwIf || k is KwElse || k is KwWhile || k is KwFor || k is KwInt || k is KwFloat
        || k is KwBool || k is KwReturn || k is KwTrue || k is KwFalse || k is KwVoid
        || k is KwStruct || k is KwFn
}

pub open spec fn kind_is_literal(k: TokenKind) -> bool {
    k is IntLiteral || k is FloatLiteral || k is StringLiteral || k is BoolLiteral
}

pub open spec fn kind_is_operator(k: TokenKind) -> bool {
    k is Plus || k is Minus || k is Asterisk || k is Slash || k is Percent || k is EqEq
        || k is BangEq || k is Lt || k is LtEq || k is Gt || k is GtEq || k is AmpAmp
        || k is PipePipe || k is Bang || k is Eq || k is PlusEq || k is MinusEq
        || k is AsteriskEq || k is SlashEq
}

pub open spec fn kind_is_delimiter(k: TokenKind) -> bool {
    k is LParen || k is RParen || k is LBrace || k is RBrace || k is LBracket || k is RBracket
        || k is Semicolon || k is Comma || k is Colon
}

/// The upper-case name under which a kind is printed.
pub open spec fn kind_name(k: TokenKind) -> Seq<char> {
    match k {
        TokenKind::KwIf => "KW_IF"@,
        TokenKind::KwElse => "KW_ELSE"@,
        TokenKind::KwWhile => "KW_WHILE"@,
        TokenKind::KwFor => "KW_FOR"@,
        TokenKind::KwInt => "KW_INT"@,
        TokenKind::KwFloat => "KW_FLOAT"@,
        TokenKind::KwBool => "KW_BOOL"@,
        TokenKind::KwReturn => "KW_RETURN"@,
        TokenKind::KwTrue => "KW_TRUE"@,
        TokenKind::KwFalse => "KW_FALSE"@,
        TokenKind::KwVoid => "KW_VOID"@,
        TokenKind::KwStruct => "KW_STRUCT"@,
        TokenKind::KwFn => "KW_FN"@,
        TokenKind::Identifier(_) => "IDENTIFIER"@,
        TokenKind::IntLiteral(_) => "INT_LITERAL"@,
        TokenKind::FloatLiteral(_) => "FLOAT_LITERAL"@,
        TokenKind::StringLiteral(_) => "STRING_LITERAL"@,
        TokenKind::BoolLiteral(_) => "BOOL_LITERAL"@,
        TokenKind::Plus => "PLUS"@,
        TokenKind::Minus => "MINUS"@,
        TokenKind::Asterisk => "ASTERISK"@,
        TokenKind::Slash => "SLASH"@,
        TokenKind::Percent => "PERCENT"@,
        TokenKind::EqEq => "EQ_EQ"@,
        TokenKind::BangEq => "BANG_EQ"@,
        TokenKind::Lt => "LT"@,
        TokenKind::LtEq => "LT_EQ"@,
        TokenKind::Gt => "GT"@,
        TokenKind::GtEq => "GT_EQ"@,
        TokenKind::AmpAmp => "AMP_AMP"@,
        TokenKind::PipePipe => "PIPE_PIPE"@,
        TokenKind::Bang => "BANG"@,
        TokenKind::Eq => "ASSIGN"@,
        TokenKind::PlusEq => "PLUS_EQ"@,
        TokenKind::MinusEq => "MINUS_EQ"@,
        TokenKind::AsteriskEq => "ASTERISK_EQ"@,
        TokenKind::SlashEq => "SLASH_EQ"@,
        TokenKind::LParen => "LPAREN"@,
        TokenKind::RParen => "RPAREN"@,
        TokenKind::LBrace => "LBRACE"@,
        TokenKind::RBrace => "RBRACE"@,
        TokenKind::LBracket => "LBRACKET"@,
        TokenKind::RBracket => "RBRACKET"@,
        TokenKind::Semicolon => "SEMICOLON"@,
        TokenKind::Comma => "COMMA"@,
        TokenKind::Colon => "COLON"@,
        TokenKind::EndOfFile => "END_OF_FILE"@,
    }
}

/// The printed value of a literal kind, preceded by a space; empty for other kinds.
pub open spec fn literal_suffix(k: TokenKind) -> Seq<char> {
    match k {
        TokenKind::IntLiteral(n) => seq![' '] + signed_decimal(n as int),
        TokenKind::FloatLiteral(t) => seq![' '] + t@,
        TokenKind::BoolLiteral(b) => seq![' '] + if b { "true"@ } else { "false"@ },
        TokenKind::StringLiteral(t) => seq![' '] + t@,
        _ => Seq::empty(),
    }
}

/// The upper-case name under which a kind is printed.
pub fn token_type_name(kind: &TokenKind) -> (r: &'static str)
    ensures
        r@ == kind_name(*kind),
{
    match kind {
        TokenKind::KwIf => "KW_IF",
        TokenKind::KwElse => "KW_ELSE",
        TokenKind::KwWhile => "KW_WHILE",
        TokenKind::KwFor => "KW_FOR",
        TokenKind::KwInt => "KW_INT",
        TokenKind::KwFloat => "KW_FLOAT",
        TokenKind::KwBool => "KW_BOOL",
        TokenKind::KwReturn => "KW_RETURN",
        TokenKind::KwTrue => "KW_TRUE",
        TokenKind::KwFalse => "KW_FALSE",
        TokenKind::KwVoid => "KW_VOID",
        TokenKind::KwStruct => "KW_STRUCT",
        TokenKind::KwFn => "KW_FN",
        TokenKind::Identifier(_) => "IDENTIFIER",
        TokenKind::IntLiteral(_) => "INT_LITERAL",
        TokenKind::FloatLiteral(_) => "FLOAT_LITERAL",
        TokenKind::StringLiteral(_) => "STRING_LITERAL",
        TokenKind::BoolLiteral(_) => "BOOL_LITERAL",
        TokenKind::Plus => "PLUS",
        TokenKind::Minus => "MINUS",
        TokenKind::Asterisk => "ASTERISK",
        TokenKind::Slash => "SLASH",
        TokenKind::Percent => "PERCENT",
        TokenKind::EqEq => "EQ_EQ",
        TokenKind::BangEq => "BANG_EQ",
        TokenKind::Lt => "LT",
        TokenKind::LtEq => "LT_EQ",
        TokenKind::Gt => "GT",
        TokenKind::GtEq => "GT_EQ",
        TokenKind::AmpAmp => "AMP_AMP",
        TokenKind::PipePipe => "PIPE_PIPE",
        TokenKind::Bang => "BANG",
        TokenKind::Eq => "ASSIGN",
        TokenKind::PlusEq => "PLUS_EQ",
        TokenKind::MinusEq => "MINUS_EQ",
        TokenKind::AsteriskEq => "ASTERISK_EQ",
        TokenKind::SlashEq => "SLASH_EQ",
        TokenKind::LParen => "LPAREN",
        TokenKind::RParen => "RPAREN",
        TokenKind::LBrace => "LBRACE",
        TokenKind::RBrace => "RBRACE",
        TokenKind::LBracket => "LBRACKET",
        TokenKind::RBracket => "RBRACKET",
        TokenKind::Semicolon => "SEMICOLON",
        TokenKind::Comma => "COMMA",
        TokenKind::Colon => "COLON",
        TokenKind::EndOfFile => "END_OF_FILE",
    }
}

/// One recognized unit of source text: its class, its exact text and where it starts.
#[derive(Debug, Clone)]
pub struct Token {
    pub kind: TokenKind,
    pub lexeme: String,
    pub position: Position,
}

impl Token {
    /// Only the end-of-file token has an empty lexeme, and every token starts at a valid position.
    pub open spec fn well_formed(&self) -> bool {
        (self.lexeme@.len() > 0 || self.kind is EndOfFile) && self.position.valid()
    }

    /// `line:column TYPE "lexeme"` followed by the literal value, if any.
    pub open spec fn text(&self) -> Seq<char> {
        self.position.text() + seq![' '] + kind_name(self.kind) + seq![' ', '"'] + self.lexeme@
            + seq!['"'] + literal_suffix(self.kind)
    }

    pub fn new(kind: TokenKind, lexeme: String, position: Position) -> (r: Self)
        requires
            lexeme@.len() > 0 || kind is EndOfFile,
            position.valid(),
        ensures
            r.kind == kind,
            r.lexeme == lexeme,
            r.position == position,
    {
        Token { kind, lexeme, position }
    }

    pub fn eof(position: Position) -> (r: Self)
        requires
            position.valid(),
        ensures
            r.kind is EndOfFile,
            r.lexeme@.len() == 0,
            r.position == position,
    {
        Self::new(TokenKind::EndOfFile, String::new(), position)
    }

    pub fn is_keyword(&self) -> (r: bool)
        ensures
            r == kind_is_keyword(self.kind),
    {
        match self.kind {
            TokenKind::KwIf | TokenKind::KwElse | TokenKind::KwWhile | TokenKind::KwFor
            | TokenKind::KwInt | TokenKind::KwFloat | TokenKind::KwBool | TokenKind::KwReturn
            | TokenKind::KwTrue | TokenKind::KwFalse | TokenKind::KwVoid | TokenKind::KwStruct
            | TokenKind::KwFn => true,
            _ => false,
        }
    }

    pub fn is_literal(&self) -> (r: bool)
        ensures
            r == kind_is_literal(self.kind),
    {
        match self.kind {
            TokenKind::IntLiteral(_) | TokenKind::FloatLiteral(_) | TokenKind::StringLiteral(_)
            | TokenKind::BoolLiteral(_) => true,
            _ => false,
        }
    }

    pub fn is_operator(&self) -> (r: bool)
        ensures
            r == kind_is_operator(self.kind),
    {
        match self.kind {
            TokenKind::Plus | TokenKind::Minus | TokenKind::Asterisk | TokenKind::Slash
            | TokenKind::Percent | TokenKind::EqEq | TokenKind::BangEq | TokenKind::Lt
            | TokenKind::LtEq | TokenKind::Gt | TokenKind::GtEq | TokenKind::AmpAmp
            | TokenKind::PipePipe | TokenKind::Bang | TokenKind::Eq | TokenKind::PlusEq
            | TokenKind::MinusEq | TokenKind::AsteriskEq | TokenKind::SlashEq => true,
            _ => false,
        }
    }

    pub fn is_delimiter(&self) -> (r: bool)
        ensures
            r == kind_is_delimiter(self.kind),
    {
        match self.kind {
            TokenKind::LParen | TokenKind::RParen | TokenKind::LBrace | TokenKind::RBrace
            | TokenKind::LBracket | TokenKind::RBracket | TokenKind::Semicolon
            | TokenKind::Comma | TokenKind::Colon => true,
            _ => false,
        }
    }

    pub fn is_eof(&self) -> (r: bool)
        ensures
            r == self.kind is EndOfFile,
    {
        match self.kind {
            TokenKind::EndOfFile => true,
            _ => false,
        }
    }

    pub fn type_label(&self) -> (r: &'static str)
        ensures
            r@ == kind_name(self.kind),
    {
        token_type_name(&self.kind)
    }

    pub fn as_int(&self) -> (r: Option<i32>)
        ensures
            r == (match self.kind {
                TokenKind::IntLiteral(n) => Some(n),
                _ => None,
            }),
    {
        match self.kind {
            TokenKind::IntLiteral(n) => Some(n),
            _ => None,
        }
    }

    /// The decimal text of a float literal.
    pub fn as_float(&self) -> (r: Option<&str>)
        ensures
            match self.kind {
                TokenKind::FloatLiteral(t) => r is Some && r->0@ == t@,
                _ => r is None,
            },
    {
        match &self.kind {
            TokenKind::FloatLiteral(t) => Some(t.as_str()),
            _ => None,
        }
    }

    pub fn as_string(&self) -> (r: Option<&str>)
        ensures
            match self.kind {
                TokenKind::StringLiteral(t) => r is Some && r->0@ == t@,
                _ => r is None,
            },
    {
        match &self.kind {
            TokenKind::StringLiteral(t) => Some(t.as_str()),
            _ => None,
        }
    }

    pub fn as_bool(&self) -> (r: Option<bool>)
        ensures
            r == (match self.kind {
                TokenKind::BoolLiteral(b) => Some(b),
                _ => None,
            }),
    {
        match self.kind {
            TokenKind::BoolLiteral(b) => Some(b),
            _ => None,
        }
    }

    /// `line:column TYPE "lexeme"` followed by the literal value, if any.
    pub fn to_string(&self) -> (r: String)
        ensures
            r@ == self.text(),
    {
        let mut r = String::new();
        self.position.write_to(&mut r);
        push_char(&mut r, ' ');
        push_text(&mut r, self.type_label());
        push_char(&mut r, ' ');
        push_char(&mut r, '"');
        push_text(&mut r, self.lexeme.as_str());
        push_char(&mut r, '"');
        let ghost before = r@;
        match &self.kind {
            TokenKind::IntLiteral(n) => {
                push_char(&mut r, ' ');
                push_signed_decimal(&mut r, *n);
            },
            TokenKind::FloatLiteral(t) => {
                push_char(&mut r, ' ');
                push_text(&mut r, t.as_str());
            },
            TokenKind::BoolLiteral(b) => {
                push_char(&mut r, ' ');
                if *b {
                    push_text(&mut r, "true");
                } else {
                    push_text(&mut r, "false");
                }
            },
            TokenKind::StringLiteral(t) => {
                push_char(&mut r, ' ');
                push_text(&mut r, t.as_str());
            },
            _ => {},
        }
        assert(r@ =~= before + literal_suffix(self.kind));
        assert(r@ =~= self.text());
        r
    }
}

} // verus!
