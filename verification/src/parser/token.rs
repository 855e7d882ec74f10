//! The kinds of tokens.

use crate::span::SpanRef;
use vstd::prelude::*;

verus! {

/// A token.
#[derive(Clone, Copy, Debug, PartialEq, Eq, Structural)]
pub enum PyToken {
    Invalid,
    Whitespace,
    Newline,
    Ellipsis,
    Dot,
    Comma,
    Colon,
    LParen,
    RParen,
    Minus,
    Plus,
    Star,
    Slash,
    Percent,
    Equal,
    DoubleEqual,
    NotEqual,
    GreaterThan,
    At,
    True,
    False,
    NoneLiteral,
    FnDef,
    ClassDef,
    If,
    Elif,
    Else,
    While,
    Import,
    From,
    Return,
    Pass,
    /// A run of digits, as a number.
    Digits(i64),
    /// An identifier that has not been interned yet.
    RawIdent,
    Ident(SpanRef),
    StringRef(SpanRef),
    CommentRef(SpanRef),
}

} // verus!
