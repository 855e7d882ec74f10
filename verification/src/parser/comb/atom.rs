//! The parser of atoms: names, numbers and the literal words.

use crate::ast::{Atom, FloatLiteral, Spanned};
use crate::parser::comb::basic::{expect, expect_any_of, ErrorKind, ParseError};
use crate::parser::token::PyToken;
use crate::parser::Token;
use crate::span::Span;
use vstd::prelude::*;
use vstd::slice::slice_subrange;

verus! {

/// The atom that a single token stands for, if it stands for one.
pub open spec fn atom_of(token: PyToken) -> Option<Atom> {
    match token {
        PyToken::Ellipsis => Some(Atom::Ellipsis),
        PyToken::NoneLiteral => Some(Atom::NoneLiteral),
        PyToken::True => Some(Atom::Bool(true)),
        PyToken::False => Some(Atom::Bool(false)),
        PyToken::Digits(n) => Some(Atom::Int(n)),
        PyToken::CommentRef(n) => Some(Atom::Comment(n)),
        PyToken::StringRef(n) => Some(Atom::Str(n)),
        PyToken::Ident(n) => Some(Atom::Name(n)),
        _ => None,
    }
}

impl Atom {
    /// The atom that the token stands for.
    pub fn from_token(value: PyToken) -> (atom: Option<Atom>)
        ensures
            atom == atom_of(value),
    {
        match value {
            PyToken::Ellipsis => Some(Atom::Ellipsis),
            PyToken::NoneLiteral => Some(Atom::NoneLiteral),
            PyToken::True => Some(Atom::Bool(true)),
            PyToken::False => Some(Atom::Bool(false)),
            PyToken::Digits(n) => Some(Atom::Int(n)),
            PyToken::CommentRef(n) => Some(Atom::Comment(n)),
            PyToken::StringRef(n) => Some(Atom::Str(n)),
            PyToken::Ident(n) => Some(Atom::Name(n)),
            _ => None,
        }
    }
}

/// Reads an identifier token.
pub fn expect_ident<'a>(stream: &'a [Token]) -> (result: Result<
    (&'a [Token], Spanned<PyToken>),
    ParseError,
>)
    ensures
        match result {
            Ok((rest, token)) => {
                &&& stream@.len() > 0
                &&& stream@[0].token is Ident
                &&& token == (Spanned { span: stream@[0].span, inner: stream@[0].token })
                &&& rest@ == stream@.subrange(1, stream@.len() as int)
            },
            Err(e) => {
                &&& e.remaining == stream@.len()
                &&& if stream@.len() == 0 {
                    e.kind == ErrorKind::Eof
                } else {
                    e.kind == ErrorKind::IsNot && !(stream@[0].token is Ident)
                }
            },
        },
{
    if stream.len() == 0 {
        return Err(ParseError { kind: ErrorKind::Eof, remaining: 0 });
    }
    let first = &stream[0];
    match first.token {
        PyToken::Ident(_) => {
            let rest = slice_subrange(stream, 1, stream.len());
            Ok((rest, Spanned { span: first.span, inner: first.token }))
        },
        _ => Err(ParseError { kind: ErrorKind::IsNot, remaining: stream.len() }),
    }
}

fn expect_digits<'a>(stream: &'a [Token]) -> (result: Result<(&'a [Token], (i64, Span)), ParseError>)
    ensures
        match result {
            Ok((rest, (n, span))) => {
                &&& stream@.len() > 0
                &&& stream@[0].token == PyToken::Digits(n)
                &&& span == stream@[0].span
                &&& rest@ == stream@.subrange(1, stream@.len() as int)
            },
            Err(e) => {
                &&& e.remaining == stream@.len()
                &&& if stream@.len() == 0 {
                    e.kind == ErrorKind::Eof
                } else {
                    e.kind == ErrorKind::IsNot && !(stream@[0].token is Digits)
                }
            },
        },
{
    if stream.len() == 0 {
        return Err(ParseError { kind: ErrorKind::Eof, remaining: 0 });
    }
    let first = &stream[0];
    match first.token {
        PyToken::Digits(n) => {
            let rest = slice_subrange(stream, 1, stream.len());
            Ok((rest, (n, first.span)))
        },
        _ => Err(ParseError { kind: ErrorKind::IsNot, remaining: stream.len() }),
    }
}

/// What [`atom`] reads from the front of the stream: the atom, its span,
/// and how many tokens it takes.
///
/// An identifier is a name. Digits, a dot and digits are a float, whose
/// span reaches from the first digits to the last. Digits alone are an
/// integer. The ellipsis, `True`, `False` and `None` are themselves.
pub open spec fn parsed_atom(stream: Seq<Token>) -> Option<(Spanned<Atom>, int)> {
    if stream.len() == 0 {
        None
    } else {
        match stream[0].token {
            PyToken::Ident(n) => Some((Spanned { span: stream[0].span, inner: Atom::Name(n) }, 1)),
            PyToken::Digits(whole) => if stream.len() >= 3 && stream[1].token == PyToken::Dot
                && stream[2].token is Digits {
                Some(
                    (
                        Spanned {
                            span: Span { start: stream[0].span.start, end: stream[2].span.end },
                            inner: Atom::Float(
                                FloatLiteral { whole, fraction: stream[2].token->Digits_0 },
                            ),
                        },
                        3,
                    ),
                )
            } else {
                Some((Spanned { span: stream[0].span, inner: Atom::Int(whole) }, 1))
            },
            PyToken::Ellipsis => Some((Spanned { span: stream[0].span, inner: Atom::Ellipsis }, 1)),
            PyToken::True => Some((Spanned { span: stream[0].span, inner: Atom::Bool(true) }, 1)),
            PyToken::False => Some((Spanned { span: stream[0].span, inner: Atom::Bool(false) }, 1)),
            PyToken::NoneLiteral => Some(
                (Spanned { span: stream[0].span, inner: Atom::NoneLiteral }, 1),
            ),
            _ => None,
        }
    }
}

/// Reads a name.
pub fn name<'a>(stream: &'a [Token]) -> (result: Result<(&'a [Token], Spanned<Atom>), ParseError>)
    ensures
        match result {
            Ok((rest, atom)) => {
                &&& stream@.len() > 0
                &&& stream@[0].token matches PyToken::Ident(n) && atom == (Spanned {
                    span: stream@[0].span,
                    inner: Atom::Name(n),
                })
                &&& rest@ == stream@.subrange(1, stream@.len() as int)
            },
            Err(e) => stream@.len() == 0 || !(stream@[0].token is Ident),
        },
{
    let (rest, ident) = match expect_ident(stream) {
        Ok(found) => found,
        Err(e) => {
            return Err(e);
        },
    };
    match ident.inner {
        PyToken::Ident(n) => Ok((rest, Spanned { span: ident.span, inner: Atom::Name(n) })),
        _ => Err(ParseError { kind: ErrorKind::IsNot, remaining: stream.len() }),
    }
}

/// Reads an integer.
pub fn integer<'a>(stream: &'a [Token]) -> (result: Result<
    (&'a [Token], Spanned<Atom>),
    ParseError,
>)
    ensures
        match result {
            Ok((rest, atom)) => {
                &&& stream@.len() > 0
                &&& stream@[0].token matches PyToken::Digits(n) && atom == (Spanned {
                    span: stream@[0].span,
                    inner: Atom::Int(n),
                })
                &&& rest@ == stream@.subrange(1, stream@.len() as int)
            },
            Err(e) => stream@.len() == 0 || !(stream@[0].token is Digits),
        },
{
    match expect_digits(stream) {
        Ok((rest, (n, span))) => Ok((rest, Spanned { span, inner: Atom::Int(n) })),
        Err(e) => Err(e),
    }
}

/// Reads a float: digits, a dot, digits.
pub fn float<'a>(stream: &'a [Token]) -> (result: Result<(&'a [Token], Spanned<Atom>), ParseError>)
    ensures
        match result {
            Ok((rest, atom)) => {
                &&& stream@.len() >= 3
                &&& stream@[0].token is Digits
                &&& stream@[1].token == PyToken::Dot
                &&& stream@[2].token is Digits
                &&& atom == (Spanned {
                    span: Span { start: stream@[0].span.start, end: stream@[2].span.end },
                    inner: Atom::Float(
                        FloatLiteral {
                            whole: stream@[0].token->Digits_0,
                            fraction: stream@[2].token->Digits_0,
                        },
                    ),
                })
                &&& rest@ == stream@.subrange(3, stream@.len() as int)
            },
            Err(e) => !(stream@.len() >= 3 && stream@[0].token is Digits && stream@[1].token
                == PyToken::Dot && stream@[2].token is Digits),
        },
{
    let (rest, (whole, left)) = match expect_digits(stream) {
        Ok(found) => found,
        Err(e) => {
            return Err(e);
        },
    };
    let (rest2, _) = match expect(rest, PyToken::Dot) {
        Ok(found) => found,
        Err(e) => {
            proof {
                if rest@.len() > 0 {
                    assert(rest@[0] == stream@[1]);
                }
            }
            return Err(e);
        },
    };
    assert(rest@[0] == stream@[1]);
    let (rest3, (fraction, right)) = match expect_digits(rest2) {
        Ok(found) => found,
        Err(e) => {
            proof {
                if rest2@.len() > 0 {
                    assert(rest2@[0] == stream@[2]);
                }
            }
            return Err(e);
        },
    };
    assert(rest2@[0] == stream@[2]);
    assert(rest3@ =~= stream@.subrange(3, stream@.len() as int));
    Ok(
        (
            rest3,
            Spanned {
                span: Span { start: left.start, end: right.end },
                inner: Atom::Float(FloatLiteral { whole, fraction }),
            },
        ),
    )
}

/// Reads an atom: a name, a float, an integer, or one of the literal
/// words, whichever fits first.
pub fn atom<'a>(stream: &'a [Token]) -> (result: Result<(&'a [Token], Spanned<Atom>), ParseError>)
    ensures
        match result {
            Ok((rest, atom)) => parsed_atom(stream@) == Some((atom, stream@.len() - rest@.len()))
                && rest@ == stream@.subrange(stream@.len() - rest@.len(), stream@.len() as int),
            Err(e) => parsed_atom(stream@).is_none() && e.kind == ErrorKind::Alt && e.remaining
                == stream@.len(),
        },
{
    match name(stream) {
        Ok(found) => {
            return Ok(found);
        },
        Err(_) => {},
    }
    match float(stream) {
        Ok(found) => {
            return Ok(found);
        },
        Err(_) => {},
    }
    match integer(stream) {
        Ok(found) => {
            return Ok(found);
        },
        Err(_) => {},
    }
    let words: [PyToken; 4] = [
        PyToken::Ellipsis,
        PyToken::True,
        PyToken::False,
        PyToken::NoneLiteral,
    ];
    match expect_any_of(words.as_slice(), stream) {
        Ok((rest, token)) => {
            match Atom::from_token(token.inner) {
                Some(inner) => Ok((rest, Spanned { span: token.span, inner })),
                None => Err(ParseError { kind: ErrorKind::Alt, remaining: stream.len() }),
            }
        },
        Err(e) => {
            proof {
                if stream@.len() > 0 {
                    assert(words@[0] == PyToken::Ellipsis);
                    assert(words@[1] == PyToken::True);
                    assert(words@[2] == PyToken::False);
                    assert(words@[3] == PyToken::NoneLiteral);
                }
            }
            Err(e)
        },
    }
}

/// Reads an atom and leaves its span out.
pub fn atom_unspanned<'a>(stream: &'a [Token]) -> (result: Result<(&'a [Token], Atom), ParseError>)
    ensures
        match result {
            Ok((rest, atom)) => parsed_atom(stream@).is_some() && parsed_atom(stream@).unwrap().0.inner
                == atom && parsed_atom(stream@).unwrap().1 == stream@.len() - rest@.len() && rest@
                == stream@.subrange(stream@.len() - rest@.len(), stream@.len() as int),
            Err(e) => parsed_atom(stream@).is_none() && e.kind == ErrorKind::Alt && e.remaining
                == stream@.len(),
        },
{
    match atom(stream) {
        Ok((rest, spanned)) => Ok((rest, spanned.inner)),
        Err(e) => Err(e),
    }
}

} // verus!
