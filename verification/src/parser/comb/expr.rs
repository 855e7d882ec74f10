//! The parser of expressions.
//!
//! The grammar, with optional blanks between the tokens:
//!
//! ```text
//! expression := comparison [ "if" comparison "else" expression ]
//! comparison := sum { ("==" | "!=") sum }
//! sum        := term { ("+" | "-") term }
//! term       := primary { ("*" | "/" | "%") primary }
//! primary    := unit { "(" [ list ] ")" | "." name }
//! unit       := atom | string | "(" ")" | "(" expression ")" | "(" list ")"
//! list       := expression { "," expression } [ "," ]
//! ```
//!
//! Operators of one level group to the left. A parser is given the tokens
//! and the place at which it starts, and gives back the tree that it has
//! read and the place after it.

use crate::ast::{Atom, InfixOp, Spanned};
use crate::parser::comb::atom::{atom, parsed_atom};
use crate::parser::comb::basic::{ErrorKind, ParseError};
use crate::parser::token::PyToken;
use crate::parser::tree::{Forest, Kind, Tree};
use crate::parser::Token;
use crate::span::Span;
use vstd::prelude::*;
use vstd::slice::slice_subrange;

verus! {

/// The place after the blanks that start at `at`.
pub open spec fn after_blanks(stream: Seq<Token>, at: int) -> int
    decreases stream.len() - at,
{
    if at < 0 || at >= stream.len() || stream[at].token != PyToken::Whitespace {
        at
    } else {
        after_blanks(stream, at + 1)
    }
}

/// The blanks end at or after the place where they start, and within the
/// stream.
pub proof fn lemma_after_blanks(stream: Seq<Token>, at: int)
    requires
        0 <= at <= stream.len(),
    ensures
        at <= after_blanks(stream, at) <= stream.len(),
        after_blanks(stream, at) < stream.len() ==> stream[after_blanks(stream, at)].token
            != PyToken::Whitespace,
    decreases stream.len() - at,
{
    if at < stream.len() && stream[at].token == PyToken::Whitespace {
        lemma_after_blanks(stream, at + 1);
    }
}

/// Skips the blanks that start at `at`.
pub fn skip_blanks(stream: &[Token], at: usize) -> (next: usize)
    requires
        at <= stream@.len(),
    ensures
        next == after_blanks(stream@, at as int),
        at <= next <= stream@.len(),
        stream@.len() <= usize::MAX,
{
    let mut i = at;
    while i < stream.len() && stream[i].token == PyToken::Whitespace
        invariant
            at <= i <= stream@.len(),
            after_blanks(stream@, at as int) == after_blanks(stream@, i as int),
        decreases stream@.len() - i,
    {
        i += 1;
    }
    i
}

/// Whether the token `token` stands at the place `at`.
pub open spec fn has(stream: Seq<Token>, at: int, token: PyToken) -> bool {
    0 <= at < stream.len() && stream[at].token == token
}

/// Whether the token `token` stands at the place `at`.
pub fn at_token(stream: &[Token], at: usize, token: PyToken) -> (there: bool)
    ensures
        there == has(stream@, at as int, token),
        stream@.len() <= usize::MAX,
{
    at < stream.len() && stream[at].token == token
}

/// The tree of an atom.
pub open spec fn leaf(atom: Spanned<Atom>) -> Option<Tree> {
    match atom.inner {
        Atom::NoneLiteral => Some(Tree { span: atom.span, kind: Kind::NoneLiteral }),
        Atom::Ellipsis => Some(Tree { span: atom.span, kind: Kind::Ellipsis }),
        Atom::Int(n) => Some(Tree { span: atom.span, kind: Kind::Int(n) }),
        Atom::Str(s) => Some(Tree { span: atom.span, kind: Kind::Str(s) }),
        Atom::Bool(b) => Some(Tree { span: atom.span, kind: Kind::Bool(b) }),
        Atom::Float(f) => Some(Tree { span: atom.span, kind: Kind::Float(f) }),
        Atom::Comment(c) => Some(Tree { span: atom.span, kind: Kind::Comment(c) }),
        Atom::Name(n) => Some(Tree { span: atom.span, kind: Kind::Name(n) }),
        Atom::Tuple(_) => None,
    }
}

/// The operator that a token stands for at the given level of the grammar:
/// 2 for products, 3 for sums, 4 for comparisons.
pub open spec fn operator_at(token: PyToken, level: int) -> Option<InfixOp> {
    if level == 2 {
        match token {
            PyToken::Star => Some(InfixOp::Mult),
            PyToken::Slash => Some(InfixOp::Div),
            PyToken::Percent => Some(InfixOp::Mod),
            _ => None,
        }
    } else if level == 3 {
        match token {
            PyToken::Plus => Some(InfixOp::Add),
            PyToken::Minus => Some(InfixOp::Sub),
            _ => None,
        }
    } else if level == 4 {
        match token {
            PyToken::DoubleEqual => Some(InfixOp::Eq),
            PyToken::NotEqual => Some(InfixOp::NotEq),
            _ => None,
        }
    } else {
        None
    }
}

/// The tree that joins two operands.
pub open spec fn joined(left: Tree, op: InfixOp, right: Tree) -> Tree {
    Tree {
        span: Span { start: left.span.start, end: right.span.end },
        kind: Kind::BinOp { left: Box::new(left), op, right: Box::new(right) },
    }
}

/// Whether a parser that started at `from` has read on to `to`: it has
/// taken at least one token and has not left the stream.
pub open spec fn advanced(stream: Seq<Token>, from: int, to: int) -> bool {
    from < to <= stream.len()
}

/// What the parser of the given level reads at the place `at`: the tree
/// and the place after it. The levels are 0 for a unit, 1 for a primary,
/// 2 to 4 for the operators, 5 for an expression.
pub open spec fn parsed(stream: Seq<Token>, at: int, level: int) -> Option<(Tree, int)>
    decreases stream.len() - at, level, 0int,
{
    if at < 0 || at >= stream.len() || level < 0 || level > 5 {
        None
    } else if level == 0 {
        match stream[at].token {
            PyToken::StringRef(s) => Some((Tree { span: stream[at].span, kind: Kind::Str(s) }, at + 1)),
            PyToken::LParen => {
                proof {
                    lemma_after_blanks(stream, at + 1);
                }
                let inner = after_blanks(stream, at + 1);
                if has(stream, inner, PyToken::RParen) {
                    Some(
                        (
                            Tree {
                                span: Span {
                                    start: stream[at].span.start,
                                    end: stream[inner].span.end,
                                },
                                kind: Kind::Tuple(Forest::Nil),
                            },
                            inner + 1,
                        ),
                    )
                } else {
                    match parsed(stream, inner, 5) {
                        None => None,
                        Some((first, next)) => if !advanced(stream, inner, next) {
                            None
                        } else {
                            proof {
                                lemma_after_blanks(stream, next);
                            }
                            let close = after_blanks(stream, next);
                            if has(stream, close, PyToken::RParen) {
                                Some((first, close + 1))
                            } else if has(stream, close, PyToken::Comma) {
                                proof {
                                    lemma_after_blanks(stream, close + 1);
                                }
                                let more = after_blanks(stream, close + 1);
                                if has(stream, more, PyToken::RParen) {
                                    Some(
                                        (
                                            Tree {
                                                span: Span {
                                                    start: stream[at].span.start,
                                                    end: stream[more].span.end,
                                                },
                                                kind: Kind::Tuple(
                                                    Forest::Cons(
                                                        Box::new(first),
                                                        Box::new(Forest::Nil),
                                                    ),
                                                ),
                                            },
                                            more + 1,
                                        ),
                                    )
                                } else {
                                    match parsed_list(stream, more) {
                                        None => None,
                                        Some((rest, end)) => if has(stream, end, PyToken::RParen) {
                                            Some(
                                                (
                                                    Tree {
                                                        span: Span {
                                                            start: stream[at].span.start,
                                                            end: stream[end].span.end,
                                                        },
                                                        kind: Kind::Tuple(
                                                            Forest::Cons(
                                                                Box::new(first),
                                                                Box::new(rest),
                                                            ),
                                                        ),
                                                    },
                                                    end + 1,
                                                ),
                                            )
                                        } else {
                                            None
                                        },
                                    }
                                }
                            } else {
                                None
                            }
                        },
                    }
                }
            },
            _ => match parsed_atom(stream.subrange(at, stream.len() as int)) {
                Some((atom, taken)) => match leaf(atom) {
                    Some(tree) => Some((tree, at + taken)),
                    None => None,
                },
                None => None,
            },
        }
    } else if level == 1 {
        match parsed(stream, at, 0) {
            Some((unit, next)) => if advanced(stream, at, next) {
                parsed_trailers(stream, next, unit)
            } else {
                None
            },
            None => None,
        }
    } else if level <= 4 {
        match parsed(stream, at, level - 1) {
            Some((left, next)) => if advanced(stream, at, next) {
                parsed_operators(stream, next, left, level)
            } else {
                None
            },
            None => None,
        }
    } else {
        match parsed(stream, at, 4) {
            None => None,
            Some((body, next)) => if !advanced(stream, at, next) {
                None
            } else {
                proof {
                    lemma_after_blanks(stream, next);
                }
                let keyword = after_blanks(stream, next);
                if has(stream, keyword, PyToken::If) {
                    proof {
                        lemma_after_blanks(stream, keyword + 1);
                    }
                    let start = after_blanks(stream, keyword + 1);
                    match parsed(stream, start, 4) {
                        None => None,
                        Some((test, after_test)) => if !advanced(stream, start, after_test) {
                            None
                        } else {
                            proof {
                                lemma_after_blanks(stream, after_test);
                            }
                            let other = after_blanks(stream, after_test);
                            if has(stream, other, PyToken::Else) {
                                proof {
                                    lemma_after_blanks(stream, other + 1);
                                }
                                match parsed(stream, after_blanks(stream, other + 1), 5) {
                                    None => None,
                                    Some((orelse, end)) => Some(
                                        (
                                            Tree {
                                                span: Span {
                                                    start: body.span.start,
                                                    end: orelse.span.end,
                                                },
                                                kind: Kind::IfExpr {
                                                    test: Box::new(test),
                                                    body: Box::new(body),
                                                    orelse: Box::new(orelse),
                                                },
                                            },
                                            end,
                                        ),
                                    ),
                                }
                            } else {
                                None
                            }
                        },
                    }
                } else {
                    Some((body, next))
                }
            },
        }
    }
}

/// The calls and attribute accesses that follow a unit.
pub open spec fn parsed_trailers(stream: Seq<Token>, at: int, unit: Tree) -> Option<(Tree, int)>
    decreases stream.len() - at, 0int, 1int,
{
    if has(stream, at, PyToken::LParen) {
        proof {
            lemma_after_blanks(stream, at + 1);
        }
        let inner = after_blanks(stream, at + 1);
        if has(stream, inner, PyToken::RParen) {
            parsed_trailers(
                stream,
                inner + 1,
                Tree {
                    span: Span { start: unit.span.start, end: stream[inner].span.end },
                    kind: Kind::Call { func: Box::new(unit), args: Forest::Nil },
                },
            )
        } else {
            match parsed_list(stream, inner) {
                Some((args, end)) => if has(stream, end, PyToken::RParen) && end > at {
                    parsed_trailers(
                        stream,
                        end + 1,
                        Tree {
                            span: Span { start: unit.span.start, end: stream[end].span.end },
                            kind: Kind::Call { func: Box::new(unit), args },
                        },
                    )
                } else {
                    None
                },
                None => None,
            }
        }
    } else if has(stream, at, PyToken::Dot) && at + 1 < stream.len() && stream[at + 1].token
        is Ident {
        parsed_trailers(
            stream,
            at + 2,
            Tree {
                span: Span { start: unit.span.start, end: stream[at + 1].span.end },
                kind: Kind::Attr { left: Box::new(unit), attr: stream[at + 1].token->Ident_0 },
            },
        )
    } else {
        Some((unit, at))
    }
}

/// The operators of the given level, and their right operands, that follow
/// a left operand.
pub open spec fn parsed_operators(stream: Seq<Token>, at: int, left: Tree, level: int) -> Option<
    (Tree, int),
>
    decreases stream.len() - at, 0int, 1int,
{
    if at < 0 || at > stream.len() || level < 2 || level > 4 {
        Some((left, at))
    } else {
        proof {
            lemma_after_blanks(stream, at);
        }
        let place = after_blanks(stream, at);
        if place < stream.len() && operator_at(stream[place].token, level).is_some() {
            proof {
                lemma_after_blanks(stream, place + 1);
            }
            let start = after_blanks(stream, place + 1);
            match parsed(stream, start, level - 1) {
                Some((right, next)) => if advanced(stream, start, next) {
                    parsed_operators(
                        stream,
                        next,
                        joined(left, operator_at(stream[place].token, level).unwrap(), right),
                        level,
                    )
                } else {
                    None
                },
                None => None,
            }
        } else {
            Some((left, at))
        }
    }
}

/// A list of expressions separated by commas, with the blanks after it; a
/// comma may follow the last expression.
pub open spec fn parsed_list(stream: Seq<Token>, at: int) -> Option<(Forest, int)>
    decreases stream.len() - at, 6int, 0int,
{
    match parsed(stream, at, 5) {
        None => None,
        Some((first, next)) => if at < 0 || !advanced(stream, at, next) {
            None
        } else {
            proof {
                lemma_after_blanks(stream, next);
            }
            let comma = after_blanks(stream, next);
            if has(stream, comma, PyToken::Comma) {
                proof {
                    lemma_after_blanks(stream, comma + 1);
                }
                let more = after_blanks(stream, comma + 1);
                if more < stream.len() && stream[more].token != PyToken::RParen
                    && stream[more].token != PyToken::Newline && stream[more].token
                    != PyToken::Colon {
                    match parsed_list(stream, more) {
                        Some((rest, end)) => Some(
                            (Forest::Cons(Box::new(first), Box::new(rest)), end),
                        ),
                        None => None,
                    }
                } else {
                    Some((Forest::Cons(Box::new(first), Box::new(Forest::Nil)), more))
                }
            } else {
                Some((Forest::Cons(Box::new(first), Box::new(Forest::Nil)), comma))
            }
        },
    }
}

/// The failure of the given kind at the place `at`.
pub(crate) fn failed(stream: &[Token], at: usize, kind: ErrorKind) -> (error: ParseError)
    ensures
        error.kind == kind,
        error.remaining == if at <= stream@.len() {
            stream@.len() - at
        } else {
            0
        },
{
    let remaining = if at <= stream.len() {
        stream.len() - at
    } else {
        0
    };
    ParseError { kind, remaining }
}

fn operator_for(token: PyToken, level: u8) -> (op: Option<InfixOp>)
    ensures
        op == operator_at(token, level as int),
{
    if level == 2 {
        match token {
            PyToken::Star => Some(InfixOp::Mult),
            PyToken::Slash => Some(InfixOp::Div),
            PyToken::Percent => Some(InfixOp::Mod),
            _ => None,
        }
    } else if level == 3 {
        match token {
            PyToken::Plus => Some(InfixOp::Add),
            PyToken::Minus => Some(InfixOp::Sub),
            _ => None,
        }
    } else if level == 4 {
        match token {
            PyToken::DoubleEqual => Some(InfixOp::Eq),
            PyToken::NotEqual => Some(InfixOp::NotEq),
            _ => None,
        }
    } else {
        None
    }
}

fn leaf_tree(atom: Spanned<Atom>) -> (tree: Option<Tree>)
    ensures
        tree == leaf(atom),
{
    let span = atom.span;
    match atom.inner {
        Atom::NoneLiteral => Some(Tree { span, kind: Kind::NoneLiteral }),
        Atom::Ellipsis => Some(Tree { span, kind: Kind::Ellipsis }),
        Atom::Int(n) => Some(Tree { span, kind: Kind::Int(n) }),
        Atom::Str(s) => Some(Tree { span, kind: Kind::Str(s) }),
        Atom::Bool(b) => Some(Tree { span, kind: Kind::Bool(b) }),
        Atom::Float(f) => Some(Tree { span, kind: Kind::Float(f) }),
        Atom::Comment(c) => Some(Tree { span, kind: Kind::Comment(c) }),
        Atom::Name(n) => Some(Tree { span, kind: Kind::Name(n) }),
        Atom::Tuple(_) => None,
    }
}

/// Reads a unit: an atom, a string, or something in parentheses.
pub fn unit(stream: &[Token], at: usize) -> (result: Result<(usize, Tree), ParseError>)
    ensures
        match result {
            Ok((next, tree)) => parsed(stream@, at as int, 0) == Some((tree, next as int))
                && advanced(stream@, at as int, next as int),
            Err(_) => parsed(stream@, at as int, 0).is_none(),
        },
    decreases stream@.len() - at, 0int, 0int,
{
    if at >= stream.len() {
        return Err(failed(stream, at, ErrorKind::Eof));
    }
    match stream[at].token {
        PyToken::StringRef(s) => Ok((at + 1, Tree { span: stream[at].span, kind: Kind::Str(s) })),
        PyToken::LParen => {
            let start = stream[at].span.start;
            let inner = skip_blanks(stream, at + 1);
            if at_token(stream, inner, PyToken::RParen) {
                let span = Span { start, end: stream[inner].span.end };
                return Ok((inner + 1, Tree { span, kind: Kind::Tuple(Forest::Nil) }));
            }
            let (next, first) = match expression(stream, inner) {
                Ok(found) => found,
                Err(e) => {
                    return Err(e);
                },
            };
            let close = skip_blanks(stream, next);
            if at_token(stream, close, PyToken::RParen) {
                return Ok((close + 1, first));
            }
            if !at_token(stream, close, PyToken::Comma) {
                return Err(failed(stream, close, ErrorKind::IsNot));
            }
            let more = skip_blanks(stream, close + 1);
            if at_token(stream, more, PyToken::RParen) {
                let span = Span { start, end: stream[more].span.end };
                let elements = Forest::Cons(Box::new(first), Box::new(Forest::Nil));
                return Ok((more + 1, Tree { span, kind: Kind::Tuple(elements) }));
            }
            let (end, rest) = match list(stream, more) {
                Ok(found) => found,
                Err(e) => {
                    return Err(e);
                },
            };
            if !at_token(stream, end, PyToken::RParen) {
                return Err(failed(stream, end, ErrorKind::IsNot));
            }
            let span = Span { start, end: stream[end].span.end };
            let elements = Forest::Cons(Box::new(first), Box::new(rest));
            Ok((end + 1, Tree { span, kind: Kind::Tuple(elements) }))
        },
        _ => {
            let rest = slice_subrange(stream, at, stream.len());
            match atom(rest) {
                Ok((left, found)) => match leaf_tree(found) {
                    Some(tree) => Ok((stream.len() - left.len(), tree)),
                    None => Err(failed(stream, at, ErrorKind::Alt)),
                },
                Err(e) => Err(e),
            }
        },
    }
}

/// Reads a primary: a unit with the calls and attribute accesses that
/// follow it.
pub fn primary(stream: &[Token], at: usize) -> (result: Result<(usize, Tree), ParseError>)
    ensures
        match result {
            Ok((next, tree)) => parsed(stream@, at as int, 1) == Some((tree, next as int))
                && advanced(stream@, at as int, next as int),
            Err(_) => parsed(stream@, at as int, 1).is_none(),
        },
    decreases stream@.len() - at, 1int, 0int,
{
    match unit(stream, at) {
        Ok((next, tree)) => trailers(stream, next, tree),
        Err(e) => Err(e),
    }
}

/// Reads the calls and attribute accesses that follow the unit `unit`.
fn trailers(stream: &[Token], at: usize, unit: Tree) -> (result: Result<
    (usize, Tree),
    ParseError,
>)
    requires
        at <= stream@.len(),
    ensures
        match result {
            Ok((next, tree)) => parsed_trailers(stream@, at as int, unit) == Some(
                (tree, next as int),
            ) && at <= next <= stream@.len(),
            Err(_) => parsed_trailers(stream@, at as int, unit).is_none(),
        },
    decreases stream@.len() - at, 0int, 1int,
{
    if at_token(stream, at, PyToken::LParen) {
        let inner = skip_blanks(stream, at + 1);
        if at_token(stream, inner, PyToken::RParen) {
            let span = Span { start: unit.span.start, end: stream[inner].span.end };
            let call = Tree { span, kind: Kind::Call { func: Box::new(unit), args: Forest::Nil } };
            return trailers(stream, inner + 1, call);
        }
        let (end, args) = match list(stream, inner) {
            Ok(found) => found,
            Err(e) => {
                return Err(e);
            },
        };
        if !at_token(stream, end, PyToken::RParen) {
            return Err(failed(stream, end, ErrorKind::IsNot));
        }
        let span = Span { start: unit.span.start, end: stream[end].span.end };
        let call = Tree { span, kind: Kind::Call { func: Box::new(unit), args } };
        trailers(stream, end + 1, call)
    } else if at_token(stream, at, PyToken::Dot) && at + 1 < stream.len() {
        match stream[at + 1].token {
            PyToken::Ident(attr) => {
                let span = Span { start: unit.span.start, end: stream[at + 1].span.end };
                let access = Tree { span, kind: Kind::Attr { left: Box::new(unit), attr } };
                trailers(stream, at + 2, access)
            },
            _ => Ok((at, unit)),
        }
    } else {
        Ok((at, unit))
    }
}

/// Reads the operands and operators of the given level: 2 for products, 3
/// for sums, 4 for comparisons.
fn binary(stream: &[Token], at: usize, level: u8) -> (result: Result<(usize, Tree), ParseError>)
    requires
        2 <= level <= 4,
    ensures
        match result {
            Ok((next, tree)) => parsed(stream@, at as int, level as int) == Some(
                (tree, next as int),
            ) && advanced(stream@, at as int, next as int),
            Err(_) => parsed(stream@, at as int, level as int).is_none(),
        },
    decreases stream@.len() - at, level, 0int,
{
    let first = if level == 2 {
        primary(stream, at)
    } else {
        binary(stream, at, level - 1)
    };
    match first {
        Ok((next, left)) => operators(stream, next, left, level),
        Err(e) => Err(e),
    }
}

/// Reads the operators of the given level, and their right operands, that
/// follow the operand `left`.
fn operators(stream: &[Token], at: usize, left: Tree, level: u8) -> (result: Result<
    (usize, Tree),
    ParseError,
>)
    requires
        at <= stream@.len(),
        2 <= level <= 4,
    ensures
        match result {
            Ok((next, tree)) => parsed_operators(stream@, at as int, left, level as int) == Some(
                (tree, next as int),
            ) && at <= next <= stream@.len(),
            Err(_) => parsed_operators(stream@, at as int, left, level as int).is_none(),
        },
    decreases stream@.len() - at, 0int, 1int,
{
    let place = skip_blanks(stream, at);
    if place >= stream.len() {
        return Ok((at, left));
    }
    let op = match operator_for(stream[place].token, level) {
        Some(op) => op,
        None => {
            return Ok((at, left));
        },
    };
    let start = skip_blanks(stream, place + 1);
    let operand = if level == 2 {
        primary(stream, start)
    } else {
        binary(stream, start, level - 1)
    };
    match operand {
        Ok((next, right)) => {
            let span = Span { start: left.span.start, end: right.span.end };
            let both = Tree {
                span,
                kind: Kind::BinOp { left: Box::new(left), op, right: Box::new(right) },
            };
            operators(stream, next, both, level)
        },
        Err(e) => Err(e),
    }
}

/// Reads an expression.
pub fn expression(stream: &[Token], at: usize) -> (result: Result<(usize, Tree), ParseError>)
    ensures
        match result {
            Ok((next, tree)) => parsed(stream@, at as int, 5) == Some((tree, next as int))
                && advanced(stream@, at as int, next as int),
            Err(_) => parsed(stream@, at as int, 5).is_none(),
        },
    decreases stream@.len() - at, 5int, 0int,
{
    let (next, body) = match binary(stream, at, 4) {
        Ok(found) => found,
        Err(e) => {
            return Err(e);
        },
    };
    let keyword = skip_blanks(stream, next);
    if !at_token(stream, keyword, PyToken::If) {
        return Ok((next, body));
    }
    let start = skip_blanks(stream, keyword + 1);
    let (after_test, test) = match binary(stream, start, 4) {
        Ok(found) => found,
        Err(e) => {
            return Err(e);
        },
    };
    let other = skip_blanks(stream, after_test);
    if !at_token(stream, other, PyToken::Else) {
        return Err(failed(stream, other, ErrorKind::IsNot));
    }
    let last = skip_blanks(stream, other + 1);
    match expression(stream, last) {
        Ok((end, orelse)) => {
            let span = Span { start: body.span.start, end: orelse.span.end };
            Ok(
                (
                    end,
                    Tree {
                        span,
                        kind: Kind::IfExpr {
                            test: Box::new(test),
                            body: Box::new(body),
                            orelse: Box::new(orelse),
                        },
                    },
                ),
            )
        },
        Err(e) => Err(e),
    }
}

/// Reads a list of expressions separated by commas.
pub fn list(stream: &[Token], at: usize) -> (result: Result<(usize, Forest), ParseError>)
    ensures
        match result {
            Ok((next, forest)) => parsed_list(stream@, at as int) == Some((forest, next as int))
                && advanced(stream@, at as int, next as int),
            Err(_) => parsed_list(stream@, at as int).is_none(),
        },
    decreases stream@.len() - at, 6int, 0int,
{
    let (next, first) = match expression(stream, at) {
        Ok(found) => found,
        Err(e) => {
            return Err(e);
        },
    };
    let comma = skip_blanks(stream, next);
    if !at_token(stream, comma, PyToken::Comma) {
        return Ok((comma, Forest::Cons(Box::new(first), Box::new(Forest::Nil))));
    }
    let more = skip_blanks(stream, comma + 1);
    let goes_on = more < stream.len() && stream[more].token != PyToken::RParen
        && stream[more].token != PyToken::Newline && stream[more].token != PyToken::Colon;
    if !goes_on {
        return Ok((more, Forest::Cons(Box::new(first), Box::new(Forest::Nil))));
    }
    match list(stream, more) {
        Ok((end, rest)) => Ok((end, Forest::Cons(Box::new(first), Box::new(rest)))),
        Err(e) => Err(e),
    }
}

} // verus!
