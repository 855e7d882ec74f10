//! The basic parsers: one token, one of several tokens, runs of a token.

use crate::ast::Spanned;
use crate::parser::token::PyToken;
use crate::parser::Token;
use crate::span::Span;
use vstd::prelude::*;
use vstd::slice::slice_subrange;

verus! {

/// Why a parser could not read what it was asked for.
#[derive(Clone, Copy, Debug, PartialEq, Eq, Structural)]
pub enum ErrorKind {
    /// The next token is not the expected one.
    IsNot,
    /// No token is left.
    Eof,
    /// None of the alternatives fits.
    Alt,
    /// Not even one of the repeated token is there.
    Many1,
    /// Fewer of the repeated token are there than are needed.
    ManyMN,
}

/// A failed parse: why it failed, and how many tokens were left where it
/// failed.
#[derive(Clone, Copy, Debug, PartialEq, Eq, Structural)]
pub struct ParseError {
    pub kind: ErrorKind,
    pub remaining: usize,
}

/// The token as it is handed on by a parser.
pub open spec fn read(token: Token) -> Spanned<PyToken> {
    Spanned { span: token.span, inner: token.token }
}

/// How many of the first tokens of `stream`, from the place `from` on, are
/// the token `value`.
pub open spec fn leading(stream: Seq<Token>, value: PyToken, from: int) -> int
    decreases stream.len() - from,
{
    if from < 0 || from >= stream.len() || stream[from].token != value {
        0
    } else {
        1 + leading(stream, value, from + 1)
    }
}

/// The first `n` tokens as a parser hands them on.
pub open spec fn read_all(stream: Seq<Token>, n: int) -> Seq<Spanned<PyToken>> {
    Seq::new(n as nat, |i: int| read(stream[i]))
}

/// Reads the next token if `predicate` says so.
pub fn expect_with<'a, F>(stream: &'a [Token], predicate: F) -> (result: Result<
    (&'a [Token], Spanned<PyToken>),
    ParseError,
>) where F: Fn(&PyToken, &Span) -> bool
    requires
        forall|token: &PyToken, span: &Span| call_requires(predicate, (token, span)),
    ensures
        match result {
            Ok((rest, token)) => {
                &&& stream@.len() > 0
                &&& call_ensures(predicate, (&stream@[0].token, &stream@[0].span), true)
                &&& rest@ == stream@.subrange(1, stream@.len() as int)
                &&& token == read(stream@[0])
            },
            Err(e) => {
                &&& e.remaining == stream@.len()
                &&& if stream@.len() == 0 {
                    e.kind == ErrorKind::Eof
                } else {
                    e.kind == ErrorKind::IsNot && call_ensures(
                        predicate,
                        (&stream@[0].token, &stream@[0].span),
                        false,
                    )
                }
            },
        },
{
    if stream.len() == 0 {
        return Err(ParseError { kind: ErrorKind::Eof, remaining: 0 });
    }
    let first = &stream[0];
    if predicate(&first.token, &first.span) {
        let rest = slice_subrange(stream, 1, stream.len());
        Ok((rest, Spanned { span: first.span, inner: first.token }))
    } else {
        Err(ParseError { kind: ErrorKind::IsNot, remaining: stream.len() })
    }
}

/// Reads the token `value`.
pub fn expect<'a>(stream: &'a [Token], value: PyToken) -> (result: Result<
    (&'a [Token], Spanned<PyToken>),
    ParseError,
>)
    ensures
        match result {
            Ok((rest, token)) => {
                &&& stream@.len() > 0
                &&& stream@[0].token == value
                &&& rest@ == stream@.subrange(1, stream@.len() as int)
                &&& token == read(stream@[0])
            },
            Err(e) => {
                &&& e.remaining == stream@.len()
                &&& if stream@.len() == 0 {
                    e.kind == ErrorKind::Eof
                } else {
                    e.kind == ErrorKind::IsNot && stream@[0].token != value
                }
            },
        },
{
    if stream.len() == 0 {
        return Err(ParseError { kind: ErrorKind::Eof, remaining: 0 });
    }
    let first = &stream[0];
    if first.token == value {
        let rest = slice_subrange(stream, 1, stream.len());
        Ok((rest, Spanned { span: first.span, inner: first.token }))
    } else {
        Err(ParseError { kind: ErrorKind::IsNot, remaining: stream.len() })
    }
}

/// Reads the token `value`; the form of [`expect`] that takes the token
/// first.
pub fn expect_<'a>(value: PyToken, stream: &'a [Token]) -> (result: Result<
    (&'a [Token], Spanned<PyToken>),
    ParseError,
>)
    ensures
        match result {
            Ok((rest, token)) => {
                &&& stream@.len() > 0
                &&& stream@[0].token == value
                &&& rest@ == stream@.subrange(1, stream@.len() as int)
                &&& token == read(stream@[0])
            },
            Err(e) => {
                &&& e.remaining == stream@.len()
                &&& if stream@.len() == 0 {
                    e.kind == ErrorKind::Eof
                } else {
                    e.kind == ErrorKind::IsNot && stream@[0].token != value
                }
            },
        },
{
    expect(stream, value)
}

/// Reads the next token if it is one of `values`.
pub fn expect_any_of<'a>(values: &[PyToken], stream: &'a [Token]) -> (result: Result<
    (&'a [Token], Spanned<PyToken>),
    ParseError,
>)
    ensures
        match result {
            Ok((rest, token)) => {
                &&& stream@.len() > 0
                &&& values@.contains(stream@[0].token)
                &&& rest@ == stream@.subrange(1, stream@.len() as int)
                &&& token == read(stream@[0])
            },
            Err(e) => {
                &&& e.kind == ErrorKind::Alt
                &&& e.remaining == stream@.len()
                &&& stream@.len() == 0 || !values@.contains(stream@[0].token)
            },
        },
{
    let mut i: usize = 0;
    while i < values.len()
        invariant
            i <= values@.len(),
            stream@.len() == 0 || forall|k: int| 0 <= k < i ==> values@[k] != stream@[0].token,
        decreases values@.len() - i,
    {
        match expect(stream, values[i]) {
            Ok(found) => {
                return Ok(found);
            },
            Err(_) => {},
        }
        i += 1;
    }
    Err(ParseError { kind: ErrorKind::Alt, remaining: stream.len() })
}

/// Reads the next token if it is one of `values`.
pub fn expect_any_token<'a>(values: &[PyToken], stream: &'a [Token]) -> (result: Result<
    (&'a [Token], Spanned<PyToken>),
    ParseError,
>)
    ensures
        match result {
            Ok((rest, token)) => {
                &&& stream@.len() > 0
                &&& values@.contains(stream@[0].token)
                &&& rest@ == stream@.subrange(1, stream@.len() as int)
                &&& token == read(stream@[0])
            },
            Err(e) => {
                &&& e.kind == ErrorKind::Alt
                &&& e.remaining == stream@.len()
                &&& stream@.len() == 0 || !values@.contains(stream@[0].token)
            },
        },
{
    expect_any_of(values, stream)
}

/// How many tokens a run of `value` takes from the front of `stream`, for
/// the given `n`: every one of them for zero and one, at most one more than
/// `n` otherwise. `None` where fewer are there than are needed: one for
/// one, `n` for any larger `n`.
pub open spec fn run_length(stream: Seq<Token>, value: PyToken, n: usize) -> Option<int> {
    let there = leading(stream, value, 0);
    if n == 0 {
        Some(there)
    } else if there < n {
        None
    } else if n == 1 || there <= n {
        Some(there)
    } else {
        Some(n + 1)
    }
}

/// Reads a run of the token `value`: any number for `n = 0`, at least one
/// for `n = 1`, and for any larger `n` at least `n` and at most one more.
pub fn expect_many_n<'a>(n: usize, value: PyToken, stream: &'a [Token]) -> (result: Result<
    (&'a [Token], Vec<Spanned<PyToken>>),
    ParseError,
>)
    ensures
        match result {
            Ok((rest, tokens)) => {
                &&& run_length(stream@, value, n).is_some()
                &&& tokens@ == read_all(stream@, run_length(stream@, value, n).unwrap())
                &&& rest@ == stream@.subrange(tokens@.len() as int, stream@.len() as int)
                &&& tokens@.len() <= stream@.len()
            },
            Err(e) => {
                &&& run_length(stream@, value, n).is_none()
                &&& e.kind == if n == 1 {
                    ErrorKind::Many1
                } else {
                    ErrorKind::ManyMN
                }
                &&& e.remaining == stream@.len() - leading(stream@, value, 0)
            },
        },
{
    let most: usize = if n <= 1 || n == usize::MAX {
        usize::MAX
    } else {
        n + 1
    };
    let mut tokens: Vec<Spanned<PyToken>> = Vec::new();
    let mut i: usize = 0;
    while i < stream.len() && i < most && stream[i].token == value
        invariant
            i <= stream@.len(),
            i <= most,
            tokens@ == read_all(stream@, i as int),
            leading(stream@, value, 0) == i + leading(stream@, value, i as int),
        decreases stream@.len() - i,
    {
        tokens.push(Spanned { span: stream[i].span, inner: stream[i].token });
        i += 1;
        assert(tokens@ =~= read_all(stream@, i as int));
    }
    proof {
        lemma_leading_bounds(stream@, value, i as int);
        lemma_leading_bounds(stream@, value, 0);
    }
    if n > 0 && i < n {
        let kind = if n == 1 {
            ErrorKind::Many1
        } else {
            ErrorKind::ManyMN
        };
        return Err(ParseError { kind, remaining: stream.len() - i });
    }
    let rest = slice_subrange(stream, i, stream.len());
    Ok((rest, tokens))
}

/// What stands after a run of `wrapper`, the tokens `values` in order, and
/// another run of `wrapper`: how many tokens that takes, or `None` if the
/// tokens are not there.
pub open spec fn wrapped_length(stream: Seq<Token>, values: Seq<PyToken>, wrapper: PyToken) -> Option<
    int,
> {
    let before = leading(stream, wrapper, 0);
    if before + values.len() <= stream.len() && (forall|k: int|
        0 <= k < values.len() ==> stream[before + k].token == values[k]) {
        Some(before + values.len() + leading(stream, wrapper, before + values.len()))
    } else {
        None
    }
}

/// Reads the tokens `values` in order, with any number of `wrapper` before
/// and after them, and gives the tokens without the wrappers.
pub fn expect_wrapped_values<'a>(values: &[PyToken], wrapper: PyToken, stream: &'a [Token]) -> (result:
    Result<(&'a [Token], Vec<Spanned<PyToken>>), ParseError>)
    requires
        values@.len() > 0,
    ensures
        result.is_ok() <==> wrapped_length(stream@, values@, wrapper).is_some(),
        match result {
            Ok((rest, tokens)) => {
                let before = leading(stream@, wrapper, 0);
                &&& rest@ == stream@.subrange(
                    wrapped_length(stream@, values@, wrapper).unwrap(),
                    stream@.len() as int,
                )
                &&& tokens@ == Seq::new(values@.len(), |k: int| read(stream@[before + k]))
            },
            Err(e) => e.kind == ErrorKind::IsNot || e.kind == ErrorKind::Eof,
        },
{
    let (mut rest, skipped) = match expect_many_n(0, wrapper, stream) {
        Ok(found) => found,
        Err(e) => {
            return Err(e);
        },
    };
    proof {
        lemma_leading_bounds(stream@, wrapper, 0);
    }
    let before = skipped.len();
    let mut results: Vec<Spanned<PyToken>> = Vec::new();
    let mut i: usize = 0;
    while i < values.len()
        invariant
            i <= values@.len(),
            before == leading(stream@, wrapper, 0),
            before + i <= stream@.len(),
            rest@ == stream@.subrange(before + i, stream@.len() as int),
            results@ == Seq::new(i as nat, |k: int| read(stream@[before + k])),
            forall|k: int| 0 <= k < i ==> stream@[before + k].token == values@[k],
        decreases values@.len() - i,
    {
        match expect(rest, values[i]) {
            Ok((after, token)) => {
                assert(rest@[0] == stream@[before + i]);
                results.push(token);
                assert(after@ =~= stream@.subrange(before + i + 1, stream@.len() as int));
                rest = after;
                assert(results@ =~= Seq::new((i + 1) as nat, |k: int| read(stream@[before + k])));
            },
            Err(e) => {
                proof {
                    if rest@.len() > 0 {
                        assert(rest@[0] == stream@[before + i]);
                        assert(stream@[before + i].token != values@[i as int]);
                    }
                }
                return Err(e);
            },
        }
        i += 1;
    }
    let ghost middle = rest@;
    let (rest, tail) = match expect_many_n(0, wrapper, rest) {
        Ok(found) => found,
        Err(e) => {
            return Err(e);
        },
    };
    proof {
        lemma_leading_shift(stream@, wrapper, before + values@.len());
        lemma_leading_bounds(stream@, wrapper, before + values@.len());
        assert(tail@.len() == leading(middle, wrapper, 0));
        assert(rest@ =~= stream@.subrange(
            wrapped_length(stream@, values@, wrapper).unwrap(),
            stream@.len() as int,
        ));
    }
    Ok((rest, results))
}

/// A run is never longer than what is left of the stream.
pub proof fn lemma_leading_bounds(stream: Seq<Token>, value: PyToken, from: int)
    ensures
        0 <= leading(stream, value, from),
        0 <= from <= stream.len() ==> leading(stream, value, from) <= stream.len() - from,
    decreases stream.len() - from,
{
    if 0 <= from < stream.len() && stream[from].token == value {
        lemma_leading_bounds(stream, value, from + 1);
    }
}

/// A run counted in what is left of a stream is the run counted from that
/// place in the whole stream.
pub proof fn lemma_leading_shift(stream: Seq<Token>, value: PyToken, at: int)
    requires
        0 <= at <= stream.len(),
    ensures
        leading(stream.subrange(at, stream.len() as int), value, 0) == leading(stream, value, at),
{
    lemma_leading_shift_from(stream, value, at, 0);
}

proof fn lemma_leading_shift_from(stream: Seq<Token>, value: PyToken, at: int, k: int)
    requires
        0 <= at <= stream.len(),
        0 <= k,
    ensures
        leading(stream.subrange(at, stream.len() as int), value, k) == leading(
            stream,
            value,
            at + k,
        ),
    decreases stream.len() - at - k,
{
    let rest = stream.subrange(at, stream.len() as int);
    if k < rest.len() && rest[k].token == value {
        lemma_leading_shift_from(stream, value, at, k + 1);
    }
}

} // verus!
