//! From the raw tokens of the lexer to the tokens of the parser.
//!
//! The lexer does not know string literals and comments: it reports their
//! first byte as an invalid token. Here the literal is found with a
//! regular expression, its text is interned, and the lexer is told how far
//! to skip. Identifiers are interned as well.

use crate::parser::token::PyToken;
use crate::parser::Token;
use crate::span::{Span, SpanInterner};
use vstd::prelude::*;
use vstd::slice::slice_subrange;

verus! {

/// Why the tokens of a source cannot be read.
#[derive(Clone, Copy, Debug, PartialEq, Eq, Structural)]
pub enum LexError {
    /// An invalid byte that starts neither a string nor a comment.
    NotALiteral,
    /// A string or a comment starts here and does not end.
    Unterminated,
    /// An invalid token of more than one byte.
    Invalid,
    /// The span of the token does not lie in the source.
    BadSpan,
}

/// Where the first match of the pattern lies in the haystack, as the
/// regular expression engine finds it; `None` if there is no match or the
/// pattern is not a regular expression.
pub uninterp spec fn regex_match(pattern: Seq<char>, haystack: Seq<u8>) -> Option<(usize, usize)>;

/// `regex::bytes::Regex::new` followed by `Regex::find`: the byte offsets
/// of the leftmost match of `pattern` in `haystack`. The start of a match
/// is never after its end, and the end is within the haystack.
#[verifier::external_body]
fn regex_find(pattern: &str, haystack: &[u8]) -> (found: Option<(usize, usize)>)
    ensures
        found == regex_match(pattern@, haystack@),
        found.is_some() ==> found.unwrap().0 <= found.unwrap().1 <= haystack@.len(),
{
    let compiled = regex::bytes::Regex::new(pattern).ok()?;
    compiled.find(haystack).map(|m| (m.start(), m.end()))
}

/// What kind of literal was found.
#[derive(Clone, Copy, Debug, PartialEq, Eq, Structural)]
pub enum LiteralKind {
    String,
    Comment,
}

/// A literal in the source: its kind, the place after its last byte, and
/// the number of bytes that it took, which is at least one.
#[derive(Clone, Copy, Debug, PartialEq, Eq, Structural)]
pub struct Scanned {
    pub kind: LiteralKind,
    pub end: usize,
    pub length: usize,
}

/// A match, unless it is empty.
pub open spec fn nonempty(found: Option<(usize, usize)>) -> Option<(usize, usize)> {
    match found {
        Some((s, e)) => if s < e {
            found
        } else {
            None
        },
        None => None,
    }
}

/// The first string literal in `rest`: triple double quotes are tried
/// first, then triple single quotes, then single and double quotes.
pub open spec fn string_match(rest: Seq<u8>) -> Option<(usize, usize)> {
    if nonempty(regex_match("r?\"\"\"[^\"]*\"\"\""@, rest)).is_some() {
        regex_match("r?\"\"\"[^\"]*\"\"\""@, rest)
    } else if nonempty(regex_match("r?'''[^']*'''"@, rest)).is_some() {
        regex_match("r?'''[^']*'''"@, rest)
    } else if nonempty(regex_match("r?'[^\"]*'"@, rest)).is_some() {
        regex_match("r?'[^\"]*'"@, rest)
    } else {
        nonempty(regex_match("r?\"[^\"]*\""@, rest))
    }
}

/// The literal that starts at `start`: a string if a quote or an `r`
/// stands there, a comment if a `#` stands there. The literal reaches from
/// `start` to the end of the match.
pub open spec fn scanned(source: Seq<u8>, start: usize) -> Result<Scanned, LexError> {
    if start >= source.len() {
        Err(LexError::BadSpan)
    } else {
        let rest = source.subrange(start as int, source.len() as int);
        let first = source[start as int];
        if first == 39u8 || first == 34u8 || first == 114u8 {
            match string_match(rest) {
                Some((s, e)) => Ok(
                    Scanned {
                        kind: LiteralKind::String,
                        end: (start + e) as usize,
                        length: (e - s) as usize,
                    },
                ),
                None => Err(LexError::Unterminated),
            }
        } else if first == 35u8 {
            match nonempty(regex_match("^#[^\\n]*"@, rest)) {
                Some((s, e)) => Ok(
                    Scanned {
                        kind: LiteralKind::Comment,
                        end: (start + e) as usize,
                        length: (e - s) as usize,
                    },
                ),
                None => Err(LexError::Unterminated),
            }
        } else {
            Err(LexError::NotALiteral)
        }
    }
}

fn find_nonempty(pattern: &str, haystack: &[u8]) -> (found: Option<(usize, usize)>)
    ensures
        found == nonempty(regex_match(pattern@, haystack@)),
        found.is_some() ==> found.unwrap().0 < found.unwrap().1 <= haystack@.len(),
{
    match regex_find(pattern, haystack) {
        Some((s, e)) => if s < e {
            Some((s, e))
        } else {
            None
        },
        None => None,
    }
}

/// Finds the string literal or the comment that starts at `start`.
pub fn scan_literal(source: &[u8], start: usize) -> (result: Result<Scanned, LexError>)
    ensures
        result == scanned(source@, start),
        result.is_ok() ==> start < result.unwrap().end <= source@.len() && 0
            < result.unwrap().length <= source@.len() - start,
{
    if start >= source.len() {
        return Err(LexError::BadSpan);
    }
    let rest = slice_subrange(source, start, source.len());
    let first = source[start];
    if first == 39u8 || first == 34u8 || first == 114u8 {
        let found = match find_nonempty("r?\"\"\"[^\"]*\"\"\"", rest) {
            Some(f) => Some(f),
            None => match find_nonempty("r?'''[^']*'''", rest) {
                Some(f) => Some(f),
                None => match find_nonempty("r?'[^\"]*'", rest) {
                    Some(f) => Some(f),
                    None => find_nonempty("r?\"[^\"]*\"", rest),
                },
            },
        };
        match found {
            Some((s, e)) => Ok(Scanned { kind: LiteralKind::String, end: start + e, length: e - s }),
            None => Err(LexError::Unterminated),
        }
    } else if first == 35u8 {
        match find_nonempty("^#[^\\n]*", rest) {
            Some((s, e)) => Ok(Scanned { kind: LiteralKind::Comment, end: start + e, length: e - s }),
            None => Err(LexError::Unterminated),
        }
    } else {
        Err(LexError::NotALiteral)
    }
}

/// A token of the parser, and how many bytes the lexer has to skip before
/// it reads on.
#[derive(Clone, Copy, Debug, PartialEq, Eq, Structural)]
pub struct Refined {
    pub token: Token,
    pub skip: usize,
}

/// Turns a raw token into a token of the parser.
///
/// A raw identifier is interned. An invalid token of one byte must start a
/// string or a comment: the literal is interned with the span that
/// [`scanned`] gives, and the lexer skips the rest of the literal. Every
/// other token stays as it is.
pub fn refine(raw: Token, source: &[u8], interner: &mut SpanInterner) -> (result: Result<
    Refined,
    LexError,
>)
    requires
        old(interner).wf(),
    ensures
        final(interner).wf(),
        !(raw.span.start <= raw.span.end <= source@.len()) ==> result == Err::<Refined, LexError>(
            LexError::BadSpan,
        ) && *final(interner) == *old(interner),
        raw.span.start <= raw.span.end <= source@.len() ==> match raw.token {
            PyToken::RawIdent => {
                &&& result.is_ok()
                &&& result.unwrap().skip == 0
                &&& result.unwrap().token.span == raw.span
                &&& result.unwrap().token.token matches PyToken::Ident(name) && final(interner).knows(name) && final(interner).text_of(name) == source@.subrange(
                    raw.span.start as int,
                    raw.span.end as int,
                )
            },
            PyToken::Invalid => if raw.span.end - raw.span.start != 1 {
                result == Err::<Refined, LexError>(LexError::Invalid)
            } else {
                match scanned(source@, raw.span.start) {
                    Err(e) => result == Err::<Refined, LexError>(e),
                    Ok(literal) => {
                        let span = Span { start: raw.span.start, end: literal.end };
                        &&& result.is_ok()
                        &&& result.unwrap().skip == literal.length - 1
                        &&& result.unwrap().token.span == span
                        &&& match result.unwrap().token.token {
                            PyToken::StringRef(n) => literal.kind == LiteralKind::String && final(interner).knows(n) && final(interner).text_of(n) == source@.subrange(
                                span.start as int,
                                span.end as int,
                            ),
                            PyToken::CommentRef(n) => literal.kind == LiteralKind::Comment
                                && final(interner).knows(n) && final(interner).text_of(n)
                                == source@.subrange(span.start as int, span.end as int),
                            _ => false,
                        }
                    },
                }
            },
            other => result == Ok::<Refined, LexError>(Refined { token: raw, skip: 0 })
                && *final(interner) == *old(interner),
        },
{
    if !(raw.span.start <= raw.span.end && raw.span.end <= source.len()) {
        return Err(LexError::BadSpan);
    }
    match raw.token {
        PyToken::RawIdent => {
            let text = slice_subrange(source, raw.span.start, raw.span.end);
            let name = interner.intern(text, raw.span);
            Ok(Refined { token: Token { token: PyToken::Ident(name), span: raw.span }, skip: 0 })
        },
        PyToken::Invalid => {
            if raw.span.end - raw.span.start != 1 {
                return Err(LexError::Invalid);
            }
            let literal = match scan_literal(source, raw.span.start) {
                Ok(l) => l,
                Err(e) => {
                    return Err(e);
                },
            };
            let span = Span { start: raw.span.start, end: literal.end };
            let text = slice_subrange(source, span.start, span.end);
            let name = interner.intern(text, span);
            let token = match literal.kind {
                LiteralKind::Comment => PyToken::CommentRef(name),
                LiteralKind::String => PyToken::StringRef(name),
            };
            Ok(Refined { token: Token { token, span }, skip: literal.length - 1 })
        },
        _ => Ok(Refined { token: raw, skip: 0 }),
    }
}

} // verus!
