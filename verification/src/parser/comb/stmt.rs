//! The parser of statements and of whole modules.
//!
//! The grammar, with optional blanks between the tokens of a line:
//!
//! ```text
//! module     := { line }
//! line       := line-break indent statement
//! line-break := { blanks [ comment ] newline }
//! statement  := { "@" primary line-break } (funcdef | classdef)
//!             | if | while | simple
//! simple     := "pass" | "return" [ expression ]
//!             | "import" list | "from" primary "import" list
//!             | name [ ":" expression ] "=" expression | expression
//! funcdef    := "def" name "(" [ receiver ] [ params ] ")"
//!               [ "->" expression ] ":" block
//! receiver   := name "," | name before ")"
//! params     := name ":" expression { "," name ":" expression }
//! classdef   := "class" name ":" block
//! if         := "if" expression ":" block [ else-part ]
//! else-part  := line-break ("elif" expression ":" block [ else-part ]
//!                           | "else" ":" block)
//! while      := "while" expression ":" block
//! block      := simple | line { line }
//! ```
//!
//! The lines of a block all start with the same number of blanks, which is
//! larger than that of the line which opens the block. Lines that hold
//! nothing, or only a comment, are passed over, and so is a comment behind
//! a statement. A parser is given
//! the number of blanks of the line on which its statement starts.

use crate::parser::comb::basic::{ErrorKind, ParseError};
use crate::parser::comb::expr::{
    advanced, after_blanks, at_token, expression, failed, has, lemma_after_blanks, list, parsed,
    parsed_list, primary, skip_blanks,
};
use crate::parser::token::PyToken;
use crate::parser::tree::{Forest, Kind, Params, Tree};
use crate::parser::Token;
use crate::span::{Span, SpanRef};
use vstd::prelude::*;

verus! {

/// Whether a line ends at the place `at`: with a line break, a comment or
/// the end of the stream.
pub open spec fn line_ends(stream: Seq<Token>, at: int) -> bool {
    at < 0 || at >= stream.len() || stream[at].token == PyToken::Newline
        || stream[at].token is CommentRef
}

/// The place behind the blanks at `at` and the comment that may follow
/// them.
pub open spec fn after_remark(stream: Seq<Token>, at: int) -> int {
    let blank = after_blanks(stream, at);
    if 0 <= blank < stream.len() && stream[blank].token is CommentRef {
        blank + 1
    } else {
        blank
    }
}

/// The place after the line breaks that start at `at`: the start of the
/// next line that holds something, or the end of the stream. Where
/// something other than a comment still stands on the line of `at`, that
/// is `at` itself.
pub open spec fn after_breaks(stream: Seq<Token>, at: int) -> int
    decreases stream.len() - at,
{
    if at < 0 || at >= stream.len() {
        at
    } else {
        proof {
            lemma_after_blanks(stream, at);
        }
        let end = after_remark(stream, at);
        if end >= stream.len() {
            stream.len() as int
        } else if stream[end].token == PyToken::Newline {
            after_breaks(stream, end + 1)
        } else {
            at
        }
    }
}

/// The line breaks end at or after the place where they start, and within
/// the stream.
pub proof fn lemma_after_breaks(stream: Seq<Token>, at: int)
    requires
        0 <= at <= stream.len(),
    ensures
        at <= after_breaks(stream, at) <= stream.len(),
    decreases stream.len() - at,
{
    if at < stream.len() {
        lemma_after_blanks(stream, at);
        let end = after_remark(stream, at);
        if end < stream.len() && stream[end].token == PyToken::Newline {
            lemma_after_breaks(stream, end + 1);
        }
    }
}

/// The span from the start of the token at `from` to the end of the token
/// before `to`.
pub open spec fn covering(stream: Seq<Token>, from: int, to: int) -> Span {
    Span { start: stream[from].span.start, end: stream[to - 1].span.end }
}

/// Where the statement of the next line starts, if the next line is
/// indented by exactly `indent` blanks and holds something: the place of
/// its first token.
pub open spec fn next_line(stream: Seq<Token>, at: int, indent: int) -> Option<int> {
    if at < 0 || at > stream.len() {
        None
    } else {
        let line = after_breaks(stream, at);
        let start = after_blanks(stream, line);
        if line > at && start - line == indent && start < stream.len() {
            Some(start)
        } else {
            None
        }
    }
}

/// A line that follows lies after the place from which it was looked for,
/// and within the stream.
pub proof fn lemma_next_line(stream: Seq<Token>, at: int, indent: int)
    ensures
        next_line(stream, at, indent).is_some() ==> at < next_line(stream, at, indent).unwrap()
            < stream.len(),
{
    if 0 <= at <= stream.len() {
        lemma_after_breaks(stream, at);
        lemma_after_blanks(stream, after_breaks(stream, at));
    }
}

/// Whether `error` is what a parser reports that finds no token, or
/// another token than `keyword`, at the place `at`: the end of the stream
/// in the first case; in the second that the token is not the one, and as
/// tokens left all from `at` on, for nothing was read.
pub open spec fn refused_at(stream: Seq<Token>, at: int, keyword: PyToken, error: ParseError) -> bool {
    if at >= stream.len() {
        error == (ParseError { kind: ErrorKind::Eof, remaining: 0 })
    } else if stream[at].token != keyword {
        error == (ParseError { kind: ErrorKind::IsNot, remaining: (stream.len() - at) as usize })
    } else {
        true
    }
}

/// What a simple statement reads at the place `at`.
pub open spec fn parsed_simple(stream: Seq<Token>, at: int) -> Option<(Tree, int)> {
    if at < 0 || at >= stream.len() {
        None
    } else {
        let start = stream[at].span.start;
        match stream[at].token {
            PyToken::Pass => Some((Tree { span: stream[at].span, kind: Kind::Pass }, at + 1)),
            PyToken::Return => {
                let value = after_blanks(stream, at + 1);
                if value > at + 1 && !line_ends(stream, value) {
                    match parsed(stream, value, 5) {
                        Some((v, next)) => Some(
                            (
                                Tree {
                                    span: Span { start, end: v.span.end },
                                    kind: Kind::Ret(Some(Box::new(v))),
                                },
                                next,
                            ),
                        ),
                        None => None,
                    }
                } else {
                    Some((Tree { span: stream[at].span, kind: Kind::Ret(None) }, at + 1))
                }
            },
            PyToken::Import => match parsed_list(stream, after_blanks(stream, at + 1)) {
                Some((names, next)) => if advanced(stream, at, next) {
                    Some(
                        (
                            Tree {
                                span: covering(stream, at, next),
                                kind: Kind::Import { module: None, names },
                            },
                            next,
                        ),
                    )
                } else {
                    None
                },
                None => None,
            },
            PyToken::From => match parsed(stream, after_blanks(stream, at + 1), 1) {
                Some((module, after_module)) => {
                    let keyword = after_blanks(stream, after_module);
                    if has(stream, keyword, PyToken::Import) {
                        match parsed_list(stream, after_blanks(stream, keyword + 1)) {
                            Some((names, next)) => if advanced(stream, at, next) {
                                Some(
                                    (
                                        Tree {
                                            span: covering(stream, at, next),
                                            kind: Kind::Import {
                                                module: Some(Box::new(module)),
                                                names,
                                            },
                                        },
                                        next,
                                    ),
                                )
                            } else {
                                None
                            },
                            None => None,
                        }
                    } else {
                        None
                    }
                },
                None => None,
            },
            PyToken::Ident(name) => {
                let mark = after_blanks(stream, at + 1);
                if has(stream, mark, PyToken::Colon) {
                    match parsed(stream, after_blanks(stream, mark + 1), 5) {
                        Some((kind, after_kind)) => {
                            let equal = after_blanks(stream, after_kind);
                            if has(stream, equal, PyToken::Equal) {
                                match parsed(stream, after_blanks(stream, equal + 1), 5) {
                                    Some((value, next)) => Some(
                                        (
                                            Tree {
                                                span: Span { start, end: value.span.end },
                                                kind: Kind::Assign {
                                                    name,
                                                    kind: Some(Box::new(kind)),
                                                    value: Box::new(value),
                                                },
                                            },
                                            next,
                                        ),
                                    ),
                                    None => None,
                                }
                            } else {
                                None
                            }
                        },
                        None => None,
                    }
                } else if has(stream, mark, PyToken::Equal) {
                    match parsed(stream, after_blanks(stream, mark + 1), 5) {
                        Some((value, next)) => Some(
                            (
                                Tree {
                                    span: Span { start, end: value.span.end },
                                    kind: Kind::Assign { name, kind: None, value: Box::new(value) },
                                },
                                next,
                            ),
                        ),
                        None => None,
                    }
                } else {
                    parsed(stream, at, 5)
                }
            },
            _ => parsed(stream, at, 5),
        }
    }
}

/// The parameters of a function, from the place `at` on.
pub open spec fn parsed_params(stream: Seq<Token>, at: int) -> Option<(Params, int)>
    decreases stream.len() - at,
{
    if at < 0 || at >= stream.len() {
        Some((Params::Nil, at))
    } else {
        match stream[at].token {
            PyToken::Ident(name) => {
                let colon = after_blanks(stream, at + 1);
                if has(stream, colon, PyToken::Colon) {
                    match parsed(stream, after_blanks(stream, colon + 1), 5) {
                        Some((kind, next)) => if !advanced(stream, at, next) {
                            None
                        } else {
                            proof {
                                lemma_after_blanks(stream, next);
                            }
                            let comma = after_blanks(stream, next);
                            if has(stream, comma, PyToken::Comma) {
                                proof {
                                    lemma_after_blanks(stream, comma + 1);
                                }
                                match parsed_params(stream, after_blanks(stream, comma + 1)) {
                                    Some((rest, end)) => Some(
                                        (
                                            Params::Cons(name, Box::new(kind), Box::new(rest)),
                                            end,
                                        ),
                                    ),
                                    None => None,
                                }
                            } else {
                                Some(
                                    (
                                        Params::Cons(name, Box::new(kind), Box::new(Params::Nil)),
                                        comma,
                                    ),
                                )
                            }
                        },
                        None => None,
                    }
                } else {
                    None
                }
            },
            _ => Some((Params::Nil, at)),
        }
    }
}

/// The receiver of a function, if its parameters start with one at the
/// place `at`, and the place at which the other parameters start. A
/// receiver is a first parameter without an annotation.
pub open spec fn parsed_receiver(stream: Seq<Token>, at: int) -> (Option<SpanRef>, int) {
    if 0 <= at < stream.len() && stream[at].token is Ident {
        let mark = after_blanks(stream, at + 1);
        if has(stream, mark, PyToken::Comma) {
            (Some(stream[at].token->Ident_0), after_blanks(stream, mark + 1))
        } else if has(stream, mark, PyToken::RParen) {
            (Some(stream[at].token->Ident_0), mark)
        } else {
            (None, at)
        }
    } else {
        (None, at)
    }
}

/// The decorators that stand on the lines before a definition, and the
/// place at which the definition starts.
pub open spec fn parsed_decorators(stream: Seq<Token>, at: int, indent: int) -> Option<
    (Forest, int),
>
    decreases stream.len() - at,
{
    if has(stream, at, PyToken::At) {
        match parsed(stream, at + 1, 1) {
            Some((decorator, next)) => if !advanced(stream, at, next) {
                None
            } else {
                proof {
                    lemma_next_line(stream, next, indent);
                }
                match next_line(stream, next, indent) {
                    Some(start) => match parsed_decorators(stream, start, indent) {
                        Some((rest, end)) => Some(
                            (Forest::Cons(Box::new(decorator), Box::new(rest)), end),
                        ),
                        None => None,
                    },
                    None => None,
                }
            },
            None => None,
        }
    } else {
        Some((Forest::Nil, at))
    }
}

/// What a statement reads at the place `at`, on a line that starts with
/// `indent` blanks.
pub open spec fn parsed_statement(stream: Seq<Token>, at: int, indent: int) -> Option<(Tree, int)>
    decreases stream.len() - at, 4int,
{
    if at < 0 || at >= stream.len() {
        None
    } else {
        match stream[at].token {
            PyToken::At => match parsed_decorators(stream, at, indent) {
                Some((decorators, start)) => if at < start < stream.len() {
                    match stream[start].token {
                        PyToken::FnDef => parsed_funcdef(stream, start, indent, decorators),
                        PyToken::ClassDef => parsed_classdef(
                            stream,
                            start,
                            indent,
                            decorators,
                            at,
                        ),
                        _ => None,
                    }
                } else {
                    None
                },
                None => None,
            },
            PyToken::FnDef => parsed_funcdef(stream, at, indent, Forest::Nil),
            PyToken::ClassDef => parsed_classdef(stream, at, indent, Forest::Nil, at),
            PyToken::If => parsed_if(stream, at, indent),
            PyToken::While => parsed_while(stream, at, indent),
            _ => parsed_simple(stream, at),
        }
    }
}

/// What a function definition reads at the place `at`, where `def` stands.
/// Its span starts at the name of the function and ends with its body,
/// whatever decorators stand before it.
pub open spec fn parsed_funcdef(stream: Seq<Token>, at: int, indent: int, decorators: Forest) -> Option<
    (Tree, int),
>
    decreases stream.len() - at, 2int,
{
    if !(0 <= at < stream.len()) || stream[at].token != PyToken::FnDef {
        None
    } else {
        proof {
            lemma_after_blanks(stream, at + 1);
        }
        let named = after_blanks(stream, at + 1);
        if named < stream.len() && stream[named].token is Ident {
            let open = after_blanks(stream, named + 1);
            if has(stream, open, PyToken::LParen) {
                let (reciever, first) = parsed_receiver(stream, after_blanks(stream, open + 1));
                match parsed_params(stream, first) {
                    Some((args, close)) => if has(stream, close, PyToken::RParen) && close > at {
                        proof {
                            lemma_after_blanks(stream, close + 1);
                        }
                        let arrow = after_blanks(stream, close + 1);
                        let annotated = has(stream, arrow, PyToken::Minus) && has(
                            stream,
                            arrow + 1,
                            PyToken::GreaterThan,
                        );
                        let annotation = if annotated {
                            parsed(stream, after_blanks(stream, arrow + 2), 5)
                        } else {
                            None
                        };
                        if annotated && (annotation.is_none() || !advanced(
                            stream,
                            arrow,
                            annotation.unwrap().1,
                        )) {
                            None
                        } else {
                            proof {
                                if annotated {
                                    lemma_after_blanks(stream, annotation.unwrap().1);
                                }
                            }
                            let colon = if annotated {
                                after_blanks(stream, annotation.unwrap().1)
                            } else {
                                arrow
                            };
                            if has(stream, colon, PyToken::Colon) {
                                proof {
                                    lemma_after_blanks(stream, colon + 1);
                                }
                                match parsed_block(
                                    stream,
                                    after_blanks(stream, colon + 1),
                                    indent,
                                ) {
                                    Some((body, next)) => if advanced(stream, at, next) {
                                        Some(
                                            (
                                                Tree {
                                                    span: covering(stream, named, next),
                                                    kind: Kind::FuncDef {
                                                        name: stream[named].token->Ident_0,
                                                        reciever,
                                                        args,
                                                        returns: if annotated {
                                                            Some(Box::new(annotation.unwrap().0))
                                                        } else {
                                                            None
                                                        },
                                                        body,
                                                        decorator_list: decorators,
                                                    },
                                                },
                                                next,
                                            ),
                                        )
                                    } else {
                                        None
                                    },
                                    None => None,
                                }
                            } else {
                                None
                            }
                        }
                    } else {
                        None
                    },
                    None => None,
                }
            } else {
                None
            }
        } else {
            None
        }
    }
}

/// What a class definition reads at the place `at`, where `class` stands.
pub open spec fn parsed_classdef(
    stream: Seq<Token>,
    at: int,
    indent: int,
    decorators: Forest,
    from: int,
) -> Option<(Tree, int)>
    decreases stream.len() - at, 2int,
{
    if !(0 <= from <= at < stream.len()) || stream[at].token != PyToken::ClassDef {
        None
    } else {
        proof {
            lemma_after_blanks(stream, at + 1);
        }
        let named = after_blanks(stream, at + 1);
        if named < stream.len() && stream[named].token is Ident {
            proof {
                lemma_after_blanks(stream, named + 1);
            }
            let colon = after_blanks(stream, named + 1);
            if has(stream, colon, PyToken::Colon) {
                proof {
                    lemma_after_blanks(stream, colon + 1);
                }
                match parsed_block(stream, after_blanks(stream, colon + 1), indent) {
                    Some((body, next)) => if advanced(stream, at, next) {
                        Some(
                            (
                                Tree {
                                    span: covering(stream, from, next),
                                    kind: Kind::ClassDef {
                                        name: stream[named].token->Ident_0,
                                        decorator_list: decorators,
                                        body,
                                    },
                                },
                                next,
                            ),
                        )
                    } else {
                        None
                    },
                    None => None,
                }
            } else {
                None
            }
        } else {
            None
        }
    }
}

/// What a loop reads at the place `at`, where `while` stands.
pub open spec fn parsed_while(stream: Seq<Token>, at: int, indent: int) -> Option<(Tree, int)>
    decreases stream.len() - at, 2int,
{
    if at < 0 || at >= stream.len() || stream[at].token != PyToken::While {
        None
    } else {
        match parsed(stream, after_blanks(stream, at + 1), 5) {
            Some((test, after_test)) => if !advanced(stream, at, after_test) {
                None
            } else {
                proof {
                    lemma_after_blanks(stream, after_test);
                }
                let colon = after_blanks(stream, after_test);
                if has(stream, colon, PyToken::Colon) {
                    proof {
                        lemma_after_blanks(stream, colon + 1);
                    }
                    match parsed_block(stream, after_blanks(stream, colon + 1), indent) {
                        Some((body, next)) => if advanced(stream, at, next) {
                            Some(
                                (
                                    Tree {
                                        span: covering(stream, at, next),
                                        kind: Kind::While { test: Box::new(test), body },
                                    },
                                    next,
                                ),
                            )
                        } else {
                            None
                        },
                        None => None,
                    }
                } else {
                    None
                }
            },
            None => None,
        }
    }
}

/// What a conditional reads at the place `at`: nothing unless `if` stands
/// there.
pub open spec fn parsed_if(stream: Seq<Token>, at: int, indent: int) -> Option<(Tree, int)>
    decreases stream.len() - at, 3int,
{
    if at < 0 || at >= stream.len() || stream[at].token != PyToken::If {
        None
    } else {
        parsed_branch(stream, at, indent)
    }
}

/// What a branch of a conditional reads at the place `at`, where `if` or
/// `elif` stands: the test, the block, and the branches that follow at the
/// same indentation. A conditional is spanned from the keyword of its
/// first branch to the keyword of its last branch with a test.
pub open spec fn parsed_branch(stream: Seq<Token>, at: int, indent: int) -> Option<(Tree, int)>
    decreases stream.len() - at, 2int,
{
    if at < 0 || at >= stream.len() || !(stream[at].token == PyToken::If || stream[at].token
        == PyToken::Elif) {
        None
    } else {
        match parsed(stream, after_blanks(stream, at + 1), 5) {
            Some((test, after_test)) => if !advanced(stream, at, after_test) {
                None
            } else {
                proof {
                    lemma_after_blanks(stream, after_test);
                }
                let colon = after_blanks(stream, after_test);
                if has(stream, colon, PyToken::Colon) {
                    proof {
                        lemma_after_blanks(stream, colon + 1);
                    }
                    match parsed_block(stream, after_blanks(stream, colon + 1), indent) {
                        Some((body, next)) => if !advanced(stream, at, next) {
                            None
                        } else {
                            proof {
                                lemma_next_line(stream, next, indent);
                            }
                            match next_line(stream, next, indent) {
                                Some(start) => if stream[start].token == PyToken::Elif {
                                    match parsed_branch(stream, start, indent) {
                                        Some((nested, end)) => if advanced(stream, at, end) {
                                            Some(
                                                (
                                                    Tree {
                                                        span: Span {
                                                            start: stream[at].span.start,
                                                            end: nested.span.end,
                                                        },
                                                        kind: Kind::If {
                                                            test: Box::new(test),
                                                            body,
                                                            orelse: Forest::Cons(
                                                                Box::new(nested),
                                                                Box::new(Forest::Nil),
                                                            ),
                                                        },
                                                    },
                                                    end,
                                                ),
                                            )
                                        } else {
                                            None
                                        },
                                        None => None,
                                    }
                                } else if stream[start].token == PyToken::Else {
                                    proof {
                                        lemma_after_blanks(stream, start + 1);
                                    }
                                    let other = after_blanks(stream, start + 1);
                                    if has(stream, other, PyToken::Colon) {
                                        proof {
                                            lemma_after_blanks(stream, other + 1);
                                        }
                                        match parsed_block(
                                            stream,
                                            after_blanks(stream, other + 1),
                                            indent,
                                        ) {
                                            Some((orelse, end)) => if advanced(stream, at, end) {
                                                Some(
                                                    (
                                                        Tree {
                                                            span: stream[at].span,
                                                            kind: Kind::If {
                                                                test: Box::new(test),
                                                                body,
                                                                orelse,
                                                            },
                                                        },
                                                        end,
                                                    ),
                                                )
                                            } else {
                                                None
                                            },
                                            None => None,
                                        }
                                    } else {
                                        None
                                    }
                                } else {
                                    Some(
                                        (
                                            Tree {
                                                span: stream[at].span,
                                                kind: Kind::If {
                                                    test: Box::new(test),
                                                    body,
                                                    orelse: Forest::Nil,
                                                },
                                            },
                                            next,
                                        ),
                                    )
                                },
                                None => Some(
                                    (
                                        Tree {
                                            span: stream[at].span,
                                            kind: Kind::If {
                                                test: Box::new(test),
                                                body,
                                                orelse: Forest::Nil,
                                            },
                                        },
                                        next,
                                    ),
                                ),
                            }
                        },
                        None => None,
                    }
                } else {
                    None
                }
            },
            None => None,
        }
    }
}

/// What a block reads at the place `at`, which is the place after the
/// colon and the blanks behind it: one simple statement on the same line,
/// or, where the line ends there, the lines that follow, which must be
/// indented more than `indent`.
pub open spec fn parsed_block(stream: Seq<Token>, at: int, indent: int) -> Option<(Forest, int)>
    decreases stream.len() - at, 1int,
{
    if at < 0 || at >= stream.len() {
        None
    } else if after_breaks(stream, at) > at {
        proof {
            lemma_after_breaks(stream, at);
            lemma_after_blanks(stream, after_breaks(stream, at));
        }
        let line = after_breaks(stream, at);
        let inner = after_blanks(stream, line) - line;
        if inner > indent {
            match parsed_lines(stream, at, inner) {
                Some((body, next)) => if body is Cons {
                    Some((body, next))
                } else {
                    None
                },
                None => None,
            }
        } else {
            None
        }
    } else {
        match parsed_simple(stream, at) {
            Some((only, next)) => Some(
                (Forest::Cons(Box::new(only), Box::new(Forest::Nil)), next),
            ),
            None => None,
        }
    }
}

/// The statements of the lines that follow the place `at` and start with
/// exactly `indent` blanks.
pub open spec fn parsed_lines(stream: Seq<Token>, at: int, indent: int) -> Option<(Forest, int)>
    decreases stream.len() - at, 0int,
{
    proof {
        lemma_next_line(stream, at, indent);
    }
    match next_line(stream, at, indent) {
        Some(start) => match parsed_statement(stream, start, indent) {
            Some((first, next)) => if advanced(stream, start, next) {
                match parsed_lines(stream, next, indent) {
                    Some((rest, end)) => Some((Forest::Cons(Box::new(first), Box::new(rest)), end)),
                    None => None,
                }
            } else {
                None
            },
            None => None,
        },
        None => Some((Forest::Nil, at)),
    }
}

/// The statements of a module: those of its lines that are not indented.
/// The first statement may stand at the very start; after the last one
/// only line breaks may follow.
pub open spec fn parsed_module(stream: Seq<Token>) -> Option<Forest> {
    let first = after_breaks(stream, 0);
    if first >= stream.len() {
        Some(Forest::Nil)
    } else if stream[first].token == PyToken::Whitespace {
        None
    } else {
        match parsed_statement(stream, first, 0) {
            Some((head, next)) => if advanced(stream, first, next) {
                match parsed_lines(stream, next, 0) {
                    Some((rest, end)) => if after_breaks(stream, end) >= stream.len() {
                        Some(Forest::Cons(Box::new(head), Box::new(rest)))
                    } else {
                        None
                    },
                    None => None,
                }
            } else {
                None
            },
            None => None,
        }
    }
}

/// Skips the blanks at `at` and the comment that may follow them.
pub fn skip_remark(stream: &[Token], at: usize) -> (next: usize)
    requires
        at <= stream@.len(),
    ensures
        next == after_remark(stream@, at as int),
        at <= next <= stream@.len(),
        stream@.len() <= usize::MAX,
{
    let blank = skip_blanks(stream, at);
    if blank < stream.len() {
        match stream[blank].token {
            PyToken::CommentRef(_) => blank + 1,
            _ => blank,
        }
    } else {
        blank
    }
}

/// Skips the line breaks that start at `at`, with the lines that hold
/// nothing or only a comment.
pub fn skip_breaks(stream: &[Token], at: usize) -> (next: usize)
    requires
        at <= stream@.len(),
    ensures
        next == after_breaks(stream@, at as int),
        at <= next <= stream@.len(),
        stream@.len() <= usize::MAX,
{
    let mut line = at;
    let mut open = line < stream.len();
    while open
        invariant
            at <= line <= stream@.len(),
            stream@.len() <= usize::MAX,
            after_breaks(stream@, at as int) == after_breaks(stream@, line as int),
            !open ==> line == after_breaks(stream@, line as int),
            open ==> line < stream@.len(),
        decreases stream@.len() - line, if open { 1int } else { 0int },
    {
        let end = skip_remark(stream, line);
        if end >= stream.len() {
            line = stream.len();
            open = false;
        } else if stream[end].token == PyToken::Newline {
            line = end + 1;
            open = line < stream.len();
        } else {
            open = false;
        }
    }
    line
}

/// Finds the statement of the next line, if that line starts with exactly
/// `indent` blanks.
pub fn following_line(stream: &[Token], at: usize, indent: usize) -> (start: Option<usize>)
    ensures
        match start {
            Some(s) => next_line(stream@, at as int, indent as int) == Some(s as int) && at < s
                < stream@.len(),
            None => next_line(stream@, at as int, indent as int).is_none(),
        },
        stream@.len() <= usize::MAX,
{
    if at > stream.len() {
        return None;
    }
    let line = skip_breaks(stream, at);
    let start = skip_blanks(stream, line);
    if line > at && start - line == indent && start < stream.len() {
        Some(start)
    } else {
        None
    }
}

/// The span from the start of the token at `from` to the end of the token
/// before `to`.
fn cover(stream: &[Token], from: usize, to: usize) -> (span: Span)
    requires
        from < stream@.len(),
        0 < to <= stream@.len(),
    ensures
        span == covering(stream@, from as int, to as int),
{
    Span { start: stream[from].span.start, end: stream[to - 1].span.end }
}

/// Reads what follows the name of an assignment, from its colon or its
/// equal sign on.
fn assignment(stream: &[Token], at: usize, name: SpanRef, mark: usize) -> (result: Result<
    (usize, Tree),
    ParseError,
>)
    requires
        at < stream@.len(),
        stream@[at as int].token == PyToken::Ident(name),
        mark == after_blanks(stream@, at + 1),
        has(stream@, mark as int, PyToken::Colon) || has(stream@, mark as int, PyToken::Equal),
    ensures
        match result {
            Ok((next, tree)) => parsed_simple(stream@, at as int) == Some((tree, next as int))
                && advanced(stream@, at as int, next as int),
            Err(_) => parsed_simple(stream@, at as int).is_none(),
        },
{
    proof {
        lemma_after_blanks(stream@, at + 1);
    }
    let start = stream[at].span.start;
    if at_token(stream, mark, PyToken::Colon) {
        let typed = skip_blanks(stream, mark + 1);
        let (after_kind, kind) = match expression(stream, typed) {
            Ok(found) => found,
            Err(e) => {
                return Err(e);
            },
        };
        let equal = skip_blanks(stream, after_kind);
        if !at_token(stream, equal, PyToken::Equal) {
            return Err(failed(stream, equal, ErrorKind::IsNot));
        }
        let valued = skip_blanks(stream, equal + 1);
        match expression(stream, valued) {
            Ok((next, value)) => {
                let span = Span { start, end: value.span.end };
                Ok(
                    (
                        next,
                        Tree {
                            span,
                            kind: Kind::Assign {
                                name,
                                kind: Some(Box::new(kind)),
                                value: Box::new(value),
                            },
                        },
                    ),
                )
            },
            Err(e) => Err(e),
        }
    } else {
        let valued = skip_blanks(stream, mark + 1);
        match expression(stream, valued) {
            Ok((next, value)) => {
                let span = Span { start, end: value.span.end };
                Ok(
                    (
                        next,
                        Tree { span, kind: Kind::Assign { name, kind: None, value: Box::new(value) } },
                    ),
                )
            },
            Err(e) => Err(e),
        }
    }
}

/// Reads an import, from the place `at` where `import` or `from` stands.
fn import(stream: &[Token], at: usize) -> (result: Result<(usize, Tree), ParseError>)
    requires
        at < stream@.len(),
        stream@[at as int].token == PyToken::Import || stream@[at as int].token == PyToken::From,
    ensures
        match result {
            Ok((next, tree)) => parsed_simple(stream@, at as int) == Some((tree, next as int))
                && advanced(stream@, at as int, next as int),
            Err(_) => parsed_simple(stream@, at as int).is_none(),
        },
{
    let plain = at_token(stream, at, PyToken::Import);
    let first = skip_blanks(stream, at + 1);
    if plain {
        match list(stream, first) {
            Ok((next, names)) => {
                let span = cover(stream, at, next);
                Ok((next, Tree { span, kind: Kind::Import { module: None, names } }))
            },
            Err(e) => Err(e),
        }
    } else {
        let (after_module, module) = match primary(stream, first) {
            Ok(found) => found,
            Err(e) => {
                return Err(e);
            },
        };
        let keyword = skip_blanks(stream, after_module);
        if !at_token(stream, keyword, PyToken::Import) {
            return Err(failed(stream, keyword, ErrorKind::IsNot));
        }
        let named = skip_blanks(stream, keyword + 1);
        match list(stream, named) {
            Ok((next, names)) => {
                let span = cover(stream, at, next);
                Ok(
                    (
                        next,
                        Tree { span, kind: Kind::Import { module: Some(Box::new(module)), names } },
                    ),
                )
            },
            Err(e) => Err(e),
        }
    }
}

/// Whether a line ends at the place `at`.
fn ends_line(stream: &[Token], at: usize) -> (ends: bool)
    ensures
        ends == line_ends(stream@, at as int),
{
    if at >= stream.len() {
        return true;
    }
    match stream[at].token {
        PyToken::Newline => true,
        PyToken::CommentRef(_) => true,
        _ => false,
    }
}

/// Reads a simple statement: one that holds no block.
pub fn simple_statement(stream: &[Token], at: usize) -> (result: Result<(usize, Tree), ParseError>)
    ensures
        match result {
            Ok((next, tree)) => parsed_simple(stream@, at as int) == Some((tree, next as int))
                && advanced(stream@, at as int, next as int),
            Err(_) => parsed_simple(stream@, at as int).is_none(),
        },
{
    if at >= stream.len() {
        return Err(failed(stream, at, ErrorKind::Eof));
    }
    let here = stream[at];
    match here.token {
        PyToken::Pass => Ok((at + 1, Tree { span: here.span, kind: Kind::Pass })),
        PyToken::Return => {
            let value = skip_blanks(stream, at + 1);
            if value > at + 1 && !ends_line(stream, value) {
                match expression(stream, value) {
                    Ok((next, v)) => {
                        let span = Span { start: here.span.start, end: v.span.end };
                        Ok((next, Tree { span, kind: Kind::Ret(Some(Box::new(v))) }))
                    },
                    Err(e) => Err(e),
                }
            } else {
                Ok((at + 1, Tree { span: here.span, kind: Kind::Ret(None) }))
            }
        },
        PyToken::Import => import(stream, at),
        PyToken::From => import(stream, at),
        PyToken::Ident(name) => {
            let mark = skip_blanks(stream, at + 1);
            if at_token(stream, mark, PyToken::Colon) || at_token(stream, mark, PyToken::Equal) {
                assignment(stream, at, name, mark)
            } else {
                expression(stream, at)
            }
        },
        _ => expression(stream, at),
    }
}

/// Reads the parameters of a function: each a name, a colon and an
/// annotation, with commas between them.
pub fn params(stream: &[Token], at: usize) -> (result: Result<(usize, Params), ParseError>)
    ensures
        match result {
            Ok((next, found)) => parsed_params(stream@, at as int) == Some((found, next as int))
                && at <= next,
            Err(_) => parsed_params(stream@, at as int).is_none(),
        },
        stream@.len() <= usize::MAX,
    decreases stream@.len() - at,
{
    if at >= stream.len() {
        return Ok((at, Params::Nil));
    }
    match stream[at].token {
        PyToken::Ident(name) => {
            let colon = skip_blanks(stream, at + 1);
            if !at_token(stream, colon, PyToken::Colon) {
                return Err(failed(stream, colon, ErrorKind::IsNot));
            }
            let typed = skip_blanks(stream, colon + 1);
            let (next, kind) = match expression(stream, typed) {
                Ok(found) => found,
                Err(e) => {
                    return Err(e);
                },
            };
            let comma = skip_blanks(stream, next);
            if !at_token(stream, comma, PyToken::Comma) {
                return Ok((comma, Params::Cons(name, Box::new(kind), Box::new(Params::Nil))));
            }
            let more = skip_blanks(stream, comma + 1);
            match params(stream, more) {
                Ok((end, rest)) => Ok((end, Params::Cons(name, Box::new(kind), Box::new(rest)))),
                Err(e) => Err(e),
            }
        },
        _ => Ok((at, Params::Nil)),
    }
}

/// Reads the receiver of a function, if its parameters start with one,
/// and finds where the other parameters start.
pub fn receiver(stream: &[Token], at: usize) -> (result: (Option<SpanRef>, usize))
    ensures
        (result.0, result.1 as int) == parsed_receiver(stream@, at as int),
        at <= result.1,
        stream@.len() <= usize::MAX,
{
    if at >= stream.len() {
        return (None, at);
    }
    match stream[at].token {
        PyToken::Ident(name) => {
            let mark = skip_blanks(stream, at + 1);
            if at_token(stream, mark, PyToken::Comma) {
                (Some(name), skip_blanks(stream, mark + 1))
            } else if at_token(stream, mark, PyToken::RParen) {
                (Some(name), mark)
            } else {
                (None, at)
            }
        },
        _ => (None, at),
    }
}

/// Reads the decorators that stand on the lines before a definition.
pub fn decorators(stream: &[Token], at: usize, indent: usize) -> (result: Result<
    (usize, Forest),
    ParseError,
>)
    ensures
        match result {
            Ok((next, found)) => parsed_decorators(stream@, at as int, indent as int) == Some(
                (found, next as int),
            ) && at <= next && (has(stream@, at as int, PyToken::At) ==> at < next
                < stream@.len()),
            Err(_) => parsed_decorators(stream@, at as int, indent as int).is_none(),
        },
    decreases stream@.len() - at,
{
    if !at_token(stream, at, PyToken::At) {
        return Ok((at, Forest::Nil));
    }
    let (next, decorator) = match primary(stream, at + 1) {
        Ok(found) => found,
        Err(e) => {
            return Err(e);
        },
    };
    let start = match following_line(stream, next, indent) {
        Some(s) => s,
        None => {
            return Err(failed(stream, next, ErrorKind::IsNot));
        },
    };
    match decorators(stream, start, indent) {
        Ok((end, rest)) => Ok((end, Forest::Cons(Box::new(decorator), Box::new(rest)))),
        Err(e) => Err(e),
    }
}

/// Reads a statement that starts at the place `at`, on a line that starts
/// with `indent` blanks.
pub fn statement(stream: &[Token], at: usize, indent: usize) -> (result: Result<
    (usize, Tree),
    ParseError,
>)
    ensures
        match result {
            Ok((next, tree)) => parsed_statement(stream@, at as int, indent as int) == Some(
                (tree, next as int),
            ) && advanced(stream@, at as int, next as int),
            Err(_) => parsed_statement(stream@, at as int, indent as int).is_none(),
        },
    decreases stream@.len() - at, 4int,
{
    if at >= stream.len() {
        return Err(failed(stream, at, ErrorKind::Eof));
    }
    match stream[at].token {
        PyToken::At => {
            let (start, found) = match decorators(stream, at, indent) {
                Ok(found) => found,
                Err(e) => {
                    return Err(e);
                },
            };
            match stream[start].token {
                PyToken::FnDef => function_def(stream, start, indent, found),
                PyToken::ClassDef => class_def(stream, start, indent, found, at),
                _ => Err(failed(stream, start, ErrorKind::Alt)),
            }
        },
        PyToken::FnDef => function_def(stream, at, indent, Forest::Nil),
        PyToken::ClassDef => class_def(stream, at, indent, Forest::Nil, at),
        PyToken::If => if_stmt(stream, at, indent),
        PyToken::While => while_stmt(stream, at, indent),
        _ => simple_statement(stream, at),
    }
}

/// Reads a function definition at the place `at`, where `def` stands. The
/// decorators have been read already. The span of the definition starts
/// at the name of the function and ends with its body.
pub fn function_def(stream: &[Token], at: usize, indent: usize, decorators: Forest) -> (result: Result<
    (usize, Tree),
    ParseError,
>)
    ensures
        match result {
            Ok((next, tree)) => parsed_funcdef(stream@, at as int, indent as int, decorators)
                == Some((tree, next as int)) && advanced(stream@, at as int, next as int)
                && at < after_blanks(stream@, at + 1) < next && tree.span == covering(
                stream@,
                after_blanks(stream@, at + 1),
                next as int,
            ),
            Err(e) => parsed_funcdef(stream@, at as int, indent as int, decorators).is_none()
                && refused_at(stream@, at as int, PyToken::FnDef, e),
        },
    decreases stream@.len() - at, 2int,
{
    if at >= stream.len() {
        return Err(failed(stream, at, ErrorKind::Eof));
    }
    if stream[at].token != PyToken::FnDef {
        return Err(failed(stream, at, ErrorKind::IsNot));
    }
    let named = skip_blanks(stream, at + 1);
    if named >= stream.len() {
        return Err(failed(stream, named, ErrorKind::Eof));
    }
    let name = match stream[named].token {
        PyToken::Ident(name) => name,
        _ => {
            return Err(failed(stream, named, ErrorKind::IsNot));
        },
    };
    let open = skip_blanks(stream, named + 1);
    if !at_token(stream, open, PyToken::LParen) {
        return Err(failed(stream, open, ErrorKind::IsNot));
    }
    let (reciever, first) = receiver(stream, skip_blanks(stream, open + 1));
    let (close, args) = match params(stream, first) {
        Ok(found) => found,
        Err(e) => {
            return Err(e);
        },
    };
    if !at_token(stream, close, PyToken::RParen) {
        return Err(failed(stream, close, ErrorKind::IsNot));
    }
    let arrow = skip_blanks(stream, close + 1);
    let annotated = at_token(stream, arrow, PyToken::Minus) && at_token(
        stream,
        arrow + 1,
        PyToken::GreaterThan,
    );
    let mut result_type: Option<Box<Tree>> = None;
    let mut colon = arrow;
    if annotated {
        let typed = skip_blanks(stream, arrow + 2);
        match expression(stream, typed) {
            Ok((next, annotation)) => {
                result_type = Some(Box::new(annotation));
                colon = skip_blanks(stream, next);
            },
            Err(e) => {
                return Err(e);
            },
        }
    }
    if !at_token(stream, colon, PyToken::Colon) {
        return Err(failed(stream, colon, ErrorKind::IsNot));
    }
    let inside = skip_blanks(stream, colon + 1);
    match block(stream, inside, indent) {
        Ok((next, body)) => {
            let span = cover(stream, named, next);
            Ok(
                (
                    next,
                    Tree {
                        span,
                        kind: Kind::FuncDef {
                            name,
                            reciever,
                            args,
                            returns: result_type,
                            body,
                            decorator_list: decorators,
                        },
                    },
                ),
            )
        },
        Err(e) => Err(e),
    }
}

/// Reads a class definition at the place `at`, where `class` stands. The
/// decorators have been read already; the definition's span starts at the
/// token at `from`.
pub fn class_def(
    stream: &[Token],
    at: usize,
    indent: usize,
    decorators: Forest,
    from: usize,
) -> (result: Result<(usize, Tree), ParseError>)
    ensures
        match result {
            Ok((next, tree)) => parsed_classdef(
                stream@,
                at as int,
                indent as int,
                decorators,
                from as int,
            ) == Some((tree, next as int)) && advanced(stream@, at as int, next as int),
            Err(e) => parsed_classdef(
                stream@,
                at as int,
                indent as int,
                decorators,
                from as int,
            ).is_none() && refused_at(stream@, at as int, PyToken::ClassDef, e),
        },
    decreases stream@.len() - at, 2int,
{
    if at >= stream.len() {
        return Err(failed(stream, at, ErrorKind::Eof));
    }
    if stream[at].token != PyToken::ClassDef || from > at {
        return Err(failed(stream, at, ErrorKind::IsNot));
    }
    let named = skip_blanks(stream, at + 1);
    if named >= stream.len() {
        return Err(failed(stream, named, ErrorKind::Eof));
    }
    let name = match stream[named].token {
        PyToken::Ident(name) => name,
        _ => {
            return Err(failed(stream, named, ErrorKind::IsNot));
        },
    };
    let colon = skip_blanks(stream, named + 1);
    if !at_token(stream, colon, PyToken::Colon) {
        return Err(failed(stream, colon, ErrorKind::IsNot));
    }
    let inside = skip_blanks(stream, colon + 1);
    match block(stream, inside, indent) {
        Ok((next, body)) => {
            let span = cover(stream, from, next);
            Ok((next, Tree { span, kind: Kind::ClassDef { name, decorator_list: decorators, body } }))
        },
        Err(e) => Err(e),
    }
}

/// Reads a loop at the place `at`, where `while` stands.
pub fn while_stmt(stream: &[Token], at: usize, indent: usize) -> (result: Result<
    (usize, Tree),
    ParseError,
>)
    ensures
        match result {
            Ok((next, tree)) => parsed_while(stream@, at as int, indent as int) == Some(
                (tree, next as int),
            ) && advanced(stream@, at as int, next as int),
            Err(e) => parsed_while(stream@, at as int, indent as int).is_none() && refused_at(
                stream@,
                at as int,
                PyToken::While,
                e,
            ),
        },
    decreases stream@.len() - at, 2int,
{
    if at >= stream.len() {
        return Err(failed(stream, at, ErrorKind::Eof));
    }
    if stream[at].token != PyToken::While {
        return Err(failed(stream, at, ErrorKind::IsNot));
    }
    let tested = skip_blanks(stream, at + 1);
    let (after_test, test) = match expression(stream, tested) {
        Ok(found) => found,
        Err(e) => {
            return Err(e);
        },
    };
    let colon = skip_blanks(stream, after_test);
    if !at_token(stream, colon, PyToken::Colon) {
        return Err(failed(stream, colon, ErrorKind::IsNot));
    }
    let inside = skip_blanks(stream, colon + 1);
    match block(stream, inside, indent) {
        Ok((next, body)) => {
            let span = cover(stream, at, next);
            Ok((next, Tree { span, kind: Kind::While { test: Box::new(test), body } }))
        },
        Err(e) => Err(e),
    }
}

/// Reads a conditional at the place `at`, with the branches that follow it
/// at the same indentation. Where no `if` stands at `at`, nothing is read:
/// the error says that the token is not the one, or that the stream has
/// ended.
pub fn if_stmt(stream: &[Token], at: usize, indent: usize) -> (result: Result<
    (usize, Tree),
    ParseError,
>)
    ensures
        match result {
            Ok((next, tree)) => parsed_if(stream@, at as int, indent as int) == Some(
                (tree, next as int),
            ) && advanced(stream@, at as int, next as int),
            Err(e) => parsed_if(stream@, at as int, indent as int).is_none() && refused_at(
                stream@,
                at as int,
                PyToken::If,
                e,
            ),
        },
    decreases stream@.len() - at, 3int,
{
    if at >= stream.len() {
        return Err(failed(stream, at, ErrorKind::Eof));
    }
    if stream[at].token != PyToken::If {
        return Err(failed(stream, at, ErrorKind::IsNot));
    }
    branch(stream, at, indent)
}

/// Reads a branch of a conditional at the place `at`, where `if` or `elif`
/// stands, with the branches that follow it at the same indentation.
fn branch(stream: &[Token], at: usize, indent: usize) -> (result: Result<(usize, Tree), ParseError>)
    ensures
        match result {
            Ok((next, tree)) => parsed_branch(stream@, at as int, indent as int) == Some(
                (tree, next as int),
            ) && advanced(stream@, at as int, next as int),
            Err(_) => parsed_branch(stream@, at as int, indent as int).is_none(),
        },
    decreases stream@.len() - at, 2int,
{
    if at >= stream.len() {
        return Err(failed(stream, at, ErrorKind::Eof));
    }
    if !(stream[at].token == PyToken::If || stream[at].token == PyToken::Elif) {
        return Err(failed(stream, at, ErrorKind::IsNot));
    }
    let tested = skip_blanks(stream, at + 1);
    let (after_test, test) = match expression(stream, tested) {
        Ok(found) => found,
        Err(e) => {
            return Err(e);
        },
    };
    let colon = skip_blanks(stream, after_test);
    if !at_token(stream, colon, PyToken::Colon) {
        return Err(failed(stream, colon, ErrorKind::IsNot));
    }
    let inside = skip_blanks(stream, colon + 1);
    let (next, body) = match block(stream, inside, indent) {
        Ok(found) => found,
        Err(e) => {
            return Err(e);
        },
    };
    let other_branch = match following_line(stream, next, indent) {
        Some(start) if stream[start].token == PyToken::Elif || stream[start].token
            == PyToken::Else => start,
        _ => {
            let span = stream[at].span;
            return Ok(
                (next, Tree { span, kind: Kind::If { test: Box::new(test), body, orelse: Forest::Nil } }),
            );
        },
    };
    if stream[other_branch].token == PyToken::Elif {
        match branch(stream, other_branch, indent) {
            Ok((end, nested)) => {
                let span = Span { start: stream[at].span.start, end: nested.span.end };
                let orelse = Forest::Cons(Box::new(nested), Box::new(Forest::Nil));
                Ok((end, Tree { span, kind: Kind::If { test: Box::new(test), body, orelse } }))
            },
            Err(e) => Err(e),
        }
    } else {
        let other = skip_blanks(stream, other_branch + 1);
        if !at_token(stream, other, PyToken::Colon) {
            return Err(failed(stream, other, ErrorKind::IsNot));
        }
        let last = skip_blanks(stream, other + 1);
        match block(stream, last, indent) {
            Ok((end, orelse)) => {
                let span = stream[at].span;
                Ok((end, Tree { span, kind: Kind::If { test: Box::new(test), body, orelse } }))
            },
            Err(e) => Err(e),
        }
    }
}

/// Reads a block at the place `at`, the place after the colon and the
/// blanks behind it: one simple statement on the same line, or, where the
/// line ends there, the lines that follow and are indented more than
/// `indent`.
pub fn block(stream: &[Token], at: usize, indent: usize) -> (result: Result<
    (usize, Forest),
    ParseError,
>)
    ensures
        match result {
            Ok((next, body)) => parsed_block(stream@, at as int, indent as int) == Some(
                (body, next as int),
            ) && advanced(stream@, at as int, next as int),
            Err(_) => parsed_block(stream@, at as int, indent as int).is_none(),
        },
    decreases stream@.len() - at, 1int,
{
    if at >= stream.len() {
        return Err(failed(stream, at, ErrorKind::Eof));
    }
    let line = skip_breaks(stream, at);
    if line > at {
        let inner = skip_blanks(stream, line) - line;
        if inner <= indent {
            return Err(failed(stream, line, ErrorKind::ManyMN));
        }
        match lines(stream, at, inner) {
            Ok((next, body)) => match body {
                Forest::Nil => Err(failed(stream, line, ErrorKind::Many1)),
                Forest::Cons(first, rest) => Ok((next, Forest::Cons(first, rest))),
            },
            Err(e) => Err(e),
        }
    } else {
        match simple_statement(stream, at) {
            Ok((next, only)) => Ok((next, Forest::Cons(Box::new(only), Box::new(Forest::Nil)))),
            Err(e) => Err(e),
        }
    }
}

/// Reads the statements of the lines that follow the place `at` and start
/// with exactly `indent` blanks.
pub fn lines(stream: &[Token], at: usize, indent: usize) -> (result: Result<
    (usize, Forest),
    ParseError,
>)
    ensures
        match result {
            Ok((next, body)) => parsed_lines(stream@, at as int, indent as int) == Some(
                (body, next as int),
            ) && at <= next && (body is Cons ==> advanced(stream@, at as int, next as int)),
            Err(_) => parsed_lines(stream@, at as int, indent as int).is_none(),
        },
    decreases stream@.len() - at, 0int,
{
    let start = match following_line(stream, at, indent) {
        Some(s) => s,
        None => {
            return Ok((at, Forest::Nil));
        },
    };
    let (next, first) = match statement(stream, start, indent) {
        Ok(found) => found,
        Err(e) => {
            return Err(e);
        },
    };
    match lines(stream, next, indent) {
        Ok((end, rest)) => Ok((end, Forest::Cons(Box::new(first), Box::new(rest)))),
        Err(e) => Err(e),
    }
}

/// Reads a whole module: the statements of its lines that are not
/// indented, up to the end of the stream.
pub fn module(stream: &[Token]) -> (result: Result<Forest, ParseError>)
    ensures
        match result {
            Ok(body) => parsed_module(stream@) == Some(body),
            Err(_) => parsed_module(stream@).is_none(),
        },
{
    let first = skip_breaks(stream, 0);
    if first >= stream.len() {
        return Ok(Forest::Nil);
    }
    if stream[first].token == PyToken::Whitespace {
        return Err(failed(stream, first, ErrorKind::IsNot));
    }
    let (next, head) = match statement(stream, first, 0) {
        Ok(found) => found,
        Err(e) => {
            return Err(e);
        },
    };
    let (end, rest) = match lines(stream, next, 0) {
        Ok(found) => found,
        Err(e) => {
            return Err(e);
        },
    };
    let last = skip_breaks(stream, end);
    if last < stream.len() {
        return Err(failed(stream, last, ErrorKind::Eof));
    }
    Ok(Forest::Cons(Box::new(head), Box::new(rest)))
}

} // verus!
