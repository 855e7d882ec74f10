use montyc::ast::{Ast, AstNode, InfixOp};
use montyc::parser::comb::basic::{ErrorKind, ParseError};
use montyc::parser::comb::expr::{expression, list, primary, skip_blanks, unit};
use montyc::parser::comb::stmt::{
    block, decorators, following_line, function_def, if_stmt, lines, module, params, receiver,
    simple_statement, skip_breaks, statement, while_stmt,
};
use montyc::parser::parse;
use montyc::parser::token::PyToken;
use montyc::parser::token_iter::refine;
use montyc::parser::tree::{Forest, Kind, Params, Tree};
use montyc::parser::Token;
use montyc::span::{Span, SpanInterner, SpanRef};

fn word(text: &[u8]) -> PyToken {
    match text {
        b"def" => PyToken::FnDef,
        b"class" => PyToken::ClassDef,
        b"if" => PyToken::If,
        b"elif" => PyToken::Elif,
        b"else" => PyToken::Else,
        b"while" => PyToken::While,
        b"import" => PyToken::Import,
        b"from" => PyToken::From,
        b"return" => PyToken::Return,
        b"pass" => PyToken::Pass,
        b"True" => PyToken::True,
        b"False" => PyToken::False,
        b"None" => PyToken::NoneLiteral,
        _ => PyToken::RawIdent,
    }
}

/// Cuts a source text into tokens, one blank per space.
fn lex(source: &str, interner: &mut SpanInterner) -> Vec<Token> {
    let bytes = source.as_bytes();
    let mut tokens = Vec::new();
    let mut i = 0;
    while i < bytes.len() {
        let c = bytes[i];
        let mut end = i + 1;
        let raw = if c.is_ascii_alphabetic() || c == b'_' {
            while end < bytes.len() && (bytes[end].is_ascii_alphanumeric() || bytes[end] == b'_') {
                end += 1;
            }
            word(&bytes[i..end])
        } else if c.is_ascii_digit() {
            while end < bytes.len() && bytes[end].is_ascii_digit() {
                end += 1;
            }
            PyToken::Digits(source[i..end].parse().unwrap())
        } else if source[i..].starts_with("...") {
            end = i + 3;
            PyToken::Ellipsis
        } else if source[i..].starts_with("==") {
            end = i + 2;
            PyToken::DoubleEqual
        } else if source[i..].starts_with("!=") {
            end = i + 2;
            PyToken::NotEqual
        } else {
            match c {
                b' ' => PyToken::Whitespace,
                b'\n' => PyToken::Newline,
                b'.' => PyToken::Dot,
                b',' => PyToken::Comma,
                b':' => PyToken::Colon,
                b'(' => PyToken::LParen,
                b')' => PyToken::RParen,
                b'-' => PyToken::Minus,
                b'+' => PyToken::Plus,
                b'*' => PyToken::Star,
                b'/' => PyToken::Slash,
                b'%' => PyToken::Percent,
                b'=' => PyToken::Equal,
                b'>' => PyToken::GreaterThan,
                b'@' => PyToken::At,
                _ => PyToken::Invalid,
            }
        };
        let refined = refine(Token { token: raw, span: Span { start: i, end } }, bytes, interner).unwrap();
        tokens.push(refined.token);
        i = end + refined.skip;
    }
    tokens
}

fn tree(start: usize, end: usize, kind: Kind) -> Tree {
    Tree { span: Span { start, end }, kind }
}

fn forest(trees: Vec<Tree>) -> Forest {
    let mut all = Forest::Nil;
    for t in trees.into_iter().rev() {
        all = Forest::Cons(Box::new(t), Box::new(all));
    }
    all
}

fn parameters(all: Vec<(SpanRef, Tree)>) -> Params {
    let mut list = Params::Nil;
    for (name, kind) in all.into_iter().rev() {
        list = Params::Cons(name, Box::new(kind), Box::new(list));
    }
    list
}

fn number(start: usize, end: usize, n: i64) -> Tree {
    tree(start, end, Kind::Int(n))
}

fn binop(left: Tree, op: InfixOp, right: Tree) -> Tree {
    let (start, end) = (left.span.start, right.span.end);
    tree(start, end, Kind::BinOp { left: Box::new(left), op, right: Box::new(right) })
}

/// The name whose text stands at `start..end` of the source that was lexed
/// last with this interner.
fn ident(tokens: &[Token], start: usize) -> SpanRef {
    for t in tokens {
        if t.span.start == start {
            if let PyToken::Ident(n) = t.token {
                return n;
            }
        }
    }
    panic!("no identifier at {}", start)
}

fn name_at(tokens: &[Token], start: usize, end: usize) -> Tree {
    tree(start, end, Kind::Name(ident(tokens, start)))
}

#[test]
fn products_bind_tighter_than_sums() {
    let mut interner = SpanInterner::new();
    let tokens = lex("1 + 2 * 3 - 4", &mut interner);
    let (next, found) = expression(&tokens, 0).unwrap();
    assert_eq!(next, tokens.len());
    let product = binop(number(4, 5, 2), InfixOp::Mult, number(8, 9, 3));
    let expected = binop(binop(number(0, 1, 1), InfixOp::Add, product), InfixOp::Sub, number(12, 13, 4));
    assert_eq!(found, expected);
}

#[test]
fn comparisons_bind_loosest() {
    let mut interner = SpanInterner::new();
    let tokens = lex("1 + 2 == 9 % 6", &mut interner);
    let (next, found) = expression(&tokens, 0).unwrap();
    assert_eq!(next, tokens.len());
    let left = binop(number(0, 1, 1), InfixOp::Add, number(4, 5, 2));
    let right = binop(number(9, 10, 9), InfixOp::Mod, number(13, 14, 6));
    assert_eq!(found, binop(left, InfixOp::Eq, right));
    let tokens = lex("8 / 2 != 4", &mut interner);
    let (_, found) = expression(&tokens, 0).unwrap();
    let left = binop(number(0, 1, 8), InfixOp::Div, number(4, 5, 2));
    assert_eq!(found, binop(left, InfixOp::NotEq, number(9, 10, 4)));
}

#[test]
fn an_expression_stops_before_what_is_not_part_of_it() {
    let mut interner = SpanInterner::new();
    let tokens = lex("1 + 2  :", &mut interner);
    let (next, found) = expression(&tokens, 0).unwrap();
    assert_eq!(next, 5);
    assert_eq!(found, binop(number(0, 1, 1), InfixOp::Add, number(4, 5, 2)));
    assert_eq!(skip_blanks(&tokens, next), 7);
    assert!(expression(&tokens, 7).is_err());
    assert!(expression(&tokens, tokens.len()).is_err());
    assert!(expression(&tokens, tokens.len() + 5).is_err());
    let tokens = lex("1 +", &mut interner);
    assert!(expression(&tokens, 0).is_err());
}

#[test]
fn conditional_expressions() {
    let mut interner = SpanInterner::new();
    let tokens = lex("a if b == 1 else c", &mut interner);
    let (next, found) = expression(&tokens, 0).unwrap();
    assert_eq!(next, tokens.len());
    let test = binop(name_at(&tokens, 5, 6), InfixOp::Eq, number(10, 11, 1));
    let expected = tree(
        0,
        18,
        Kind::IfExpr {
            test: Box::new(test),
            body: Box::new(name_at(&tokens, 0, 1)),
            orelse: Box::new(name_at(&tokens, 17, 18)),
        },
    );
    assert_eq!(found, expected);
    let tokens = lex("a if b", &mut interner);
    assert_eq!(expression(&tokens, 0), Err(ParseError { kind: ErrorKind::IsNot, remaining: 0 }));
}

#[test]
fn calls_and_attributes_follow_a_unit() {
    let mut interner = SpanInterner::new();
    let tokens = lex("f(x, 1).y()", &mut interner);
    let (next, found) = primary(&tokens, 0).unwrap();
    assert_eq!(next, tokens.len());
    let call = tree(
        0,
        7,
        Kind::Call {
            func: Box::new(name_at(&tokens, 0, 1)),
            args: forest(vec![name_at(&tokens, 2, 3), number(5, 6, 1)]),
        },
    );
    let attr = tree(0, 9, Kind::Attr { left: Box::new(call), attr: ident(&tokens, 8) });
    assert_eq!(found, tree(0, 11, Kind::Call { func: Box::new(attr), args: Forest::Nil }));
    let (next, found) = unit(&tokens, 0).unwrap();
    assert_eq!((next, found), (1, name_at(&tokens, 0, 1)));
}

#[test]
fn parentheses_and_tuples() {
    let mut interner = SpanInterner::new();
    let tokens = lex("(1 + 2) * 3", &mut interner);
    let (next, found) = expression(&tokens, 0).unwrap();
    assert_eq!(next, tokens.len());
    let sum = binop(number(1, 2, 1), InfixOp::Add, number(5, 6, 2));
    assert_eq!(found, binop(sum, InfixOp::Mult, number(10, 11, 3)));

    let tokens = lex("()", &mut interner);
    assert_eq!(unit(&tokens, 0).unwrap(), (2, tree(0, 2, Kind::Tuple(Forest::Nil))));
    let tokens = lex("(1,)", &mut interner);
    assert_eq!(unit(&tokens, 0).unwrap(), (4, tree(0, 4, Kind::Tuple(forest(vec![number(1, 2, 1)])))));
    let tokens = lex("(1, 2, 3)", &mut interner);
    let all = forest(vec![number(1, 2, 1), number(4, 5, 2), number(7, 8, 3)]);
    assert_eq!(unit(&tokens, 0).unwrap(), (9, tree(0, 9, Kind::Tuple(all))));
    let tokens = lex("(1, 2", &mut interner);
    assert!(unit(&tokens, 0).is_err());
}

#[test]
fn literals_are_units() {
    let mut interner = SpanInterner::new();
    let tokens = lex("\"hi\" True None ... 3.25", &mut interner);
    let (next, found) = unit(&tokens, 0).unwrap();
    assert_eq!(next, 1);
    assert!(matches!(found, Tree { span: Span { start: 0, end: 4 }, kind: Kind::Str(s) }
        if interner.resolve_ref(s) == Some(&b"\"hi\""[..])));
    assert_eq!(unit(&tokens, 2).unwrap(), (3, tree(5, 9, Kind::Bool(true))));
    assert_eq!(unit(&tokens, 4).unwrap(), (5, tree(10, 14, Kind::NoneLiteral)));
    assert_eq!(unit(&tokens, 6).unwrap(), (7, tree(15, 18, Kind::Ellipsis)));
    let (next, found) = unit(&tokens, 8).unwrap();
    assert_eq!(next, 11);
    assert!(matches!(found.kind, Kind::Float(f) if f.whole == 3 && f.fraction == 25));
}

#[test]
fn lists_take_a_last_comma() {
    let mut interner = SpanInterner::new();
    let tokens = lex("a, b , c )", &mut interner);
    let (next, found) = list(&tokens, 0).unwrap();
    assert_eq!(tokens[next].token, PyToken::RParen);
    let expected =
        forest(vec![name_at(&tokens, 0, 1), name_at(&tokens, 3, 4), name_at(&tokens, 7, 8)]);
    assert_eq!(found, expected);
    let tokens = lex("a, )", &mut interner);
    let (next, found) = list(&tokens, 0).unwrap();
    assert_eq!(tokens[next].token, PyToken::RParen);
    assert_eq!(found, forest(vec![name_at(&tokens, 0, 1)]));
}

#[test]
fn simple_statements() {
    let mut interner = SpanInterner::new();
    let tokens = lex("pass", &mut interner);
    assert_eq!(simple_statement(&tokens, 0).unwrap(), (1, tree(0, 4, Kind::Pass)));

    let tokens = lex("return", &mut interner);
    assert_eq!(simple_statement(&tokens, 0).unwrap(), (1, tree(0, 6, Kind::Ret(None))));
    let tokens = lex("return  \n", &mut interner);
    assert_eq!(simple_statement(&tokens, 0).unwrap(), (1, tree(0, 6, Kind::Ret(None))));
    let tokens = lex("return a + 1", &mut interner);
    let sum = binop(name_at(&tokens, 7, 8), InfixOp::Add, number(11, 12, 1));
    assert_eq!(
        simple_statement(&tokens, 0).unwrap(),
        (tokens.len(), tree(0, 12, Kind::Ret(Some(Box::new(sum)))))
    );

    let tokens = lex("f(1)", &mut interner);
    let call = tree(
        0,
        4,
        Kind::Call { func: Box::new(name_at(&tokens, 0, 1)), args: forest(vec![number(2, 3, 1)]) },
    );
    assert_eq!(simple_statement(&tokens, 0).unwrap(), (4, call));
    assert!(simple_statement(&tokens, 4).is_err());
    let tokens = lex(")", &mut interner);
    assert!(simple_statement(&tokens, 0).is_err());
}

#[test]
fn assignments() {
    let mut interner = SpanInterner::new();
    let tokens = lex("x = 1", &mut interner);
    let expected = tree(
        0,
        5,
        Kind::Assign { name: ident(&tokens, 0), kind: None, value: Box::new(number(4, 5, 1)) },
    );
    assert_eq!(simple_statement(&tokens, 0).unwrap(), (tokens.len(), expected));

    let tokens = lex("x: int = 1 + 2", &mut interner);
    let value = binop(number(9, 10, 1), InfixOp::Add, number(13, 14, 2));
    let expected = tree(
        0,
        14,
        Kind::Assign {
            name: ident(&tokens, 0),
            kind: Some(Box::new(name_at(&tokens, 3, 6))),
            value: Box::new(value),
        },
    );
    assert_eq!(simple_statement(&tokens, 0).unwrap(), (tokens.len(), expected));

    let tokens = lex("x: int", &mut interner);
    assert_eq!(
        simple_statement(&tokens, 0),
        Err(ParseError { kind: ErrorKind::IsNot, remaining: 0 })
    );
    let tokens = lex("x =", &mut interner);
    assert!(simple_statement(&tokens, 0).is_err());
}

#[test]
fn imports() {
    let mut interner = SpanInterner::new();
    let tokens = lex("import a, b.c", &mut interner);
    let dotted =
        tree(10, 13, Kind::Attr { left: Box::new(name_at(&tokens, 10, 11)), attr: ident(&tokens, 12) });
    let expected = tree(
        0,
        13,
        Kind::Import { module: None, names: forest(vec![name_at(&tokens, 7, 8), dotted]) },
    );
    assert_eq!(simple_statement(&tokens, 0).unwrap(), (tokens.len(), expected));

    let tokens = lex("from a.b import c", &mut interner);
    let dotted =
        tree(5, 8, Kind::Attr { left: Box::new(name_at(&tokens, 5, 6)), attr: ident(&tokens, 7) });
    let expected = tree(
        0,
        17,
        Kind::Import {
            module: Some(Box::new(dotted)),
            names: forest(vec![name_at(&tokens, 16, 17)]),
        },
    );
    assert_eq!(simple_statement(&tokens, 0).unwrap(), (tokens.len(), expected));

    let tokens = lex("from a c", &mut interner);
    assert!(simple_statement(&tokens, 0).is_err());
    let tokens = lex("import", &mut interner);
    assert!(simple_statement(&tokens, 0).is_err());
}

#[test]
fn line_breaks_pass_over_empty_lines_and_comments() {
    let mut interner = SpanInterner::new();
    let tokens = lex("a  # one\n\n   \n  # two\n  b", &mut interner);
    assert_eq!(skip_breaks(&tokens, 0), 0);
    let line = skip_breaks(&tokens, 1);
    assert_eq!(tokens[line].span.start, 22);
    assert_eq!(following_line(&tokens, 1, 2), Some(line + 2));
    assert_eq!(following_line(&tokens, 1, 0), None);
    assert_eq!(following_line(&tokens, 1, 4), None);
    assert_eq!(following_line(&tokens, 0, 0), None);
    assert_eq!(skip_breaks(&tokens, tokens.len()), tokens.len());
    let tokens = lex("a \n  # the end", &mut interner);
    assert_eq!(skip_breaks(&tokens, 1), tokens.len());
    assert_eq!(following_line(&tokens, 1, 2), None);
}

#[test]
fn parameters_and_receivers() {
    let mut interner = SpanInterner::new();
    let tokens = lex("a: int, b: str)", &mut interner);
    let (next, found) = params(&tokens, 0).unwrap();
    assert_eq!(tokens[next].token, PyToken::RParen);
    let expected = parameters(vec![
        (ident(&tokens, 0), name_at(&tokens, 3, 6)),
        (ident(&tokens, 8), name_at(&tokens, 11, 14)),
    ]);
    assert_eq!(found, expected);
    assert_eq!(receiver(&tokens, 0), (None, 0));
    assert_eq!(params(&tokens, next).unwrap(), (next, Params::Nil));

    let tokens = lex("self, other: int)", &mut interner);
    assert_eq!(receiver(&tokens, 0), (Some(ident(&tokens, 0)), 3));
    assert!(params(&tokens, 0).is_err());
    let tokens = lex("self )", &mut interner);
    assert_eq!(receiver(&tokens, 0), (Some(ident(&tokens, 0)), 2));
    let tokens = lex(")", &mut interner);
    assert_eq!(receiver(&tokens, 0), (None, 0));
}

#[test]
fn a_function_on_one_line() {
    let mut interner = SpanInterner::new();
    let tokens = lex("def f(): pass", &mut interner);
    let (next, found) = function_def(&tokens, 0, 0, Forest::Nil).unwrap();
    assert_eq!(next, tokens.len());
    // The definition is spanned from its name to the end of its body.
    let expected = tree(
        4,
        13,
        Kind::FuncDef {
            name: ident(&tokens, 4),
            reciever: None,
            args: Params::Nil,
            returns: None,
            body: forest(vec![tree(9, 13, Kind::Pass)]),
            decorator_list: Forest::Nil,
        },
    );
    assert_eq!(found, expected);
    assert!(function_def(&tokens, 2, 0, Forest::Nil).is_err());
}

#[test]
fn a_function_with_a_body_of_lines() {
    let mut interner = SpanInterner::new();
    let source = "def add(a: int, b: int) -> int:\n    c = a + b\n\n    return c\nx = 1";
    let tokens = lex(source, &mut interner);
    let (next, found) = statement(&tokens, 0, 0).unwrap();
    assert_eq!(tokens[next].token, PyToken::Newline);
    assert_eq!(tokens[next].span.start, 59);
    let sum = binop(name_at(&tokens, 40, 41), InfixOp::Add, name_at(&tokens, 44, 45));
    let assign =
        tree(36, 45, Kind::Assign { name: ident(&tokens, 36), kind: None, value: Box::new(sum) });
    let ret = tree(51, 59, Kind::Ret(Some(Box::new(name_at(&tokens, 58, 59)))));
    let expected = tree(
        4,
        59,
        Kind::FuncDef {
            name: ident(&tokens, 4),
            reciever: None,
            args: parameters(vec![
                (ident(&tokens, 8), name_at(&tokens, 11, 14)),
                (ident(&tokens, 16), name_at(&tokens, 19, 22)),
            ]),
            returns: Some(Box::new(name_at(&tokens, 27, 30))),
            body: forest(vec![assign, ret]),
            decorator_list: Forest::Nil,
        },
    );
    assert_eq!(found, expected);
}

#[test]
fn a_block_must_be_indented_more() {
    let mut interner = SpanInterner::new();
    let tokens = lex("def f():\npass", &mut interner);
    assert_eq!(
        statement(&tokens, 0, 0),
        Err(ParseError { kind: ErrorKind::ManyMN, remaining: 1 })
    );
    let tokens = lex("  def f():\n  pass", &mut interner);
    assert!(statement(&tokens, 2, 2).is_err());
    assert!(statement(&tokens, 2, 1).is_ok());
    let tokens = lex("def f():", &mut interner);
    assert!(statement(&tokens, 0, 0).is_err());
    let tokens = lex("def f():\n", &mut interner);
    assert!(statement(&tokens, 0, 0).is_err());
}

#[test]
fn a_block_ends_where_the_indentation_changes() {
    let mut interner = SpanInterner::new();
    let tokens = lex(":\n  a\n  b\n c\n", &mut interner);
    let (next, found) = block(&tokens, 1, 0).unwrap();
    assert_eq!(found, forest(vec![name_at(&tokens, 4, 5), name_at(&tokens, 8, 9)]));
    assert_eq!(tokens[next].span.start, 9);
    let (next, found) = lines(&tokens, next, 1).unwrap();
    assert_eq!(found, forest(vec![name_at(&tokens, 11, 12)]));
    assert_eq!(lines(&tokens, next, 1).unwrap(), (next, Forest::Nil));
    let (_, found) = block(&tokens, 4, 0).unwrap();
    assert_eq!(found, forest(vec![name_at(&tokens, 4, 5)]));
}

#[test]
fn decorated_definitions() {
    let mut interner = SpanInterner::new();
    let source = "@a\n@b.c\nclass K:\n    @d\n    def m(self, n: int) -> int: ...\n";
    let tokens = lex(source, &mut interner);
    let (start, above) = decorators(&tokens, 0, 0).unwrap();
    assert_eq!(tokens[start].token, PyToken::ClassDef);
    let dotted =
        tree(4, 7, Kind::Attr { left: Box::new(name_at(&tokens, 4, 5)), attr: ident(&tokens, 6) });
    assert_eq!(above, forest(vec![name_at(&tokens, 1, 2), dotted]));

    let (next, found) = statement(&tokens, 0, 0).unwrap();
    assert_eq!(next, tokens.len() - 1);
    let dotted =
        tree(4, 7, Kind::Attr { left: Box::new(name_at(&tokens, 4, 5)), attr: ident(&tokens, 6) });
    let method = tree(
        32,
        59,
        Kind::FuncDef {
            name: ident(&tokens, 32),
            reciever: Some(ident(&tokens, 34)),
            args: parameters(vec![(ident(&tokens, 40), name_at(&tokens, 43, 46))]),
            returns: Some(Box::new(name_at(&tokens, 51, 54))),
            body: forest(vec![tree(56, 59, Kind::Ellipsis)]),
            decorator_list: forest(vec![name_at(&tokens, 22, 23)]),
        },
    );
    let expected = tree(
        0,
        59,
        Kind::ClassDef {
            name: ident(&tokens, 14),
            decorator_list: forest(vec![name_at(&tokens, 1, 2), dotted]),
            body: forest(vec![method]),
        },
    );
    assert_eq!(found, expected);

    let tokens = lex("@a\nx = 1", &mut interner);
    assert_eq!(statement(&tokens, 0, 0), Err(ParseError { kind: ErrorKind::Alt, remaining: 5 }));
    let tokens = lex("@a def f(): pass", &mut interner);
    assert!(statement(&tokens, 0, 0).is_err());
    assert_eq!(decorators(&tokens, 3, 0).unwrap(), (3, Forest::Nil));
}

#[test]
fn a_chain_of_conditions() {
    let mut interner = SpanInterner::new();
    let source = "if a:\n    1\nelif b:\n    2\nelse:\n    3\n4";
    let tokens = lex(source, &mut interner);
    let (next, found) = if_stmt(&tokens, 0, 0).unwrap();
    assert_eq!(tokens[next].span.start, 37);
    // A conditional is spanned from its first keyword to the keyword of
    // its last branch with a test.
    let nested = tree(
        12,
        16,
        Kind::If {
            test: Box::new(name_at(&tokens, 17, 18)),
            body: forest(vec![number(24, 25, 2)]),
            orelse: forest(vec![number(36, 37, 3)]),
        },
    );
    let expected = tree(
        0,
        16,
        Kind::If {
            test: Box::new(name_at(&tokens, 3, 4)),
            body: forest(vec![number(10, 11, 1)]),
            orelse: forest(vec![nested]),
        },
    );
    assert_eq!(found, expected);
    assert_eq!(statement(&tokens, 0, 0).unwrap().0, next);
}

#[test]
fn a_condition_without_other_branches() {
    let mut interner = SpanInterner::new();
    let tokens = lex("if a: pass\nb", &mut interner);
    let (next, found) = if_stmt(&tokens, 0, 0).unwrap();
    assert_eq!(tokens[next].token, PyToken::Newline);
    let expected = tree(
        0,
        2,
        Kind::If {
            test: Box::new(name_at(&tokens, 3, 4)),
            body: forest(vec![tree(6, 10, Kind::Pass)]),
            orelse: Forest::Nil,
        },
    );
    assert_eq!(found, expected);
    let tokens = lex("if a:\n  pass\n  else: pass", &mut interner);
    assert!(if_stmt(&tokens, 0, 0).is_err());
    let tokens = lex("if a pass", &mut interner);
    assert_eq!(if_stmt(&tokens, 0, 0), Err(ParseError { kind: ErrorKind::IsNot, remaining: 1 }));
    let tokens = lex("if a:\n  pass\nelse pass", &mut interner);
    assert!(if_stmt(&tokens, 0, 0).is_err());
}

#[test]
fn loops() {
    let mut interner = SpanInterner::new();
    let tokens = lex("while a != 0:\n  a = a - 1\n", &mut interner);
    let (next, found) = while_stmt(&tokens, 0, 0).unwrap();
    assert_eq!(next, tokens.len() - 1);
    let test = binop(name_at(&tokens, 6, 7), InfixOp::NotEq, number(11, 12, 0));
    let less = binop(name_at(&tokens, 20, 21), InfixOp::Sub, number(24, 25, 1));
    let assign =
        tree(16, 25, Kind::Assign { name: ident(&tokens, 16), kind: None, value: Box::new(less) });
    let expected = tree(0, 25, Kind::While { test: Box::new(test), body: forest(vec![assign]) });
    assert_eq!(found, expected);
    assert_eq!(statement(&tokens, 0, 0).unwrap().0, next);
    let tokens = lex("while : pass", &mut interner);
    assert!(while_stmt(&tokens, 0, 0).is_err());
}

#[test]
fn a_module_is_its_lines_without_indentation() {
    let mut interner = SpanInterner::new();
    let source = "\n# first\nimport a\n\nx = 1  # one\ndef f(): return x\n\n";
    let tokens = lex(source, &mut interner);
    let found = module(&tokens).unwrap();
    let mut count = 0;
    let mut rest = &found;
    let mut kinds = Vec::new();
    while let Forest::Cons(first, more) = rest {
        kinds.push(match first.kind {
            Kind::Import { .. } => "import",
            Kind::Assign { .. } => "assign",
            Kind::FuncDef { .. } => "def",
            _ => "other",
        });
        count += 1;
        rest = more;
    }
    assert_eq!(count, 3);
    assert_eq!(kinds, vec!["import", "assign", "def"]);

    assert_eq!(module(&[]), Ok(Forest::Nil));
    let tokens = lex("\n\n  \n# only this\n", &mut interner);
    assert_eq!(module(&tokens), Ok(Forest::Nil));
}

#[test]
fn what_is_no_module_is_refused() {
    let mut interner = SpanInterner::new();
    let tokens = lex("  x = 1", &mut interner);
    assert_eq!(module(&tokens), Err(ParseError { kind: ErrorKind::IsNot, remaining: 7 }));
    let tokens = lex("x = 1\n  y = 2", &mut interner);
    assert!(module(&tokens).is_err());
    let tokens = lex("x = 1 y", &mut interner);
    assert!(module(&tokens).is_err());
    let tokens = lex("x = 1\n)", &mut interner);
    assert!(module(&tokens).is_err());
    let mut ast = Ast::new();
    assert!(parse(&tokens, &mut ast).is_err());
    assert_eq!(ast.len(), 0);
}

#[test]
fn a_parsed_module_enters_the_arena() {
    let mut interner = SpanInterner::new();
    let tokens = lex("def add(a: int, b: int) -> int:\n    return a + b\n", &mut interner);
    let mut ast = Ast::new();
    let parsed = parse(&tokens, &mut ast).unwrap();
    assert_eq!(parsed.body.len(), 1);
    let def = parsed.body[0];
    assert_eq!(def, ast.len() - 1);
    let node = ast.get(def).unwrap();
    assert_eq!(node.span, Span { start: 4, end: 48 });
    match &node.inner {
        AstNode::FuncDef(f) => {
            assert_eq!(interner.resolve_ref(f.name), Some(&b"add"[..]));
            assert_eq!(f.reciever, None);
            assert_eq!(f.args.len(), 2);
            assert_eq!(interner.resolve_ref(f.args[0].name), Some(&b"a"[..]));
            assert_eq!(interner.resolve_ref(f.args[1].name), Some(&b"b"[..]));
            assert!(matches!(ast.get(f.args[0].kind).unwrap().inner, AstNode::Name(_)));
            assert!(f.decorator_list.is_empty());
            assert!(matches!(ast.get(f.returns.unwrap()).unwrap().inner, AstNode::Name(_)));
            assert_eq!(f.body.len(), 1);
            let ret = ast.get(f.body[0]).unwrap();
            assert_eq!(ret.span, Span { start: 36, end: 48 });
            match &ret.inner {
                AstNode::Ret(r) => match &ast.get(r.value.unwrap()).unwrap().inner {
                    AstNode::BinOp { left, op, right } => {
                        assert_eq!(*op, InfixOp::Add);
                        assert!(*left < *right && *right < f.body[0]);
                    }
                    other => panic!("no sum: {:?}", other),
                },
                other => panic!("no return: {:?}", other),
            }
        }
        other => panic!("no definition: {:?}", other),
    }
}

#[test]
fn trees_enter_the_arena_parts_first() {
    let mut ast = Ast::new();
    let sum = binop(number(0, 1, 1), InfixOp::Add, binop(number(4, 5, 2), InfixOp::Mult, number(8, 9, 3)));
    let id = ast.add_tree(&sum);
    assert_eq!(ast.len(), 5);
    assert_eq!(id, 4);
    assert!(matches!(ast.get(0).unwrap().inner, AstNode::Int(1)));
    assert!(matches!(ast.get(1).unwrap().inner, AstNode::Int(2)));
    assert!(matches!(ast.get(2).unwrap().inner, AstNode::Int(3)));
    assert!(
        matches!(ast.get(3).unwrap().inner, AstNode::BinOp { left: 1, op: InfixOp::Mult, right: 2 })
    );
    assert!(
        matches!(ast.get(4).unwrap().inner, AstNode::BinOp { left: 0, op: InfixOp::Add, right: 3 })
    );
    assert_eq!(ast.get(4).unwrap().span, Span { start: 0, end: 9 });
    let ids = ast.add_forest(&forest(vec![number(0, 1, 7), tree(2, 6, Kind::Pass)]));
    assert_eq!(ids, vec![5, 6]);
    assert!(matches!(ast.get(6).unwrap().inner, AstNode::Pass));
}

#[test]
fn a_compound_statement_needs_its_keyword() {
    let mut interner = SpanInterner::new();
    let tokens = lex("pass", &mut interner);
    assert_eq!(if_stmt(&tokens, 0, 0), Err(ParseError { kind: ErrorKind::IsNot, remaining: 1 }));
    assert_eq!(if_stmt(&[], 0, 0), Err(ParseError { kind: ErrorKind::Eof, remaining: 0 }));
    assert_eq!(while_stmt(&[], 0, 0), Err(ParseError { kind: ErrorKind::Eof, remaining: 0 }));
    assert_eq!(
        function_def(&[], 0, 0, Forest::Nil),
        Err(ParseError { kind: ErrorKind::Eof, remaining: 0 })
    );
    let tokens = lex("pass x: pass", &mut interner);
    let nothing_read = Err(ParseError { kind: ErrorKind::IsNot, remaining: tokens.len() });
    assert_eq!(if_stmt(&tokens, 0, 0), nothing_read);
    assert_eq!(while_stmt(&tokens, 0, 0), nothing_read);
    assert_eq!(function_def(&tokens, 0, 0, Forest::Nil), nothing_read);
    let tokens = lex("elif x: pass", &mut interner);
    assert_eq!(
        if_stmt(&tokens, 0, 0),
        Err(ParseError { kind: ErrorKind::IsNot, remaining: tokens.len() })
    );
    assert!(statement(&tokens, 0, 0).is_err());
    let tokens = lex("x = 1\nif x: pass", &mut interner);
    assert_eq!(if_stmt(&tokens, 0, 0), Err(ParseError { kind: ErrorKind::IsNot, remaining: tokens.len() }));
    assert!(if_stmt(&tokens, 6, 0).is_ok());
    assert!(if_stmt(&tokens, tokens.len() + 3, 0).is_err());
}
