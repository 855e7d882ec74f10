use montyc::ast::{Atom, FloatLiteral, Spanned, StringRef};
use montyc::parser::comb::atom::{atom, atom_unspanned, expect_ident, float, integer, name};
use montyc::parser::comb::basic::{
    expect, expect_, expect_any_of, expect_any_token, expect_many_n, expect_with,
    expect_wrapped_values, ErrorKind, ParseError,
};
use montyc::parser::token::PyToken;
use montyc::parser::token_iter::{refine, scan_literal, LexError, LiteralKind, Refined, Scanned};
use montyc::parser::Token;
use montyc::span::{Span, SpanInterner};

fn tok(token: PyToken, start: usize, end: usize) -> Token {
    Token { token, span: Span { start, end } }
}

fn pi() -> Vec<Token> {
    vec![tok(PyToken::Digits(3), 0, 1), tok(PyToken::Dot, 1, 2), tok(PyToken::Digits(14), 2, 4)]
}

fn as_float(literal: FloatLiteral) -> f64 {
    format!("{}.{}", literal.whole, literal.fraction).parse().unwrap()
}

#[test]
fn test_parse_float() {
    let tokens = pi();
    let (stream, atom) = atom(&tokens).unwrap();
    assert!(stream.is_empty());
    assert!(
        matches!(atom, Spanned { span, inner: Atom::Float(f) } if (span == Span { start: 0, end: 4 } && as_float(f) == 3.14))
    );
}

#[test]
fn test_parse_integer() {
    let life = vec![tok(PyToken::Digits(42), 0, 2)];
    let (stream, atom) = atom(&life).unwrap();
    assert!(stream.is_empty());
    assert!(
        matches!(atom, Spanned { span, inner } if (span == Span { start: 0, end: 2 } && inner == Atom::Int(42)))
    );
}

#[test]
fn test_parse_name() {
    let mut interner = SpanInterner::new();
    let one = interner.intern(b"x", Span { start: 0, end: 1 });
    let tokens = vec![tok(PyToken::Ident(one), 0, 1)];
    let (stream, atom) = atom(&tokens).unwrap();
    assert!(stream.is_empty());
    assert!(
        matches!(atom, Spanned { span, inner } if (span == Span { start: 0, end: 1 } && inner == Atom::Name(one)))
    );
}

#[test]
fn atom_reads_the_literal_words() {
    for (token, expected) in [
        (PyToken::Ellipsis, Atom::Ellipsis),
        (PyToken::True, Atom::Bool(true)),
        (PyToken::False, Atom::Bool(false)),
        (PyToken::NoneLiteral, Atom::NoneLiteral),
    ] {
        let tokens = vec![tok(token, 4, 8), tok(PyToken::Comma, 8, 9)];
        let (rest, found) = atom(&tokens).unwrap();
        assert_eq!(rest, &tokens[1..]);
        assert_eq!(found, Spanned { span: Span { start: 4, end: 8 }, inner: expected.clone() });
        assert_eq!(atom_unspanned(&tokens).unwrap().1, expected);
    }
}

#[test]
fn atom_refuses_what_is_no_atom() {
    let tokens = vec![tok(PyToken::Comma, 0, 1)];
    assert_eq!(atom(&tokens), Err(ParseError { kind: ErrorKind::Alt, remaining: 1 }));
    assert_eq!(atom(&[]), Err(ParseError { kind: ErrorKind::Alt, remaining: 0 }));
    assert!(atom_unspanned(&tokens).is_err());
}

#[test]
fn digits_and_a_dot_without_digits_are_an_integer() {
    let tokens = vec![tok(PyToken::Digits(3), 0, 1), tok(PyToken::Dot, 1, 2), tok(PyToken::Comma, 2, 3)];
    let (rest, found) = atom(&tokens).unwrap();
    assert_eq!(found.inner, Atom::Int(3));
    assert_eq!(rest.len(), 2);
    assert!(float(&tokens).is_err());
    assert_eq!(integer(&tokens).unwrap().1.inner, Atom::Int(3));
    assert!(name(&tokens).is_err());
    assert!(expect_ident(&tokens).is_err());
}

#[test]
fn expect_reads_one_token() {
    let tokens = vec![tok(PyToken::Colon, 0, 1), tok(PyToken::Comma, 1, 2)];
    let (rest, found) = expect(&tokens, PyToken::Colon).unwrap();
    assert_eq!(rest, &tokens[1..]);
    assert_eq!(found, Spanned { span: Span { start: 0, end: 1 }, inner: PyToken::Colon });
    assert_eq!(expect_(PyToken::Colon, &tokens), expect(&tokens, PyToken::Colon));
    assert_eq!(
        expect(&tokens, PyToken::Comma),
        Err(ParseError { kind: ErrorKind::IsNot, remaining: 2 })
    );
    assert_eq!(expect(&[], PyToken::Comma), Err(ParseError { kind: ErrorKind::Eof, remaining: 0 }));
}

#[test]
fn expect_with_asks_the_predicate() {
    let tokens = vec![tok(PyToken::Digits(7), 3, 4)];
    let digits = |t: &PyToken, _: &Span| matches!(t, PyToken::Digits(_));
    let (rest, found) = expect_with(&tokens, digits).unwrap();
    assert!(rest.is_empty());
    assert_eq!(found.inner, PyToken::Digits(7));
    let late = |_: &PyToken, s: &Span| s.start > 10;
    assert_eq!(
        expect_with(&tokens, late),
        Err(ParseError { kind: ErrorKind::IsNot, remaining: 1 })
    );
    assert_eq!(
        expect_with(&[], digits),
        Err(ParseError { kind: ErrorKind::Eof, remaining: 0 })
    );
}

#[test]
fn expect_any_of_tries_every_value() {
    let tokens = vec![tok(PyToken::Minus, 0, 1)];
    let values = [PyToken::Plus, PyToken::Minus];
    assert_eq!(expect_any_of(&values, &tokens).unwrap().1.inner, PyToken::Minus);
    assert_eq!(expect_any_token(&values, &tokens).unwrap().1.inner, PyToken::Minus);
    assert_eq!(
        expect_any_of(&[PyToken::Plus, PyToken::Star], &tokens),
        Err(ParseError { kind: ErrorKind::Alt, remaining: 1 })
    );
    assert_eq!(
        expect_any_of(&values, &[]),
        Err(ParseError { kind: ErrorKind::Alt, remaining: 0 })
    );
}

fn spaces(n: usize) -> Vec<Token> {
    let mut tokens: Vec<Token> = (0..n).map(|i| tok(PyToken::Whitespace, i, i + 1)).collect();
    tokens.push(tok(PyToken::Colon, n, n + 1));
    tokens
}

#[test]
fn expect_many_n_counts_the_run() {
    let four = spaces(4);
    let (rest, run) = expect_many_n(0, PyToken::Whitespace, &four).unwrap();
    assert_eq!((rest.len(), run.len()), (1, 4));
    let (rest, run) = expect_many_n(1, PyToken::Whitespace, &four).unwrap();
    assert_eq!((rest.len(), run.len()), (1, 4));
    let (rest, run) = expect_many_n(2, PyToken::Whitespace, &four).unwrap();
    assert_eq!((rest.len(), run.len()), (2, 3));
    let (rest, run) = expect_many_n(4, PyToken::Whitespace, &four).unwrap();
    assert_eq!((rest.len(), run.len()), (1, 4));
    assert_eq!(
        expect_many_n(5, PyToken::Whitespace, &four),
        Err(ParseError { kind: ErrorKind::ManyMN, remaining: 1 })
    );
    let none = spaces(0);
    let (rest, run) = expect_many_n(0, PyToken::Whitespace, &none).unwrap();
    assert_eq!((rest.len(), run.len()), (1, 0));
    assert_eq!(
        expect_many_n(1, PyToken::Whitespace, &none),
        Err(ParseError { kind: ErrorKind::Many1, remaining: 1 })
    );
    assert_eq!(run, vec![]);
}

#[test]
fn expect_wrapped_values_skips_the_wrapper() {
    let tokens = vec![
        tok(PyToken::Whitespace, 0, 1),
        tok(PyToken::Minus, 1, 2),
        tok(PyToken::GreaterThan, 2, 3),
        tok(PyToken::Whitespace, 3, 4),
        tok(PyToken::Whitespace, 4, 5),
        tok(PyToken::Colon, 5, 6),
    ];
    let arrow = [PyToken::Minus, PyToken::GreaterThan];
    let (rest, found) = expect_wrapped_values(&arrow, PyToken::Whitespace, &tokens).unwrap();
    assert_eq!(rest, &tokens[5..]);
    assert_eq!(
        found,
        vec![
            Spanned { span: Span { start: 1, end: 2 }, inner: PyToken::Minus },
            Spanned { span: Span { start: 2, end: 3 }, inner: PyToken::GreaterThan },
        ]
    );
    assert!(expect_wrapped_values(&[PyToken::Minus, PyToken::Minus], PyToken::Whitespace, &tokens).is_err());
    assert!(expect_wrapped_values(&arrow, PyToken::Whitespace, &tokens[..2]).is_err());
}

#[test]
fn atoms_from_tokens() {
    assert_eq!(Atom::from_token(PyToken::Digits(5)), Some(Atom::Int(5)));
    assert_eq!(Atom::from_token(PyToken::Ellipsis), Some(Atom::Ellipsis));
    assert_eq!(Atom::from_token(PyToken::Colon), None);
    assert_eq!(Atom::Int(5).as_name(), None);
}

#[test]
fn strings_are_scanned() {
    let source = b"x = \"hello\" # done";
    assert_eq!(
        scan_literal(source, 4),
        Ok(Scanned { kind: LiteralKind::String, end: 11, length: 7 })
    );
    assert_eq!(
        scan_literal(source, 12),
        Ok(Scanned { kind: LiteralKind::Comment, end: 18, length: 6 })
    );
    let single = b"y = 'a' + z";
    assert_eq!(
        scan_literal(single, 4),
        Ok(Scanned { kind: LiteralKind::String, end: 7, length: 3 })
    );
    assert_eq!(scan_literal(source, 0), Err(LexError::NotALiteral));
    assert_eq!(scan_literal(source, 100), Err(LexError::BadSpan));
    assert_eq!(scan_literal(b"\"open", 0), Err(LexError::Unterminated));
    let triple = b"\"\"\"doc\"\"\" rest";
    assert_eq!(
        scan_literal(triple, 0),
        Ok(Scanned { kind: LiteralKind::String, end: 9, length: 9 })
    );
    let comment = b"# one\n# two";
    assert_eq!(
        scan_literal(comment, 0),
        Ok(Scanned { kind: LiteralKind::Comment, end: 5, length: 5 })
    );
}

#[test]
fn single_quotes_are_tried_before_double_quotes() {
    // The patterns are tried in a fixed order and match anywhere in what is
    // left of the source, so a single-quoted literal further on is found
    // before the double-quoted one at the start.
    let source = b"x = \"hello\"\ny = 'a'";
    assert_eq!(
        scan_literal(source, 4),
        Ok(Scanned { kind: LiteralKind::String, end: 19, length: 3 })
    );
}

#[test]
fn raw_tokens_are_refined() {
    let source = b"name = \"text\"";
    let mut interner = SpanInterner::new();
    let ident = refine(tok(PyToken::RawIdent, 0, 4), source, &mut interner).unwrap();
    assert_eq!(ident.skip, 0);
    let name = match ident.token.token {
        PyToken::Ident(n) => n,
        other => panic!("{:?}", other),
    };
    assert_eq!(interner.resolve_ref(name), Some(&b"name"[..]));
    assert_eq!(ident.token.span, Span { start: 0, end: 4 });

    let string = refine(tok(PyToken::Invalid, 7, 8), source, &mut interner).unwrap();
    assert_eq!(string.skip, 5);
    assert_eq!(string.token.span, Span { start: 7, end: 13 });
    let literal = match string.token.token {
        PyToken::StringRef(n) => n,
        other => panic!("{:?}", other),
    };
    assert_eq!(interner.resolve_ref(literal), Some(&b"\"text\""[..]));
    assert_eq!(StringRef(literal).resolve_as_string(&interner), Some(b"text".to_vec()));
    assert_eq!(StringRef(name).resolve_as_string(&interner), Some(b"am".to_vec()));

    let equal = tok(PyToken::Equal, 5, 6);
    assert_eq!(refine(equal, source, &mut interner), Ok(Refined { token: equal, skip: 0 }));
    assert_eq!(refine(tok(PyToken::Invalid, 5, 7), source, &mut interner), Err(LexError::Invalid));
    assert_eq!(refine(tok(PyToken::Invalid, 5, 6), source, &mut interner), Err(LexError::NotALiteral));
    assert_eq!(refine(tok(PyToken::RawIdent, 5, 60), source, &mut interner), Err(LexError::BadSpan));
    assert_eq!(refine(tok(PyToken::RawIdent, 6, 5), source, &mut interner), Err(LexError::BadSpan));
}

#[test]
fn empty_string_literal_resolves_to_nothing() {
    let mut interner = SpanInterner::new();
    let empty = interner.intern(b"\"\"", Span { start: 0, end: 2 });
    assert_eq!(StringRef(empty).resolve_as_string(&interner), Some(Vec::new()));
    let short = interner.intern(b"x", Span { start: 0, end: 1 });
    assert_eq!(StringRef(short).resolve_as_string(&interner), None);
}

#[test]
fn only_a_string_atom_is_a_string_literal() {
    let mut interner = SpanInterner::new();
    let quoted = interner.intern(b"'a'", Span { start: 0, end: 3 });
    assert_eq!(StringRef::try_from_atom(Atom::Str(quoted)), Ok(StringRef(quoted)));
    assert_eq!(StringRef(quoted).into_spanref(), quoted);
    assert_eq!(StringRef::try_from_atom(Atom::Name(quoted)), Err(Atom::Name(quoted)));
    assert_eq!(StringRef::try_from_atom(Atom::Int(3)), Err(Atom::Int(3)));
    assert_eq!(StringRef::try_from_atom(Atom::Tuple(vec![1, 2])), Err(Atom::Tuple(vec![1, 2])));
}
