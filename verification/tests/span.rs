use montyc::span::{bytes_eq, Span, SpanInterner};

#[test]
fn same_text_same_group() {
    let mut interner = SpanInterner::new();
    let source = b"x = x + y";
    let first = interner.intern(&source[0..1], Span { start: 0, end: 1 });
    let second = interner.intern(&source[4..5], Span { start: 4, end: 5 });
    let other = interner.intern(&source[8..9], Span { start: 8, end: 9 });
    assert_eq!(first.group(), second.group());
    assert_ne!(first, second);
    assert_ne!(first.group(), other.group());
    assert_eq!(first.distinct(), 0);
    assert_eq!(second.distinct(), 1);
    assert_eq!(other.distinct(), 2);
}

#[test]
fn refs_resolve_to_their_text() {
    let mut interner = SpanInterner::new();
    let a = interner.intern(b"alpha", Span { start: 3, end: 8 });
    let b = interner.str_to_spanref(b"__add__");
    assert_eq!(interner.resolve_ref(a), Some(&b"alpha"[..]));
    assert_eq!(interner.resolve_ref(b), Some(&b"__add__"[..]));
    assert_eq!(interner.get(a), Some(Span { start: 3, end: 8 }));
    assert_eq!(interner.get(b), Some(Span { start: 0, end: 0 }));
    assert_eq!(interner.find_group(b"alpha"), Some(a.group()));
    assert_eq!(interner.find_group(b"beta"), None);
}

#[test]
fn foreign_refs_are_unknown() {
    let mut one = SpanInterner::new();
    let mut two = SpanInterner::new();
    let _ = one.intern(b"a", Span { start: 0, end: 1 });
    let b = one.intern(b"b", Span { start: 2, end: 3 });
    let _ = two.intern(b"b", Span { start: 0, end: 1 });
    assert_eq!(two.resolve_ref(b), None);
    assert_eq!(two.get(b), None);
}

#[test]
fn bytes_eq_compares_content() {
    assert!(bytes_eq(b"abc", b"abc"));
    assert!(!bytes_eq(b"abc", b"abd"));
    assert!(!bytes_eq(b"abc", b"ab"));
    assert!(bytes_eq(b"", b""));
}
