use montyc::span::{Span, SpanInterner};
use montyc::typing::{
    calculate_layout, BuiltinTypeId, FunctionType, TypeDescriptor, TypeLayout, TypeMap,
};

fn function(interner: &mut SpanInterner, name: &[u8], args: Vec<usize>, ret: usize) -> FunctionType {
    let name = interner.intern(name, Span { start: 0, end: name.len() });
    FunctionType { name, reciever: None, args, ret }
}

#[test]
fn builtins_stand_at_their_ids() {
    let map = TypeMap::new();
    assert_eq!(map.len(), 12);
    assert!(matches!(
        map.get(TypeMap::INTEGER),
        Some(TypeDescriptor::Simple(BuiltinTypeId::Int))
    ));
    assert!(matches!(
        map.get(TypeMap::NONE_TYPE),
        Some(TypeDescriptor::Simple(BuiltinTypeId::NoneType))
    ));
    assert!(map.get(12).is_none());
}

#[test]
fn interning_is_idempotent() {
    let mut map = TypeMap::new();
    let a = map.intern(TypeDescriptor::Tuple { members: vec![TypeMap::INTEGER, TypeMap::BOOL] });
    let b = map.intern(TypeDescriptor::Tuple { members: vec![TypeMap::INTEGER, TypeMap::BOOL] });
    assert_eq!(a, 12);
    assert_eq!(a, b);
    assert_eq!(map.len(), 13);
    let c = map.intern(TypeDescriptor::Tuple { members: vec![TypeMap::BOOL, TypeMap::INTEGER] });
    assert_ne!(a, c);
    assert_eq!(map.len(), 14);
    assert_eq!(map.intern(TypeDescriptor::Simple(BuiltinTypeId::Int)), TypeMap::INTEGER);
    assert_eq!(map.tuple(vec![TypeMap::BOOL, TypeMap::INTEGER]), c);
}

#[test]
fn function_names_count_by_their_text() {
    let mut interner = SpanInterner::new();
    let mut map = TypeMap::new();
    let f = function(&mut interner, b"f", vec![TypeMap::INTEGER], TypeMap::INTEGER);
    let again = function(&mut interner, b"f", vec![TypeMap::INTEGER], TypeMap::INTEGER);
    let g = function(&mut interner, b"g", vec![TypeMap::INTEGER], TypeMap::INTEGER);
    let f_id = map.intern(TypeDescriptor::Function(f));
    assert_eq!(map.intern(TypeDescriptor::Function(again)), f_id);
    assert_ne!(map.intern(TypeDescriptor::Function(g)), f_id);
}

#[test]
fn layout_of_int_bool_int() {
    let map = TypeMap::new();
    let members = [TypeMap::INTEGER, TypeMap::BOOL, TypeMap::INTEGER];
    let (size, offsets) = map.layout_of(&members).unwrap();
    assert_eq!(size, 24);
    assert_eq!(offsets, vec![0, 8, 16]);
    assert_eq!(map.layout_of(&members).unwrap(), (24, vec![0, 8, 16]));
}

#[test]
fn layout_rounds_the_total_up() {
    let map = TypeMap::new();
    let (size, offsets) = map.layout_of(&[TypeMap::INTEGER, TypeMap::BOOL]).unwrap();
    assert_eq!((size, offsets), (16, vec![0, 8]));
    let (size, offsets) = map.layout_of(&[TypeMap::BOOL, TypeMap::BOOL, TypeMap::BOOL]).unwrap();
    assert_eq!((size, offsets), (3, vec![0, 1, 2]));
    let (size, offsets) = map.layout_of(&[]).unwrap();
    assert_eq!((size, offsets), (0, vec![]));
    let (size, offsets) =
        map.layout_of(&[TypeMap::BOOL, TypeMap::NONE_TYPE, TypeMap::FLOAT]).unwrap();
    assert_eq!((size, offsets), (16, vec![0, 1, 8]));
}

#[test]
fn layout_of_an_unknown_member_fails() {
    let map = TypeMap::new();
    assert!(map.layout_of(&[TypeMap::INTEGER, 99]).is_none());
    assert!(map.size_of(99).is_none());
    assert_eq!(map.size_of(TypeMap::BOOL), Some(1));
    assert_eq!(map.size_of(TypeMap::STRING), Some(8));
    assert_eq!(map.size_of(TypeMap::NONE_TYPE), Some(0));
}

#[test]
fn layout_that_overflows_is_refused() {
    let huge = TypeLayout { size: usize::MAX, align: 1 };
    let one = TypeLayout { size: 1, align: 1 };
    assert!(calculate_layout(&[huge, one]).is_none());
    let (whole, offsets) = calculate_layout(&[huge]).unwrap();
    assert_eq!(whole.size, usize::MAX);
    assert_eq!(offsets, vec![0]);
    let (whole, offsets) =
        calculate_layout(&[TypeLayout { size: 3, align: 2 }, TypeLayout { size: 4, align: 4 }])
            .unwrap();
    assert_eq!((whole.size, whole.align), (8, 4));
    assert_eq!(offsets, vec![0, 4]);
}

#[test]
fn unify_call_accepts_the_declared_types() {
    let mut interner = SpanInterner::new();
    let mut map = TypeMap::new();
    let f = function(&mut interner, b"f", vec![TypeMap::INTEGER], TypeMap::INTEGER);
    let f = map.intern(TypeDescriptor::Function(f));
    assert_eq!(map.unify_call(f, &[TypeMap::INTEGER]), Ok(()));
}

#[test]
fn unify_call_fails_at_the_first_offending_index() {
    let mut interner = SpanInterner::new();
    let mut map = TypeMap::new();
    let f = function(&mut interner, b"f", vec![TypeMap::INTEGER], TypeMap::INTEGER);
    let f = map.intern(TypeDescriptor::Function(f));
    assert_eq!(
        map.unify_call(f, &[TypeMap::STRING]),
        Err((TypeMap::INTEGER, TypeMap::STRING, 0))
    );
    let g = function(
        &mut interner,
        b"g",
        vec![TypeMap::INTEGER, TypeMap::BOOL, TypeMap::STRING],
        TypeMap::NONE_TYPE,
    );
    let g = map.intern(TypeDescriptor::Function(g));
    assert_eq!(
        map.unify_call(g, &[TypeMap::INTEGER, TypeMap::FLOAT, TypeMap::FLOAT]),
        Err((TypeMap::BOOL, TypeMap::FLOAT, 1))
    );
}

#[test]
fn unify_call_reports_arity() {
    let mut interner = SpanInterner::new();
    let mut map = TypeMap::new();
    let f = function(&mut interner, b"f", vec![TypeMap::INTEGER], TypeMap::INTEGER);
    let f = map.intern(TypeDescriptor::Function(f));
    assert_eq!(map.unify_call(f, &[]), Err((TypeMap::INTEGER, TypeMap::UNKNOWN, 0)));
    assert_eq!(
        map.unify_call(f, &[TypeMap::INTEGER, TypeMap::BOOL]),
        Err((TypeMap::UNKNOWN, TypeMap::BOOL, 1))
    );
}

#[test]
fn unify_func_matches_name_then_arguments() {
    let mut interner = SpanInterner::new();
    let mut map = TypeMap::new();
    let add = function(&mut interner, b"__add__", vec![TypeMap::INTEGER], TypeMap::INTEGER);
    let add_id = map.intern(TypeDescriptor::Function(add));
    let template = function(&mut interner, b"__add__", vec![TypeMap::INTEGER], TypeMap::UNKNOWN);
    assert!(map.unify_func(add_id, &template));
    let other_name = function(&mut interner, b"__sub__", vec![TypeMap::INTEGER], TypeMap::INTEGER);
    assert!(!map.unify_func(add_id, &other_name));
    let other_args = function(&mut interner, b"__add__", vec![TypeMap::STRING], TypeMap::INTEGER);
    assert!(!map.unify_func(add_id, &other_args));
    assert!(!map.unify_func(TypeMap::INTEGER, &template));
    assert!(!map.unify_func(999, &template));
}

#[test]
fn same_shape_compares_structure() {
    let a = TypeDescriptor::Tuple { members: vec![1, 2] };
    let b = TypeDescriptor::Tuple { members: vec![1, 2] };
    let c = TypeDescriptor::Tuple { members: vec![1, 2, 3] };
    assert!(a.same_shape(&b));
    assert!(!a.same_shape(&c));
    assert!(!a.same_shape(&TypeDescriptor::Simple(BuiltinTypeId::Int)));
}
