use montyc::ast::{Ast, AstNode, FunctionDef};
use montyc::interpreter::object_graph::{ObjectGraph, Value};
use montyc::interpreter::runtime::RuntimeContext;
use montyc::span::{Span, SpanInterner};
use montyc::typing::TypeMap;

#[test]
fn attributes_are_kept_by_the_object() {
    let mut rt = RuntimeContext::new();
    let object = rt.dict();
    let one = rt.integer(1);
    let two = rt.integer(2);
    assert_eq!(rt.get_attribute(object, 7), None);
    assert!(rt.set_attribute(object, 7, one));
    assert!(rt.set_attribute(object, 8, two));
    assert_eq!(rt.get_attribute(object, 7), Some(one));
    assert_eq!(rt.get_attribute(object, 8), Some(two));
    assert!(rt.set_attribute(object, 7, two));
    assert_eq!(rt.get_attribute(object, 7), Some(two));
    assert_eq!(rt.get_attribute(one, 7), None);
    let missing = rt.objects.len() as u64;
    assert!(!rt.set_attribute(missing, 7, one));
    assert_eq!(rt.get_attribute(missing, 7), None);
}

#[test]
fn an_object_gets_its_node_once() {
    let mut rt = RuntimeContext::new();
    let ast = Ast::new();
    let interner = SpanInterner::new();
    let mut graph = ObjectGraph::new();
    let seven = rt.integer(7);
    let other = rt.integer(7);
    let first = rt.into_value(seven, &mut graph, &ast, &interner).unwrap();
    assert_eq!(first, 0);
    assert!(matches!(graph.node_weight(first), Some(Value::Integer(7))));
    assert_eq!(rt.into_value(seven, &mut graph, &ast, &interner), Some(first));
    assert_eq!(graph.node_count(), 1);
    assert_eq!(rt.into_value(other, &mut graph, &ast, &interner), Some(1));
    assert_eq!(graph.node_count(), 2);
    assert_eq!(graph.index_of_alloc(seven), Some(0));
    assert_eq!(graph.alloc_id_of(1), Some(other));
    let missing = rt.objects.len() as u64;
    assert_eq!(rt.into_value(missing, &mut graph, &ast, &interner), None);
    assert_eq!(graph.node_count(), 2);
}

#[test]
fn equal_strings_share_a_node() {
    let mut rt = RuntimeContext::new();
    let ast = Ast::new();
    let mut interner = SpanInterner::new();
    let hello = interner.intern(b"hello", Span { start: 0, end: 5 });
    let again = interner.intern(b"hello", Span { start: 9, end: 14 });
    let world = interner.intern(b"world", Span { start: 20, end: 25 });
    let mut graph = ObjectGraph::new();
    let a = rt.string(hello.group());
    let b = rt.string(again.group());
    let c = rt.string(world.group());
    let first = rt.into_value(a, &mut graph, &ast, &interner).unwrap();
    assert!(matches!(graph.node_weight(first), Some(Value::String(s)) if s == b"hello"));
    assert_eq!(rt.into_value(b, &mut graph, &ast, &interner), Some(first));
    let second = rt.into_value(c, &mut graph, &ast, &interner).unwrap();
    assert_ne!(first, second);
    assert!(matches!(graph.node_weight(second), Some(Value::String(s)) if s == b"world"));
    assert_eq!(graph.node_count(), 2);
    assert_eq!(graph.index_of_string(hello.group() as u64), Some(first));
    assert_eq!(graph.index_of_alloc(a), None);
}

#[test]
fn functions_and_classes_carry_their_names() {
    let mut rt = RuntimeContext::new();
    let mut ast = Ast::new();
    let mut interner = SpanInterner::new();
    let f = interner.intern(b"f", Span { start: 4, end: 5 });
    let k = interner.intern(b"K", Span { start: 16, end: 17 });
    let pass = ast.add(AstNode::Pass, Span { start: 8, end: 12 }).unwrap();
    let def = ast
        .add(
            AstNode::FuncDef(FunctionDef {
                name: f,
                reciever: None,
                args: vec![],
                body: vec![pass],
                decorator_list: vec![],
                returns: None,
            }),
            Span { start: 0, end: 12 },
        )
        .unwrap();
    let mut graph = ObjectGraph::new();
    let function = rt.function(def);
    let class = rt.class(k, TypeMap::OBJECT);
    let node = rt.into_value(function, &mut graph, &ast, &interner).unwrap();
    match graph.node_weight(node) {
        Some(Value::Function { name, properties, annotations, defsite, parent }) => {
            assert_eq!(name, &b"f".to_vec());
            assert!(properties.entries().is_empty());
            assert!(annotations.entries().is_empty());
            assert_eq!((defsite, parent), (&None, &None));
        }
        _ => panic!("no function"),
    }
    let node = rt.into_value(class, &mut graph, &ast, &interner).unwrap();
    match graph.node_weight(node) {
        Some(Value::Class { name, properties }) => {
            assert_eq!(name, &b"K".to_vec());
            assert!(properties.entries().is_empty());
        }
        _ => panic!("no class"),
    }
}

#[test]
fn linking_fills_in_the_attributes() {
    let mut rt = RuntimeContext::new();
    let ast = Ast::new();
    let mut interner = SpanInterner::new();
    let x = interner.intern(b"x", Span { start: 0, end: 1 }).group();
    let me = interner.intern(b"me", Span { start: 2, end: 4 }).group();
    let mut graph = ObjectGraph::new();
    let object = rt.dict();
    let five = rt.integer(5);
    assert!(rt.set_attribute(object, x, five));
    assert!(rt.set_attribute(object, me, object));

    assert!(!rt.link(object, &mut graph, &ast, &interner));
    let node = rt.into_value(object, &mut graph, &ast, &interner).unwrap();
    match graph.node_weight(node) {
        Some(Value::Dict { object, data }) => {
            assert_eq!(object.type_id, TypeMap::DICT);
            assert!(object.properties.entries().is_empty());
            assert!(data.entries().is_empty());
        }
        _ => panic!("no dictionary"),
    }
    assert!(rt.link(object, &mut graph, &ast, &interner));
    let name_of_x = graph.index_of_string(x as u64).unwrap();
    let name_of_me = graph.index_of_string(me as u64).unwrap();
    let node_of_five = graph.index_of_alloc(five).unwrap();
    assert!(matches!(graph.node_weight(name_of_x), Some(Value::String(s)) if s == b"x"));
    assert!(matches!(graph.node_weight(name_of_me), Some(Value::String(s)) if s == b"me"));
    assert!(matches!(graph.node_weight(node_of_five), Some(Value::Integer(5))));
    match graph.node_weight(node) {
        Some(Value::Dict { object, data }) => {
            assert_eq!(object.properties.get(x as u64), Some((name_of_x, node_of_five)));
            assert_eq!(object.properties.get(me as u64), Some((name_of_me, node)));
            assert_eq!(object.properties.entries().len(), 2);
            assert!(data.entries().is_empty());
        }
        _ => panic!("no dictionary"),
    }
    assert_eq!(graph.node_count(), 4);
    assert!(!rt.link(five, &mut graph, &ast, &interner));
    let missing = rt.objects.len() as u64;
    assert!(!rt.link(missing, &mut graph, &ast, &interner));
}

#[test]
fn attributes_become_pairs_of_nodes() {
    let mut rt = RuntimeContext::new();
    let ast = Ast::new();
    let mut interner = SpanInterner::new();
    let a = interner.intern(b"a", Span { start: 0, end: 1 }).group();
    let b = interner.intern(b"b", Span { start: 2, end: 3 }).group();
    let mut graph = ObjectGraph::new();
    let object = rt.dict();
    let one = rt.integer(1);
    assert!(rt.set_attribute(object, b, one));
    assert!(rt.set_attribute(object, a, one));
    let members = &rt.objects[object as usize].members;
    let properties = rt.into_value_dict(members, &mut graph, &ast, &interner).unwrap();
    let name_a = graph.index_of_string(a as u64).unwrap();
    let name_b = graph.index_of_string(b as u64).unwrap();
    let value = graph.index_of_alloc(one).unwrap();
    assert_eq!(properties.get(a as u64), Some((name_a, value)));
    assert_eq!(properties.get(b as u64), Some((name_b, value)));
    assert_eq!(graph.node_count(), 3);
    assert!(name_a < name_b);

    let missing = rt.objects.len() as u64;
    assert!(rt.set_attribute(object, a, missing));
    let members = &rt.objects[object as usize].members;
    assert!(rt.into_value_dict(members, &mut graph, &ast, &interner).is_none());
}
