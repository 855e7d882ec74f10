use montyc::ast::{Argument, Assign, Ast, AstNode, FloatLiteral, FunctionDef, InfixOp, NodeId, Return};
use montyc::context::ModuleRef;
use montyc::interpreter::dict::PyDictRaw;
use montyc::interpreter::object_graph::{Object, ObjectGraph, Value};
use montyc::interpreter::runtime::{call_native, NativeFn, PyErr, PyValue, RuntimeContext};
use montyc::interpreter::scope::DynamicScope;
use montyc::interpreter::value_store::ValueStore;
use montyc::object::ObjectId;
use montyc::scope::ScopeRoot;
use montyc::span::{Span, SpanInterner, SpanRef};
use montyc::typing::{TypeDescriptor, TypeMap};

#[test]
fn dict_holds_what_was_inserted() {
    let mut dict = PyDictRaw::new();
    assert_eq!(dict.get(7), None);
    assert_eq!(dict.insert(7, (1, 2)), None);
    assert_eq!(dict.insert(9, (3, 4)), None);
    assert_eq!(dict.get(7), Some((1, 2)));
    assert_eq!(dict.insert(7, (5, 6)), Some((1, 2)));
    assert_eq!(dict.get(7), Some((5, 6)));
    assert_eq!(dict.get(8), None);
    let _ = dict.insert(1, (0, 0));
    assert_eq!(dict.entries(), vec![(1, (0, 0)), (7, (5, 6)), (9, (3, 4))]);
}

#[test]
fn graph_nodes_are_numbered_in_order() {
    let mut graph = ObjectGraph::new();
    assert_eq!(graph.node_count(), 0);
    assert!(graph.can_grow());
    assert_eq!(graph.add_node(Value::Integer(10)), 0);
    assert_eq!(graph.add_node(Value::Integer(20)), 1);
    assert_eq!(graph.node_count(), 2);
    assert!(matches!(graph.node_weight(1), Some(Value::Integer(20))));
    assert!(matches!(graph.node_weight(0), Some(Value::Integer(10))));
    assert!(graph.node_weight(2).is_none());
    assert!(graph.node_weight(u64::MAX).is_none());
    graph.replace_node(0, Value::Integer(11));
    assert!(matches!(graph.node_weight(0), Some(Value::Integer(11))));
    assert!(matches!(graph.node_weight(1), Some(Value::Integer(20))));
}

#[test]
fn strings_are_deduplicated_by_hash() {
    let mut graph = ObjectGraph::new();
    let a = graph.add_string_node(42, Value::String(b"a".to_vec()));
    let b = graph.add_string_node(43, Value::String(b"b".to_vec()));
    let again = graph.add_string_node(42, Value::String(b"other".to_vec()));
    assert_eq!((a, b, again), (0, 1, 0));
    assert_eq!(graph.node_count(), 2);
    assert!(matches!(graph.node_weight(0), Some(Value::String(s)) if s == b"a"));
}

#[test]
fn traced_insertion_is_idempotent() {
    let mut graph = ObjectGraph::new();
    let first = graph.add_node_traced(Value::Integer(1), 100);
    let second = graph.add_node_traced(Value::Integer(2), 50);
    let again = graph.add_node_traced(Value::Integer(3), 100);
    assert_eq!((first, second, again), (0, 1, 0));
    assert_eq!(graph.node_count(), 2);
    assert!(matches!(graph.node_weight(0), Some(Value::Integer(1))));
    assert_eq!(graph.index_of_alloc(50), Some(1));
    assert_eq!(graph.index_of_alloc(51), None);
    assert_eq!(graph.insert_node_traced(50, Value::Integer(9)), (1, false));
    assert_eq!(graph.insert_node_traced(7, Value::Integer(9)), (2, true));
    assert_eq!(graph.iter_by_alloc_asc(), vec![2, 1, 0]);
    assert_eq!(graph.alloc_id_of(0), Some(100));
    assert_eq!(graph.alloc_id_of(2), Some(7));
    assert_eq!(graph.alloc_id_of(3), None);
    let plain = graph.add_node(Value::Object(Object { type_id: TypeMap::OBJECT, properties: PyDictRaw::new() }));
    assert_eq!(graph.alloc_id_of(plain), None);
}

#[test]
fn value_store_records_types_and_classes() {
    let mut store = ValueStore::new();
    assert_eq!(store.type_of(0), None);
    assert_eq!(store.class_of(TypeMap::INTEGER), None);
    let node = store.graph.add_node(Value::Integer(1));
    store.set_type(node, TypeMap::INTEGER);
    store.set_class(TypeMap::INTEGER, 5);
    assert_eq!(store.type_of(node), Some(TypeMap::INTEGER));
    assert_eq!(store.class_of(TypeMap::INTEGER), Some(5));
    assert_eq!(store.class_of(TypeMap::STRING), None);
    store.set_class(TypeMap::INTEGER, 6);
    assert_eq!(store.class_of(TypeMap::INTEGER), Some(6));
}

#[test]
fn object_ids() {
    assert!(ObjectId::default().is_uninit());
    assert_eq!(ObjectId::new(0), None);
    let id = ObjectId::new(5).unwrap();
    assert!(!id.is_uninit());
    assert_eq!(id.get(), 5);
    assert_eq!(u64::from(id), 5);
    assert!(ObjectId::new(u64::MAX).unwrap().is_uninit());
    assert!(ObjectId::new(1).unwrap() < ObjectId::new(2).unwrap());
}

#[test]
fn native_arithmetic_saturates() {
    assert_eq!(call_native(NativeFn::IntAdd, 2, 3), Some(5));
    assert_eq!(call_native(NativeFn::IntAdd, i64::MAX, 1), Some(i64::MAX));
    assert_eq!(call_native(NativeFn::IntAdd, i64::MIN, -1), Some(i64::MIN));
    assert_eq!(call_native(NativeFn::IntSub, 2, 3), Some(-1));
    assert_eq!(call_native(NativeFn::IntSub, i64::MIN, 1), Some(i64::MIN));
    assert_eq!(call_native(NativeFn::IntSub, i64::MAX, -1), Some(i64::MAX));
    assert_eq!(call_native(NativeFn::IntMul, -4, 5), Some(-20));
    assert_eq!(call_native(NativeFn::IntMul, i64::MAX, 2), Some(i64::MAX));
    assert_eq!(call_native(NativeFn::IntMul, i64::MAX, -2), Some(i64::MIN));
    assert_eq!(call_native(NativeFn::IntMul, i64::MIN, -1), Some(i64::MAX));
    assert_eq!(call_native(NativeFn::IntPow, 2, 10), Some(1024));
    assert_eq!(call_native(NativeFn::IntPow, 2, 64), Some(i64::MAX));
    assert_eq!(call_native(NativeFn::IntPow, -2, 65), Some(i64::MIN));
    assert_eq!(call_native(NativeFn::IntPow, 7, 0), Some(1));
    assert_eq!(call_native(NativeFn::IntPow, 2, -1), None);
    assert_eq!(call_native(NativeFn::IntPow, 1, 1 << 40), None);
}

#[test]
fn the_singletons_come_first() {
    let rt = RuntimeContext::new();
    assert_eq!(rt.objects.len(), 10);
    let s = rt.singletons;
    assert_eq!(
        (s.obj_class, s.type_class, s.int_class, s.str_class, s.bool_class),
        (0, 1, 2, 3, 4)
    );
    assert_eq!(
        (s.func_class, s.base_exc_class, s.ret_exc_class, s.stop_iter_exc_class, s.none),
        (5, 6, 7, 8, 9)
    );
    assert_eq!(rt.none(), 9);
    assert_eq!(rt.objects[0].prototype, None);
    assert_eq!(rt.objects[1].prototype, Some(0));
    assert_eq!(rt.objects[2].prototype, Some(1));
    assert_eq!(rt.objects[7].prototype, Some(6));
    assert_eq!(rt.objects[8].prototype, Some(6));
    assert_eq!(rt.objects[9].prototype, None);
    assert_eq!(rt.objects[9].type_id, TypeMap::NONE_TYPE);
    assert_eq!(rt.objects[4].type_id, TypeMap::TYPE);
    assert_eq!(rt.depth(), 0);
    assert_eq!(rt.return_exc(3), PyErr::Return(3));
}

#[test]
fn objects_get_increasing_ids() {
    let mut rt = RuntimeContext::new();
    let mut types = TypeMap::new();
    let one = rt.integer(1);
    let yes = rt.boolean(true);
    let text = rt.string(3);
    let dict = rt.dict();
    let pi = rt.float(FloatLiteral { whole: 3, fraction: 14 });
    assert_eq!((one, yes, text, dict, pi), (10, 11, 12, 13, 14));
    assert_eq!(rt.objects[10].value, PyValue::Int(1));
    assert_eq!(rt.objects[10].type_id, TypeMap::INTEGER);
    assert_eq!(rt.objects[10].prototype, Some(rt.singletons.int_class));
    assert_eq!(rt.objects[11].prototype, Some(rt.singletons.bool_class));
    assert_eq!(rt.objects[12].value, PyValue::Str(3));
    assert_eq!(rt.objects[13].type_id, TypeMap::DICT);
    assert_eq!(rt.objects[13].prototype, Some(rt.singletons.obj_class));
    assert_eq!(rt.objects[14].prototype, Some(rt.singletons.int_class));
    let pair = rt.tuple(&mut types, &[one, yes]);
    assert_eq!(pair, 15);
    assert_eq!(rt.objects[15].value, PyValue::Tuple(2));
    assert_eq!(rt.objects[15].items.get(0), Some((0, one)));
    assert_eq!(rt.objects[15].items.get(1), Some((1, yes)));
    assert_eq!(rt.objects[15].prototype, Some(rt.singletons.str_class));
    assert!(matches!(
        types.get(rt.objects[15].type_id),
        Some(TypeDescriptor::Tuple { members }) if *members == vec![TypeMap::INTEGER, TypeMap::BOOL]
    ));
    assert!(rt.is_truthy(one));
    assert!(rt.is_truthy(yes));
    let two = rt.integer(2);
    let no = rt.boolean(false);
    assert!(!rt.is_truthy(two));
    assert!(!rt.is_truthy(no));
}

#[test]
fn names_resolve_innermost_first() {
    let mut rt = RuntimeContext::new();
    assert_eq!(rt.lookup(1), None);
    assert!(!rt.define(1, 10));
    let mut outer = DynamicScope::new(ScopeRoot::Module, ModuleRef("m.py".to_string()));
    outer.define(1, 100);
    outer.define(2, 200);
    assert_eq!(outer.lookup(1), Some(100));
    rt.push_scope(outer);
    rt.push_scope(DynamicScope::new(ScopeRoot::Func(0), ModuleRef("m.py".to_string())));
    assert!(rt.define(1, 111));
    assert_eq!(rt.lookup(1), Some(111));
    assert_eq!(rt.lookup(2), Some(200));
    assert_eq!(rt.lookup(3), None);
    assert_eq!(rt.scope().lookup(2), None);
    assert_eq!(rt.depth(), 2);
    let inner = rt.pop_scope().unwrap();
    assert_eq!(inner.lookup(1), Some(111));
    assert_eq!(rt.lookup(1), Some(100));
    assert!(rt.define(1, 101));
    assert_eq!(rt.lookup(1), Some(101));
}

struct Program {
    ast: Ast,
    interner: SpanInterner,
}

impl Program {
    fn new() -> Self {
        Program { ast: Ast::new(), interner: SpanInterner::new() }
    }

    fn name(&mut self, text: &[u8]) -> SpanRef {
        self.interner.intern(text, Span { start: 0, end: text.len() })
    }

    fn add(&mut self, node: AstNode) -> NodeId {
        self.ast.add(node, Span { start: 0, end: 0 }).unwrap()
    }

    fn var(&mut self, text: &[u8]) -> NodeId {
        let n = self.name(text);
        self.add(AstNode::Name(n))
    }

    fn def(&mut self, fname: &[u8], params: &[&[u8]], body: Vec<NodeId>) -> NodeId {
        let mut args = Vec::new();
        for p in params {
            let kind = self.var(b"int");
            let name = self.name(p);
            args.push(Argument { name, kind });
        }
        let name = self.name(fname);
        self.add(AstNode::FuncDef(FunctionDef {
            name,
            reciever: None,
            args,
            body,
            decorator_list: vec![],
            returns: None,
        }))
    }
}

fn int_of(rt: &RuntimeContext, id: u64) -> i64 {
    match rt.objects[id as usize].value {
        PyValue::Int(n) => n,
        other => panic!("{:?}", other),
    }
}

#[test]
fn arithmetic_is_evaluated() {
    let mut p = Program::new();
    let two = p.add(AstNode::Int(2));
    let three = p.add(AstNode::Int(3));
    let product = p.add(AstNode::BinOp { left: two, op: InfixOp::Mult, right: three });
    let four = p.add(AstNode::Int(4));
    let sum = p.add(AstNode::BinOp { left: product, op: InfixOp::Add, right: four });
    let mut rt = RuntimeContext::new();
    let result = rt.eval(&p.ast, sum, 10).unwrap();
    assert_eq!(int_of(&rt, result), 10);
    assert_eq!(result, 14);
    assert_eq!(rt.objects.len(), 15);

    let yes = p.add(AstNode::Bool(true));
    let one = p.add(AstNode::Int(1));
    let bad = p.add(AstNode::BinOp { left: yes, op: InfixOp::Add, right: one });
    assert_eq!(rt.eval(&p.ast, bad, 10), Err(PyErr::TypeError));
    let a = p.add(AstNode::Int(1));
    let b = p.add(AstNode::Int(2));
    let div = p.add(AstNode::BinOp { left: a, op: InfixOp::Div, right: b });
    assert_eq!(rt.eval(&p.ast, div, 10), Err(PyErr::TypeError));
}

#[test]
fn functions_are_called() {
    // def double(n): return n + n
    let mut p = Program::new();
    let n1 = p.var(b"n");
    let n2 = p.var(b"n");
    let sum = p.add(AstNode::BinOp { left: n1, op: InfixOp::Add, right: n2 });
    let ret = p.add(AstNode::Ret(Return { value: Some(sum) }));
    let double = p.def(b"double", &[b"n"], vec![ret]);
    let callee = p.var(b"double");
    let arg = p.add(AstNode::Int(21));
    let call = p.add(AstNode::Call { func: callee, args: vec![arg] });

    let mut rt = RuntimeContext::new();
    let function = rt.function(double);
    assert_eq!(rt.objects[function as usize].type_id, TypeMap::DYN_FUNC);
    let group = p.interner.find_group(b"double").unwrap();
    rt.push_scope(DynamicScope::new(ScopeRoot::Module, ModuleRef("m.py".to_string())));
    assert!(rt.define(group, function));
    let result = rt.eval(&p.ast, call, 4).unwrap();
    assert_eq!(int_of(&rt, result), 42);
    assert_eq!(rt.depth(), 1);
    assert_eq!(rt.lookup(p.interner.find_group(b"n").unwrap()), None);

    assert_eq!(rt.eval(&p.ast, call, 0), Err(PyErr::RecursionLimit));
    let callee2 = p.var(b"double");
    let none = p.add(AstNode::Call { func: callee2, args: vec![] });
    assert_eq!(rt.eval(&p.ast, none, 4), Err(PyErr::ArityError));
    let callee3 = p.var(b"missing");
    let unknown = p.add(AstNode::Call { func: callee3, args: vec![] });
    let missing = p.interner.find_group(b"missing").unwrap();
    assert_eq!(rt.eval(&p.ast, unknown, 4), Err(PyErr::NameError { name: missing }));
    let five = p.add(AstNode::Int(5));
    let not_callable = p.add(AstNode::Call { func: five, args: vec![] });
    assert_eq!(rt.eval(&p.ast, not_callable, 4), Err(PyErr::TypeError));
    assert_eq!(rt.depth(), 1);
}

#[test]
fn a_function_without_return_gives_none() {
    // def f(): x = 1
    let mut p = Program::new();
    let one = p.add(AstNode::Int(1));
    let x = p.name(b"x");
    let assign = p.add(AstNode::Assign(Assign { name: x, value: one, kind: None }));
    let f = p.def(b"f", &[], vec![assign]);
    let mut rt = RuntimeContext::new();
    assert_eq!(rt.call(&p.ast, f, &vec![], 1), Ok(rt.singletons.none));
    assert_eq!(rt.depth(), 0);
    let extra = rt.integer(1);
    assert_eq!(rt.call(&p.ast, f, &vec![extra], 1), Err(PyErr::ArityError));
    assert_eq!(rt.call(&p.ast, one, &vec![], 1), Err(PyErr::TypeError));
}

#[test]
fn recursion_runs_out_of_fuel() {
    // def loop(): return loop()
    let mut p = Program::new();
    let callee = p.var(b"loop");
    let call = p.add(AstNode::Call { func: callee, args: vec![] });
    let ret = p.add(AstNode::Ret(Return { value: Some(call) }));
    let def = p.def(b"loop", &[], vec![ret]);
    let mut rt = RuntimeContext::new();
    let function = rt.function(def);
    rt.push_scope(DynamicScope::new(ScopeRoot::Module, ModuleRef("m.py".to_string())));
    rt.define(p.interner.find_group(b"loop").unwrap(), function);
    assert_eq!(rt.call(&p.ast, def, &vec![], 50), Err(PyErr::RecursionLimit));
    assert_eq!(rt.depth(), 1);
}

#[test]
fn conditional_expressions_choose_an_arm() {
    let mut p = Program::new();
    let test = p.add(AstNode::Bool(false));
    let a = p.add(AstNode::Int(1));
    let b = p.add(AstNode::Int(2));
    let choice = p.add(AstNode::IfExpr { test, body: a, orelse: b });
    let mut rt = RuntimeContext::new();
    let result = rt.eval(&p.ast, choice, 1).unwrap();
    assert_eq!(int_of(&rt, result), 2);
    let one = p.add(AstNode::Int(1));
    let c = p.add(AstNode::Int(3));
    let d = p.add(AstNode::Int(4));
    let choice = p.add(AstNode::IfExpr { test: one, body: c, orelse: d });
    let result = rt.eval(&p.ast, choice, 1).unwrap();
    assert_eq!(int_of(&rt, result), 3);
    let none = p.add(AstNode::NoneLiteral);
    let e = p.add(AstNode::Int(5));
    let f = p.add(AstNode::Int(6));
    let bad = p.add(AstNode::IfExpr { test: none, body: e, orelse: f });
    assert_eq!(rt.eval(&p.ast, bad, 1), Err(PyErr::TypeError));
    let bare = p.add(AstNode::Ret(Return { value: None }));
    assert_eq!(rt.eval(&p.ast, bare, 1), Err(PyErr::Return(rt.singletons.none)));
    let unknown = p.add(AstNode::Ellipsis);
    assert_eq!(rt.eval(&p.ast, unknown, 1), Err(PyErr::Unsupported));
}
