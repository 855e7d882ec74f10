use montyc::ast::{Argument, Assign, AstNode, ClassDef, FunctionDef, InfixOp, Module, NodeId, Return};
use montyc::context::global::{BootstrapError, GlobalContext};
use montyc::context::ModuleRef;
use montyc::error::MontyError;
use montyc::flatcode::lower::{flatten_module, FlattenContext};
use montyc::flatcode::raw_inst::{PrivInst, RawInst};
use montyc::flatcode::SequenceType;
use montyc::func::Function;
use montyc::ribs::Ribs;
use montyc::scope::{Definition, LookupOrder, OpaqueScope};
use montyc::span::{Span, SpanRef};
use montyc::typechk::{find_operator_method, typecheck, NodeTypes, TypeEvalContext};
use montyc::typing::{TypeDescriptor, TypeMap};

const MARKER: [u8; 6] = [101, 120, 116, 101, 114, 110];

fn name(ctx: &mut GlobalContext, text: &[u8]) -> SpanRef {
    ctx.interner.intern(text, Span { start: 0, end: text.len() })
}

fn node(ctx: &mut GlobalContext, inner: AstNode) -> NodeId {
    let at = ctx.ast.len();
    ctx.ast.add(inner, Span { start: at, end: at + 1 }).unwrap()
}

fn named(ctx: &mut GlobalContext, text: &[u8]) -> NodeId {
    let n = name(ctx, text);
    node(ctx, AstNode::Name(n))
}

fn builtin_class(ctx: &mut GlobalContext, class: &[u8]) -> NodeId {
    let marker = named(ctx, &MARKER);
    let n = name(ctx, class);
    node(ctx, AstNode::ClassDef(ClassDef { name: n, decorator_list: vec![marker], body: vec![] }))
}

/// A compilation state in which `int`, `str` and `bool` are set up.
fn bootstrapped() -> GlobalContext {
    let mut ctx = GlobalContext::new();
    let int = builtin_class(&mut ctx, b"int");
    let string = builtin_class(&mut ctx, b"str");
    let boolean = builtin_class(&mut ctx, b"bool");
    let module = Module { body: vec![int, string, boolean] };
    let key = ModuleRef("builtins.py".to_string());
    ctx.register_module(module, key, Vec::new());
    let imports = ctx.preload(0).unwrap();
    assert!(imports.is_empty());
    ctx
}

fn register(ctx: &mut GlobalContext, body: Vec<NodeId>, path: &str) -> usize {
    let key = ModuleRef(path.to_string());
    assert!(ctx.module_index(&key).is_none());
    ctx.register_module(Module { body }, key, Vec::new());
    ctx.modules.len() - 1
}

/// `def <fname>(<params>: int ...) -> <returns>: <body>`
fn function_def(
    ctx: &mut GlobalContext,
    fname: &[u8],
    params: &[&[u8]],
    returns: Option<&[u8]>,
    body: Vec<NodeId>,
) -> NodeId {
    let mut args = Vec::new();
    for p in params {
        let kind = named(ctx, b"int");
        let pname = name(ctx, p);
        args.push(Argument { name: pname, kind });
    }
    let returns = returns.map(|r| named(ctx, r));
    let fname = name(ctx, fname);
    node(
        ctx,
        AstNode::FuncDef(FunctionDef {
            name: fname,
            reciever: None,
            args,
            body,
            decorator_list: vec![],
            returns,
        }),
    )
}

fn declare(ctx: &mut GlobalContext, module: usize, def: NodeId) -> Function {
    let mut ribs = Ribs::new();
    let limit = ctx.modules[module].scope.position_of(def);
    let cx = TypeEvalContext {
        ast: &ctx.ast,
        scope: &ctx.modules[module].scope,
        builtins: &ctx.builtins,
        declarations: &ctx.declarations,
        store: &ctx.store,
        interner: &ctx.interner,
        expected_return_value: TypeMap::NONE_TYPE,
        function: None,
    };
    let function = Function::declare(&cx, def, limit, &mut ctx.type_map, &mut ribs).unwrap();
    ctx.declarations.declare(def, function.kind);
    function
}

fn check(ctx: &mut GlobalContext, function: &Function) -> Result<(Ribs, Vec<Option<usize>>), MontyError> {
    function.typecheck(
        &ctx.ast,
        &ctx.builtins,
        &ctx.declarations,
        &ctx.store,
        &ctx.interner,
        &mut ctx.type_map,
    )
}

#[test]
fn preload_sets_up_the_builtin_classes() {
    let ctx = bootstrapped();
    assert_eq!(ctx.builtins.entries.len(), 3);
    assert_eq!(ctx.builtins.entries[0].type_id, TypeMap::INTEGER);
    assert_eq!(ctx.builtins.entries[1].type_id, TypeMap::STRING);
    assert_eq!(ctx.builtins.entries[2].type_id, TypeMap::BOOL);
    let add = find_operator_method(&ctx.store, &ctx.interner, TypeMap::INTEGER, InfixOp::Add);
    let sub = find_operator_method(&ctx.store, &ctx.interner, TypeMap::INTEGER, InfixOp::Sub);
    let mul = find_operator_method(&ctx.store, &ctx.interner, TypeMap::INTEGER, InfixOp::Mult);
    assert!(add.is_some() && sub.is_some() && mul.is_some());
    assert!(add != sub && sub != mul && add != mul);
    assert!(find_operator_method(&ctx.store, &ctx.interner, TypeMap::INTEGER, InfixOp::Div).is_none());
    assert!(find_operator_method(&ctx.store, &ctx.interner, TypeMap::STRING, InfixOp::Add).is_some());
    assert!(find_operator_method(&ctx.store, &ctx.interner, TypeMap::STRING, InfixOp::Sub).is_none());
    assert!(find_operator_method(&ctx.store, &ctx.interner, TypeMap::BOOL, InfixOp::Add).is_none());
    let t = ctx.store.type_of(add.unwrap()).unwrap();
    match ctx.type_map.get(t) {
        Some(TypeDescriptor::Function(f)) => {
            assert_eq!(f.args, vec![TypeMap::INTEGER]);
            assert_eq!(f.ret, TypeMap::INTEGER);
            assert_eq!(f.reciever, Some(TypeMap::INTEGER));
            assert_eq!(ctx.interner.resolve_ref(f.name), Some(&b"__add__"[..]));
        }
        other => panic!("not a function: {:?}", other),
    }
}

#[test]
fn preload_refuses_two_decorators() {
    let mut ctx = GlobalContext::new();
    let one = named(&mut ctx, &MARKER);
    let two = named(&mut ctx, &MARKER);
    let n = name(&mut ctx, b"int");
    let class = node(
        &mut ctx,
        AstNode::ClassDef(ClassDef { name: n, decorator_list: vec![one, two], body: vec![] }),
    );
    register(&mut ctx, vec![class], "builtins.py");
    assert_eq!(ctx.preload(0), Err(BootstrapError::MultipleDecorators { class }));
    assert!(ctx.builtins.entries.is_empty());
}

#[test]
fn preload_refuses_another_decorator() {
    let mut ctx = GlobalContext::new();
    let other = named(&mut ctx, b"dataclass");
    let n = name(&mut ctx, b"int");
    let class = node(
        &mut ctx,
        AstNode::ClassDef(ClassDef { name: n, decorator_list: vec![other], body: vec![] }),
    );
    register(&mut ctx, vec![class], "builtins.py");
    assert_eq!(ctx.preload(0), Err(BootstrapError::UnsupportedDecorator { class }));
}

#[test]
fn preload_refuses_an_unknown_builtin() {
    let mut ctx = GlobalContext::new();
    let class = builtin_class(&mut ctx, b"complex");
    register(&mut ctx, vec![class], "builtins.py");
    assert_eq!(ctx.preload(0), Err(BootstrapError::UnknownBuiltin { class }));
}

#[test]
fn preload_skips_plain_classes_and_hands_back_imports() {
    let mut ctx = GlobalContext::new();
    let n = name(&mut ctx, b"Plain");
    let plain = node(
        &mut ctx,
        AstNode::ClassDef(ClassDef { name: n, decorator_list: vec![], body: vec![] }),
    );
    let target = named(&mut ctx, b"typing");
    let import = node(
        &mut ctx,
        AstNode::Import(montyc::ast::Import { module: None, names: vec![target] }),
    );
    let float = builtin_class(&mut ctx, b"float");
    register(&mut ctx, vec![plain, import, float], "builtins.py");
    assert_eq!(ctx.preload(0), Ok(vec![import]));
    assert_eq!(ctx.builtins.entries.len(), 1);
    assert_eq!(ctx.builtins.entries[0].type_id, TypeMap::FLOAT);
    assert_eq!(ctx.builtins.entries[0].class, float);
}

#[test]
fn end_to_end_add() {
    let mut ctx = bootstrapped();
    let a = named(&mut ctx, b"a");
    let b = named(&mut ctx, b"b");
    let sum = node(&mut ctx, AstNode::BinOp { left: a, op: InfixOp::Add, right: b });
    let ret = node(&mut ctx, AstNode::Ret(Return { value: Some(sum) }));
    let def = function_def(&mut ctx, b"add", &[b"a", b"b"], Some(b"int"), vec![ret]);
    let module = register(&mut ctx, vec![def], "add.py");
    assert_eq!(ctx.modules[module].scope.nodes, vec![def]);

    let function = declare(&mut ctx, module, def);
    assert_eq!(function.ret, TypeMap::INTEGER);
    assert_eq!(function.scope.inner.nodes, vec![ret, sum, a, b]);
    match ctx.type_map.get(function.kind) {
        Some(TypeDescriptor::Function(f)) => {
            assert_eq!(f.args, vec![TypeMap::INTEGER, TypeMap::INTEGER]);
            assert_eq!(f.ret, TypeMap::INTEGER);
        }
        other => panic!("not a function: {:?}", other),
    }

    let (ribs, types) = check(&mut ctx, &function).unwrap();
    assert_eq!(types, vec![None, Some(TypeMap::INTEGER), Some(TypeMap::INTEGER), Some(TypeMap::INTEGER)]);
    assert_eq!(ribs.len(), 2);

    let mut node_types = NodeTypes::new(ctx.ast.len());
    node_types.record(&function.scope.inner.nodes, &types);
    assert_eq!(node_types.get(sum), Some(TypeMap::INTEGER));
    let globals = Vec::new();
    let cx = FlattenContext {
        ast: &ctx.ast,
        type_map: &ctx.type_map,
        node_types: &node_types.table,
        globals: &globals,
        store: &ctx.store,
        interner: &ctx.interner,
    };
    let (code, ribs) = flatten_module(&cx, &ctx.modules[module].module).unwrap();
    assert_eq!(code.sequences().len(), 2);
    assert_eq!(ribs.len(), 2);
    assert_eq!(code.sequences()[0].kind(), SequenceType::Module);
    assert_eq!(code.sequences()[1].kind(), SequenceType::Function);
    let top = code.sequences()[0].inst();
    assert_eq!(top.len(), 1);
    assert!(matches!(&top[0].op, RawInst::Defn { sequence_id: 1, params, .. } if params.len() == 2));

    let body = code.sequences()[1].inst();
    let add = find_operator_method(&ctx.store, &ctx.interner, TypeMap::INTEGER, InfixOp::Add).unwrap();
    assert_eq!(body.len(), 5);
    for (i, inst) in body.iter().enumerate() {
        assert_eq!(inst.value, i);
        assert!(!matches!(inst.op, RawInst::Const(_)));
    }
    assert!(matches!(body[0].op, RawInst::Privileged(PrivInst::UseLocal { var }) if var.group() == ctx.interner.find_group(b"a").unwrap()));
    assert!(matches!(body[1].op, RawInst::Privileged(PrivInst::UseLocal { var }) if var.group() == ctx.interner.find_group(b"b").unwrap()));
    assert_eq!(body[2].op, RawInst::Privileged(PrivInst::RefVal { val: add }));
    assert_eq!(body[3].op, RawInst::Call { callable: 2, arguments: vec![0, 1] });
    assert_eq!(body[3].attrs.type_id, Some(TypeMap::INTEGER));
    assert_eq!(body[4].op, RawInst::Return { value: 3 });
    let calls = body.iter().filter(|i| matches!(i.op, RawInst::Call { .. })).count();
    let returns = body.iter().filter(|i| matches!(i.op, RawInst::Return { .. })).count();
    assert_eq!((calls, returns), (1, 1));
    assert!(ribs[1].get(ctx.interner.find_group(b"a").unwrap()).is_some());
    assert!(ribs[1].get(ctx.interner.find_group(b"b").unwrap()).is_some());
}

#[test]
fn call_with_a_wrong_argument_type() {
    let mut ctx = bootstrapped();
    let a = named(&mut ctx, b"a");
    let ret = node(&mut ctx, AstNode::Ret(Return { value: Some(a) }));
    let def = function_def(&mut ctx, b"f", &[b"a"], Some(b"int"), vec![ret]);
    let callee = named(&mut ctx, b"f");
    let text = name(&mut ctx, b"\"s\"");
    let arg = node(&mut ctx, AstNode::Str(text));
    let bad = node(&mut ctx, AstNode::Call { func: callee, args: vec![arg] });
    let callee2 = named(&mut ctx, b"f");
    let one = node(&mut ctx, AstNode::Int(1));
    let good = node(&mut ctx, AstNode::Call { func: callee2, args: vec![one] });
    let callee3 = named(&mut ctx, b"f");
    let none = node(&mut ctx, AstNode::Call { func: callee3, args: vec![] });
    let module = register(&mut ctx, vec![def, bad, good, none], "call.py");
    let _ = declare(&mut ctx, module, def);

    let mut ribs = Ribs::new();
    let cx = TypeEvalContext {
        ast: &ctx.ast,
        scope: &ctx.modules[module].scope,
        builtins: &ctx.builtins,
        declarations: &ctx.declarations,
        store: &ctx.store,
        interner: &ctx.interner,
        expected_return_value: TypeMap::NONE_TYPE,
        function: None,
    };
    let at = cx.scope.position_of(bad);
    assert_eq!(
        typecheck(&cx, bad, at, &mut ctx.type_map, &mut ribs),
        Err(MontyError::BadArgumentType {
            expected: TypeMap::INTEGER,
            actual: TypeMap::STRING,
            index: 0,
            arg_node: arg,
            def_node: Some(def),
        })
    );
    let at = cx.scope.position_of(good);
    assert_eq!(typecheck(&cx, good, at, &mut ctx.type_map, &mut ribs), Ok(Some(TypeMap::INTEGER)));
    let at = cx.scope.position_of(none);
    assert_eq!(
        typecheck(&cx, none, at, &mut ctx.type_map, &mut ribs),
        Err(MontyError::BadArgumentType {
            expected: TypeMap::INTEGER,
            actual: TypeMap::UNKNOWN,
            index: 0,
            arg_node: none,
            def_node: Some(def),
        })
    );
}

#[test]
fn missing_return_is_reported() {
    let mut ctx = bootstrapped();
    let pass = node(&mut ctx, AstNode::Pass);
    let def = function_def(&mut ctx, b"g", &[], Some(b"int"), vec![pass]);
    let module = register(&mut ctx, vec![def], "g.py");
    let function = declare(&mut ctx, module, def);
    assert_eq!(
        check(&mut ctx, &function).err(),
        Some(MontyError::MissingReturn {
            expected: TypeMap::INTEGER,
            actual: TypeMap::NONE_TYPE,
            def_node: Some(def),
        })
    );
}

#[test]
fn returning_a_string_from_an_int_function() {
    let mut ctx = bootstrapped();
    let text = name(&mut ctx, b"\"s\"");
    let value = node(&mut ctx, AstNode::Str(text));
    let ret = node(&mut ctx, AstNode::Ret(Return { value: Some(value) }));
    let def = function_def(&mut ctx, b"g", &[], Some(b"int"), vec![ret]);
    let module = register(&mut ctx, vec![def], "g.py");
    let function = declare(&mut ctx, module, def);
    assert_eq!(
        check(&mut ctx, &function).err(),
        Some(MontyError::BadReturnType {
            expected: TypeMap::INTEGER,
            actual: TypeMap::STRING,
            ret_node: ret,
            def_node: Some(def),
        })
    );
}

#[test]
fn returning_an_int_passes() {
    let mut ctx = bootstrapped();
    let value = node(&mut ctx, AstNode::Int(7));
    let ret = node(&mut ctx, AstNode::Ret(Return { value: Some(value) }));
    let def = function_def(&mut ctx, b"g", &[], Some(b"int"), vec![ret]);
    let module = register(&mut ctx, vec![def], "g.py");
    let function = declare(&mut ctx, module, def);
    let (_, types) = check(&mut ctx, &function).unwrap();
    assert_eq!(types, vec![None, Some(TypeMap::INTEGER)]);
}

#[test]
fn bare_return_in_a_function_without_annotation() {
    let mut ctx = bootstrapped();
    let ret = node(&mut ctx, AstNode::Ret(Return { value: None }));
    let def = function_def(&mut ctx, b"g", &[], None, vec![ret]);
    let module = register(&mut ctx, vec![def], "g.py");
    let function = declare(&mut ctx, module, def);
    assert_eq!(function.ret, TypeMap::NONE_TYPE);
    assert!(check(&mut ctx, &function).is_ok());
    let pass = node(&mut ctx, AstNode::Pass);
    let def2 = function_def(&mut ctx, b"h", &[], None, vec![pass]);
    let module2 = register(&mut ctx, vec![def2], "h.py");
    let function2 = declare(&mut ctx, module2, def2);
    assert!(check(&mut ctx, &function2).is_ok());
}

fn assign(ctx: &mut GlobalContext, target: &[u8], value: NodeId) -> NodeId {
    let n = name(ctx, target);
    node(ctx, AstNode::Assign(Assign { name: n, value, kind: None }))
}

#[test]
fn a_second_type_for_one_name_is_refused() {
    let mut ctx = bootstrapped();
    let one = node(&mut ctx, AstNode::Int(1));
    let first = assign(&mut ctx, b"x", one);
    let text = name(&mut ctx, b"\"s\"");
    let s = node(&mut ctx, AstNode::Str(text));
    let second = assign(&mut ctx, b"x", s);
    let def = function_def(&mut ctx, b"g", &[], None, vec![first, second]);
    let module = register(&mut ctx, vec![def], "g.py");
    let function = declare(&mut ctx, module, def);
    let x = match ctx.ast.get(second).map(|n| &n.inner) {
        Some(AstNode::Assign(a)) => a.name,
        _ => unreachable!(),
    };
    assert_eq!(
        check(&mut ctx, &function).err(),
        Some(MontyError::IncompatibleReassignment {
            name: x,
            first_assigned: ctx.ast.get(first).unwrap().span,
            incorrectly_reassigned: ctx.ast.get(second).unwrap().span,
            expected: TypeMap::INTEGER,
            actual: TypeMap::STRING,
        })
    );
}

#[test]
fn the_same_type_again_is_accepted() {
    let mut ctx = bootstrapped();
    let one = node(&mut ctx, AstNode::Int(1));
    let first = assign(&mut ctx, b"x", one);
    let two = node(&mut ctx, AstNode::Int(2));
    let second = assign(&mut ctx, b"x", two);
    let def = function_def(&mut ctx, b"g", &[], None, vec![first, second]);
    let module = register(&mut ctx, vec![def], "g.py");
    let function = declare(&mut ctx, module, def);
    let (ribs, _) = check(&mut ctx, &function).unwrap();
    let x = ctx.interner.find_group(b"x").unwrap();
    let entry = ribs.get(x).unwrap();
    assert_eq!(entry.type_id, TypeMap::INTEGER);
    assert_eq!(entry.span, ctx.ast.get(first).unwrap().span);
    assert_eq!(ribs.len(), 1);
}

#[test]
fn an_annotation_must_agree_with_the_value() {
    let mut ctx = bootstrapped();
    let one = node(&mut ctx, AstNode::Int(1));
    let kind = named(&mut ctx, b"str");
    let x = ctx.interner.intern(b"x", Span { start: 40, end: 41 });
    let bad = node(&mut ctx, AstNode::Assign(Assign { name: x, value: one, kind: Some(kind) }));
    let two = node(&mut ctx, AstNode::Int(2));
    let kind2 = named(&mut ctx, b"int");
    let y = name(&mut ctx, b"y");
    let good = node(&mut ctx, AstNode::Assign(Assign { name: y, value: two, kind: Some(kind2) }));
    let module = register(&mut ctx, vec![good, bad], "m.py");
    let mut ribs = Ribs::new();
    let cx = TypeEvalContext {
        ast: &ctx.ast,
        scope: &ctx.modules[module].scope,
        builtins: &ctx.builtins,
        declarations: &ctx.declarations,
        store: &ctx.store,
        interner: &ctx.interner,
        expected_return_value: TypeMap::NONE_TYPE,
        function: None,
    };
    assert_eq!(typecheck(&cx, good, 0, &mut ctx.type_map, &mut ribs), Ok(Some(TypeMap::NEVER)));
    assert_ne!(ctx.ast.get(bad).unwrap().span, Span { start: 40, end: 41 });
    assert_eq!(
        typecheck(&cx, bad, 3, &mut ctx.type_map, &mut ribs),
        Err(MontyError::IncompatibleTypes {
            left_span: Span { start: 40, end: 41 },
            left: TypeMap::STRING,
            right_span: ctx.ast.get(one).unwrap().span,
            right: TypeMap::INTEGER,
        })
    );
    assert!(ribs.get(ctx.interner.find_group(b"x").unwrap()).is_none());
}

#[test]
fn lookup_honours_control_flow() {
    // x = 1; y = x; x = "s"
    let mut ctx = bootstrapped();
    let one = node(&mut ctx, AstNode::Int(1));
    let first = assign(&mut ctx, b"x", one);
    let x_use = named(&mut ctx, b"x");
    let second = assign(&mut ctx, b"y", x_use);
    let text = name(&mut ctx, b"\"s\"");
    let s = node(&mut ctx, AstNode::Str(text));
    let third = assign(&mut ctx, b"x", s);
    let module = Module { body: vec![first, second, third] };
    let scope = OpaqueScope::from_module(&ctx.ast, &module, ModuleRef("m.py".to_string()));
    assert_eq!(scope.nodes, vec![first, one, second, x_use, third, s]);
    let x = ctx.interner.str_to_spanref(b"x");

    let found = scope.lookup_def(&ctx.ast, x, &ctx.builtins, LookupOrder::ControlFlowSensitive(x_use));
    assert_eq!(found, vec![Definition::Node(first)]);
    let found = scope.lookup_def(&ctx.ast, x, &ctx.builtins, LookupOrder::ControlFlowSensitive(second));
    assert_eq!(found, vec![Definition::Node(first)]);
    let found = scope.lookup_def(&ctx.ast, x, &ctx.builtins, LookupOrder::ControlFlowSensitive(s));
    assert_eq!(found, vec![Definition::Node(third)]);
    let found = scope.lookup_def(&ctx.ast, x, &ctx.builtins, LookupOrder::ControlFlowSensitive(first));
    assert_eq!(found, vec![]);
    let found = scope.lookup_def(&ctx.ast, x, &ctx.builtins, LookupOrder::Unspecified);
    assert_eq!(found, vec![Definition::Node(first), Definition::Node(third)]);
    let found = scope.lookup_any(&ctx.ast, x, &ctx.builtins);
    assert_eq!(
        found,
        vec![Definition::Node(first), Definition::Node(x_use), Definition::Node(third)]
    );

    // The type of `x` at `y = x` is that of the first assignment.
    let mut ribs = Ribs::new();
    let cx = TypeEvalContext {
        ast: &ctx.ast,
        scope: &scope,
        builtins: &ctx.builtins,
        declarations: &ctx.declarations,
        store: &ctx.store,
        interner: &ctx.interner,
        expected_return_value: TypeMap::NONE_TYPE,
        function: None,
    };
    let at = scope.position_of(x_use);
    assert_eq!(at, 3);
    assert_eq!(typecheck(&cx, x_use, at, &mut ctx.type_map, &mut ribs), Ok(Some(TypeMap::INTEGER)));
    let after = scope.position_of(s);
    assert_eq!(typecheck(&cx, x_use, after + 1, &mut ctx.type_map, &mut ribs), Ok(Some(TypeMap::STRING)));
}

#[test]
fn builtins_are_found_under_the_local_name() {
    let mut ctx = bootstrapped();
    let use_int = named(&mut ctx, b"int");
    let module = Module { body: vec![use_int] };
    let scope = OpaqueScope::from_module(&ctx.ast, &module, ModuleRef("m.py".to_string()));
    let target = match ctx.ast.get(use_int).map(|n| &n.inner) {
        Some(AstNode::Name(n)) => *n,
        _ => unreachable!(),
    };
    let found = scope.lookup_def(&ctx.ast, target, &ctx.builtins, LookupOrder::Unspecified);
    assert_eq!(found.len(), 1);
    match found[0] {
        Definition::Renamed(r) => {
            assert_eq!(r.name, target);
            assert_eq!(r.inner.type_id, TypeMap::INTEGER);
            assert_ne!(r.inner.name, target);
        }
        other => panic!("{:?}", other),
    }
    assert_eq!(ctx.is_builtin(target), Some(TypeMap::INTEGER));
    let unknown = ctx.interner.str_to_spanref(b"nothing");
    assert_eq!(ctx.is_builtin(unknown), None);
}

#[test]
fn undefined_and_unknown_names() {
    let mut ctx = bootstrapped();
    let z = named(&mut ctx, b"z");
    let module = register(&mut ctx, vec![z], "m.py");
    let mut ribs = Ribs::new();
    let cx = TypeEvalContext {
        ast: &ctx.ast,
        scope: &ctx.modules[module].scope,
        builtins: &ctx.builtins,
        declarations: &ctx.declarations,
        store: &ctx.store,
        interner: &ctx.interner,
        expected_return_value: TypeMap::NONE_TYPE,
        function: None,
    };
    assert_eq!(
        typecheck(&cx, z, 0, &mut ctx.type_map, &mut ribs),
        Err(MontyError::UndefinedVariable { node: z })
    );
    let group = ctx.interner.find_group(b"z").unwrap();
    ribs.add(group, TypeMap::UNKNOWN, Span { start: 0, end: 0 }).unwrap();
    assert_eq!(
        typecheck(&cx, z, 0, &mut ctx.type_map, &mut ribs),
        Err(MontyError::UnknownType { node: z })
    );
}

#[test]
fn binary_operators_resolve_through_the_class() {
    let mut ctx = bootstrapped();
    let one = node(&mut ctx, AstNode::Int(1));
    let two = node(&mut ctx, AstNode::Int(2));
    let sum = node(&mut ctx, AstNode::BinOp { left: one, op: InfixOp::Add, right: two });
    let text = name(&mut ctx, b"\"s\"");
    let s = node(&mut ctx, AstNode::Str(text));
    let three = node(&mut ctx, AstNode::Int(3));
    let repeated = node(&mut ctx, AstNode::BinOp { left: s, op: InfixOp::Mult, right: three });
    let four = node(&mut ctx, AstNode::Int(4));
    let text2 = name(&mut ctx, b"\"t\"");
    let t = node(&mut ctx, AstNode::Str(text2));
    let bad = node(&mut ctx, AstNode::BinOp { left: four, op: InfixOp::Add, right: t });
    let five = node(&mut ctx, AstNode::Int(5));
    let six = node(&mut ctx, AstNode::Int(6));
    let div = node(&mut ctx, AstNode::BinOp { left: five, op: InfixOp::Div, right: six });
    let module = register(&mut ctx, vec![sum, repeated, bad, div], "m.py");
    let mut ribs = Ribs::new();
    let cx = TypeEvalContext {
        ast: &ctx.ast,
        scope: &ctx.modules[module].scope,
        builtins: &ctx.builtins,
        declarations: &ctx.declarations,
        store: &ctx.store,
        interner: &ctx.interner,
        expected_return_value: TypeMap::NONE_TYPE,
        function: None,
    };
    assert_eq!(typecheck(&cx, sum, 0, &mut ctx.type_map, &mut ribs), Ok(Some(TypeMap::INTEGER)));
    assert_eq!(typecheck(&cx, repeated, 0, &mut ctx.type_map, &mut ribs), Ok(Some(TypeMap::STRING)));
    assert_eq!(
        typecheck(&cx, bad, 0, &mut ctx.type_map, &mut ribs),
        Err(MontyError::BadBinaryOp {
            span: ctx.ast.get(bad).unwrap().span,
            left: TypeMap::INTEGER,
            right: TypeMap::STRING,
            op: InfixOp::Add,
        })
    );
    assert_eq!(
        typecheck(&cx, div, 0, &mut ctx.type_map, &mut ribs),
        Err(MontyError::BadBinaryOp {
            span: ctx.ast.get(div).unwrap().span,
            left: TypeMap::INTEGER,
            right: TypeMap::INTEGER,
            op: InfixOp::Div,
        })
    );
}

#[test]
fn tuples_and_conditional_expressions() {
    let mut ctx = bootstrapped();
    let one = node(&mut ctx, AstNode::Int(1));
    let yes = node(&mut ctx, AstNode::Bool(true));
    let pair = node(&mut ctx, AstNode::Tuple(vec![one, yes]));
    let two = node(&mut ctx, AstNode::Int(2));
    let no = node(&mut ctx, AstNode::Bool(false));
    let pair2 = node(&mut ctx, AstNode::Tuple(vec![two, no]));
    let t = node(&mut ctx, AstNode::Bool(true));
    let a = node(&mut ctx, AstNode::Int(3));
    let b = node(&mut ctx, AstNode::Int(4));
    let same = node(&mut ctx, AstNode::IfExpr { test: t, body: a, orelse: b });
    let t2 = node(&mut ctx, AstNode::Bool(true));
    let c = node(&mut ctx, AstNode::Int(5));
    let d = node(&mut ctx, AstNode::NoneLiteral);
    let mixed = node(&mut ctx, AstNode::IfExpr { test: t2, body: c, orelse: d });
    let module = register(&mut ctx, vec![pair, pair2, same, mixed], "m.py");
    let mut ribs = Ribs::new();
    let cx = TypeEvalContext {
        ast: &ctx.ast,
        scope: &ctx.modules[module].scope,
        builtins: &ctx.builtins,
        declarations: &ctx.declarations,
        store: &ctx.store,
        interner: &ctx.interner,
        expected_return_value: TypeMap::NONE_TYPE,
        function: None,
    };
    let first = typecheck(&cx, pair, 0, &mut ctx.type_map, &mut ribs).unwrap().unwrap();
    let second = typecheck(&cx, pair2, 0, &mut ctx.type_map, &mut ribs).unwrap().unwrap();
    assert_eq!(first, second);
    assert!(matches!(
        ctx.type_map.get(first),
        Some(TypeDescriptor::Tuple { members }) if *members == vec![TypeMap::INTEGER, TypeMap::BOOL]
    ));
    assert_eq!(typecheck(&cx, same, 0, &mut ctx.type_map, &mut ribs), Ok(Some(TypeMap::INTEGER)));
    assert_eq!(
        typecheck(&cx, mixed, 0, &mut ctx.type_map, &mut ribs),
        Err(MontyError::InferenceFailure)
    );
}
