use montyc::ast::AstNode;
use montyc::codegen::lower::{BuilderContext, FuncIds, LowOp, StackSlot};
use montyc::context::global::GlobalContext;
use montyc::context::ModuleRef;
use montyc::error::MontyError;
use montyc::flatcode::lower::{flatten_module, FlattenContext};
use montyc::flatcode::SequenceType;
use montyc::parser::token::PyToken;
use montyc::parser::token_iter::refine;
use montyc::parser::Token;
use montyc::span::{Span, SpanInterner};
use montyc::interpreter::object_graph::Value;
use montyc::ribs::Ribs;
use montyc::typechk::{find_operator_method, infer_call_type, typecheck, NodeTypes, TypeEvalContext};
use montyc::ast::InfixOp;
use montyc::typing::TypeMap;

const MARKER: [u8; 6] = [101, 120, 116, 101, 114, 110];

fn keyword(text: &[u8]) -> PyToken {
    match text {
        b"import" => PyToken::Import,
        b"from" => PyToken::From,
        b"True" => PyToken::True,
        b"def" => PyToken::FnDef,
        b"class" => PyToken::ClassDef,
        b"if" => PyToken::If,
        b"else" => PyToken::Else,
        b"return" => PyToken::Return,
        b"pass" => PyToken::Pass,
        _ => PyToken::RawIdent,
    }
}

fn tokens_of(source: &str, interner: &mut SpanInterner) -> Vec<Token> {
    let bytes = source.as_bytes();
    let mut tokens = Vec::new();
    let mut i = 0;
    while i < bytes.len() {
        let c = bytes[i];
        let mut end = i + 1;
        let raw = if c.is_ascii_alphabetic() || c == b'_' {
            while end < bytes.len() && (bytes[end].is_ascii_alphanumeric() || bytes[end] == b'_') {
                end += 1;
            }
            keyword(&bytes[i..end])
        } else if c.is_ascii_digit() {
            while end < bytes.len() && bytes[end].is_ascii_digit() {
                end += 1;
            }
            PyToken::Digits(source[i..end].parse().unwrap())
        } else if source[i..].starts_with("...") {
            end = i + 3;
            PyToken::Ellipsis
        } else {
            match c {
                b' ' => PyToken::Whitespace,
                b'\n' => PyToken::Newline,
                b'.' => PyToken::Dot,
                b',' => PyToken::Comma,
                b':' => PyToken::Colon,
                b'(' => PyToken::LParen,
                b')' => PyToken::RParen,
                b'-' => PyToken::Minus,
                b'+' => PyToken::Plus,
                b'=' => PyToken::Equal,
                b'>' => PyToken::GreaterThan,
                b'@' => PyToken::At,
                _ => PyToken::Invalid,
            }
        };
        let refined = refine(Token { token: raw, span: Span { start: i, end } }, bytes, interner).unwrap();
        tokens.push(refined.token);
        i = end + refined.skip;
    }
    tokens
}

fn load(ctx: &mut GlobalContext, source: &str, path: &str) -> usize {
    let tokens = tokens_of(source, &mut ctx.interner);
    let key = ModuleRef(path.to_string());
    ctx.parse_and_register_module(&tokens, key, source.as_bytes().to_vec()).unwrap()
}

/// A compilation state with the builtin classes, read from source.
fn started() -> GlobalContext {
    let marker = String::from_utf8(MARKER.to_vec()).unwrap();
    let mut source = String::new();
    for class in ["int", "str", "bool"] {
        source.push_str(&format!("@{}\nclass {}: ...\n\n", marker, class));
    }
    let mut ctx = GlobalContext::new();
    let builtins = load(&mut ctx, &source, "builtins.py");
    assert_eq!(ctx.preload(builtins), Ok(vec![]));
    ctx
}

fn check_all(ctx: &mut GlobalContext, module: usize) -> Result<NodeTypes, MontyError> {
    let mut node_types = NodeTypes::new(ctx.ast.len());
    for def in ctx.walk(module) {
        let (_, types) = ctx.check_function(module, def)?;
        let function = ctx.functions.last().unwrap();
        node_types.record(&function.scope.inner.nodes, &types);
        let (annotations, found) = function.annotations(&ctx.ast);
        node_types.record(&annotations, &found);
    }
    Ok(node_types)
}

#[test]
fn the_builtin_classes_are_read_from_source() {
    let ctx = started();
    assert_eq!(ctx.builtins.entries.len(), 3);
    assert_eq!(ctx.builtins.entries[0].type_id, TypeMap::INTEGER);
    assert_eq!(ctx.builtins.entries[1].type_id, TypeMap::STRING);
    assert_eq!(ctx.builtins.entries[2].type_id, TypeMap::BOOL);
    assert!(ctx.walk(0).is_empty());
}

#[test]
fn from_source_to_a_plan() {
    let mut ctx = started();
    let module = load(&mut ctx, "def add(a: int, b: int) -> int:\n    return a + b\n", "add.py");
    let defs = ctx.walk(module);
    assert_eq!(defs, ctx.modules[module].module.body);
    assert_eq!(defs.len(), 1);
    let node_types = check_all(&mut ctx, module).unwrap();
    assert_eq!(ctx.functions.len(), 1);
    assert_eq!(ctx.functions[0].def, defs[0]);
    assert_eq!(ctx.functions[0].ret, TypeMap::INTEGER);
    assert_eq!(ctx.declarations.get(defs[0]), Some(ctx.functions[0].kind));

    let globals = Vec::new();
    let cx = FlattenContext {
        ast: &ctx.ast,
        type_map: &ctx.type_map,
        node_types: &node_types.table,
        globals: &globals,
        store: &ctx.store,
        interner: &ctx.interner,
    };
    let (code, ribs) = flatten_module(&cx, &ctx.modules[module].module).unwrap();
    assert_eq!(code.sequences().len(), 2);
    assert_eq!(code.sequences()[1].kind(), SequenceType::Function);

    let names: Vec<_> = ctx.functions[0].params.iter().map(|p| p.0).collect();
    let add = find_operator_method(&ctx.store, &ctx.interner, TypeMap::INTEGER, InfixOp::Add).unwrap();
    let mut fids = FuncIds::new();
    fids.declare(add, 0);
    let builder = BuilderContext {
        code: &code.sequences()[1],
        type_map: &ctx.type_map,
        store: &ctx.store,
        rib: &ribs[1],
        recv: None,
        args: &names,
        fids: &fids,
    };
    let plan = builder.build().unwrap();
    let a = ctx.interner.find_group(b"a").unwrap();
    let b = ctx.interner.find_group(b"b").unwrap();
    assert_eq!(
        plan.slots,
        vec![
            StackSlot { name: a, type_id: TypeMap::INTEGER, size: 16, param: Some(0) },
            StackSlot { name: b, type_id: TypeMap::INTEGER, size: 16, param: Some(1) },
        ]
    );
    assert_eq!(
        plan.ops,
        vec![
            (0, LowOp::StackLoad { slot: 0 }),
            (1, LowOp::StackLoad { slot: 1 }),
            (2, LowOp::DeclareFunc { val: add }),
            (3, LowOp::Call { func: add, inst: 3 }),
            (4, LowOp::Return { value: 3 }),
        ]
    );
}

#[test]
fn the_first_fault_of_a_function_is_reported() {
    let mut ctx = started();
    let source = "def f(a: int) -> int:\n    return a\n\ndef g(a: int) -> str:\n    return a\n\ndef h() -> int:\n    pass\n";
    let module = load(&mut ctx, source, "faults.py");
    let defs = ctx.walk(module);
    assert_eq!(defs.len(), 3);
    assert!(ctx.check_function(module, defs[0]).is_ok());
    match ctx.check_function(module, defs[1]) {
        Err(MontyError::BadReturnType { expected, actual, def_node, .. }) => {
            assert_eq!((expected, actual), (TypeMap::STRING, TypeMap::INTEGER));
            assert_eq!(def_node, Some(defs[1]));
        }
        other => panic!("{:?}", other.err()),
    }
    match ctx.check_function(module, defs[2]) {
        Err(MontyError::MissingReturn { expected, actual, def_node }) => {
            assert_eq!((expected, actual), (TypeMap::INTEGER, TypeMap::NONE_TYPE));
            assert_eq!(def_node, Some(defs[2]));
        }
        other => panic!("{:?}", other.err()),
    }
    assert_eq!(ctx.functions.len(), 3);
    assert!(defs.iter().all(|d| ctx.declarations.get(*d).is_some()));
    assert!(check_all(&mut started(), 0).is_ok());
}

#[test]
fn only_definitions_can_be_checked_as_functions() {
    let mut ctx = started();
    let module = load(&mut ctx, "x = 1\ndef f(): pass\ny = 2\n", "mixed.py");
    let body = ctx.modules[module].module.body.clone();
    assert_eq!(body.len(), 3);
    assert_eq!(ctx.walk(module), vec![body[1]]);
    assert!(matches!(ctx.ast.get(body[0]).unwrap().inner, AstNode::Assign(_)));
    let types = ctx.type_map.len();
    assert_eq!(ctx.check_function(module, body[0]).err(), Some(MontyError::InferenceFailure));
    assert_eq!(ctx.check_function(module, ctx.ast.len()).err(), Some(MontyError::InferenceFailure));
    assert!(ctx.functions.is_empty());
    assert!(body.iter().all(|n| ctx.declarations.get(*n).is_none()));
    assert_eq!(ctx.type_map.len(), types);
    let (ribs, found) = ctx.check_function(module, body[1]).unwrap();
    assert_eq!(ribs.len(), 0);
    assert_eq!(found, vec![None]);
    assert_eq!(ctx.functions.len(), 1);
    let (top, _) = ctx.check_module(module).unwrap();
    assert_eq!(top.len(), 2);
}

#[test]
fn a_module_can_call_the_functions_it_declared() {
    let mut ctx = started();
    let module = load(&mut ctx, "def one() -> int:\n    return 1\n\nx = one()\n", "calls.py");
    let defs = ctx.walk(module);
    assert!(ctx.check_function(module, defs[0]).is_ok());
    let (ribs, _) = ctx.check_module(module).unwrap();
    let x = ctx.interner.find_group(b"x").unwrap();
    assert_eq!(ribs.get(x).unwrap().type_id, TypeMap::INTEGER);

    let mut ctx = started();
    let module = load(&mut ctx, "def one() -> int:\n    return 1\n\ny = one(2)\n", "arity.py");
    let defs = ctx.walk(module);
    assert!(ctx.check_function(module, defs[0]).is_ok());
    assert!(matches!(
        ctx.check_module(module),
        Err(MontyError::BadArgumentType { index: 0, actual: TypeMap::INTEGER, .. })
    ));
}

#[test]
fn imports_name_the_modules_they_ask_for() {
    let mut ctx = GlobalContext::new();
    let module = load(&mut ctx, "import a.b, c\nfrom x.y import z, w\nv = 1\n", "imports.py");
    let body = ctx.modules[module].module.body.clone();
    assert_eq!(
        ctx.import_targets(body[0]),
        Some(vec![vec![b"a".to_vec(), b"b".to_vec()], vec![b"c".to_vec()]])
    );
    assert_eq!(
        ctx.import_targets(body[1]),
        Some(vec![
            vec![b"x".to_vec(), b"y".to_vec(), b"z".to_vec()],
            vec![b"x".to_vec(), b"y".to_vec(), b"w".to_vec()],
        ])
    );
    assert_eq!(ctx.import_targets(body[2]), None);
    assert_eq!(ctx.import_targets(ctx.ast.len()), None);
}

#[test]
fn the_annotations_of_a_signature_get_their_types() {
    let mut ctx = started();
    let module = load(&mut ctx, "def f(a: int, b: str) -> bool:\n    return True\n", "sig.py");
    let def = ctx.walk(module)[0];
    assert!(ctx.check_function(module, def).is_ok());
    let function = ctx.functions.last().unwrap();
    let (nodes, types) = function.annotations(&ctx.ast);
    assert_eq!(types, vec![Some(TypeMap::INTEGER), Some(TypeMap::STRING), Some(TypeMap::BOOL)]);
    assert_eq!(nodes.len(), 3);
    for node in &nodes {
        assert!(matches!(ctx.ast.get(*node).unwrap().inner, AstNode::Name(_)));
    }
    assert!(nodes[0] < nodes[1] && nodes[1] < nodes[2] && nodes[2] < def);
}

#[test]
fn a_module_is_read_once() {
    let mut ctx = GlobalContext::new();
    let first = load(&mut ctx, "x = 1\n", "once.py");
    let nodes = ctx.ast.len();
    assert_eq!(first, 0);
    assert_eq!(ctx.modules[0].source, b"x = 1\n".to_vec());
    assert_eq!(ctx.modules[0].module.body, vec![nodes - 1]);
    assert_eq!(ctx.modules[0].scope.nodes.len(), 2);
    assert_eq!(load(&mut ctx, "y = 2\nz = 3\n", "once.py"), 0);
    assert_eq!(ctx.ast.len(), nodes);
    assert_eq!(ctx.modules.len(), 1);
    assert_eq!(load(&mut ctx, "y = 2\nz = 3\n", "twice.py"), 1);
    assert_eq!(ctx.modules[1].module.body.len(), 2);

    let tokens = tokens_of("x = = 1\n", &mut ctx.interner);
    let nodes = ctx.ast.len();
    let key = ModuleRef("broken.py".to_string());
    assert!(ctx.parse_and_register_module(&tokens, key, Vec::new()).is_err());
    assert_eq!(ctx.ast.len(), nodes);
    assert_eq!(ctx.modules.len(), 2);
    assert!(ctx.module_index(&ModuleRef("broken.py".to_string())).is_none());
}

#[test]
fn an_annotation_mismatch_is_shown_at_the_name() {
    let mut ctx = started();
    let module = load(&mut ctx, "count: str = 1\n", "mismatch.py");
    let statement = ctx.modules[module].module.body[0];
    assert_eq!(ctx.ast.get(statement).unwrap().span, Span { start: 0, end: 14 });
    match ctx.check_module(module) {
        Err(MontyError::IncompatibleTypes { left_span, left, right_span, right }) => {
            assert_eq!(left_span, Span { start: 0, end: 5 });
            assert_eq!(right_span, Span { start: 13, end: 14 });
            assert_eq!((left, right), (TypeMap::STRING, TypeMap::INTEGER));
        }
        other => panic!("{:?}", other.err()),
    }
    let module = load(&mut ctx, "count: int = 1\nother = 2\n", "agreeing.py");
    let (ribs, types) = ctx.check_module(module).unwrap();
    assert_eq!(ribs.len(), 2);
    assert_eq!(types.iter().filter(|t| **t == Some(TypeMap::NEVER)).count(), 2);
}

#[test]
fn a_function_calls_a_function_of_its_module() {
    let mut ctx = started();
    let source = "def one() -> int:\n    return 1\n\ndef two(a: int) -> int:\n    return one() + a\n\ndef bad() -> int:\n    return one(2)\n\ndef lost() -> int:\n    return three()\n";
    let module = load(&mut ctx, source, "calls.py");
    let defs = ctx.walk(module);
    assert_eq!(defs.len(), 4);
    let mut node_types = NodeTypes::new(ctx.ast.len());
    for def in &defs[..2] {
        let (_, types) = ctx.check_function(module, *def).unwrap();
        let function = ctx.functions.last().unwrap();
        node_types.record(&function.scope.inner.nodes, &types);
        let (annotations, found) = function.annotations(&ctx.ast);
        node_types.record(&annotations, &found);
    }
    // The arity is checked against the declaration, which is shown.
    match ctx.check_function(module, defs[2]) {
        Err(MontyError::BadArgumentType { index, def_node, actual, .. }) => {
            assert_eq!((index, actual), (0, TypeMap::INTEGER));
            assert_eq!(def_node, Some(defs[0]));
        }
        other => panic!("{:?}", other.err()),
    }
    assert!(matches!(
        ctx.check_function(module, defs[3]),
        Err(MontyError::UndefinedVariable { .. })
    ));

    // A function of another module is not seen without more ado.
    let other = load(&mut ctx, "def four() -> int:\n    return one()\n", "other.py");
    let def = ctx.walk(other)[0];
    assert!(matches!(ctx.check_function(other, def), Err(MontyError::UndefinedVariable { .. })));

    let nodes = ctx.store.graph.node_count() as u64;
    let one = ctx.function_value(0).unwrap();
    let two = ctx.function_value(1).unwrap();
    assert_eq!(one, (ctx.interner.find_group(b"one").unwrap(), nodes));
    assert_eq!(two, (ctx.interner.find_group(b"two").unwrap(), nodes + 1));
    assert!(matches!(ctx.store.graph.node_weight(one.1), Some(Value::Function { name, .. }) if name == b"one"));
    assert_eq!(ctx.store.type_of(one.1), Some(ctx.functions[0].kind));
    assert_eq!(ctx.function_value(99), None);
    assert_eq!(ctx.store.graph.node_count() as u64, nodes + 2);

    let globals = vec![one, two];
    let cx = FlattenContext {
        ast: &ctx.ast,
        type_map: &ctx.type_map,
        node_types: &node_types.table,
        globals: &globals,
        store: &ctx.store,
        interner: &ctx.interner,
    };
    let body = ctx.modules[module].module.body[..2].to_vec();
    let (code, ribs) = flatten_module(&cx, &montyc::ast::Module { body }).unwrap();
    assert_eq!(code.sequences().len(), 3);
    let add = find_operator_method(&ctx.store, &ctx.interner, TypeMap::INTEGER, InfixOp::Add).unwrap();
    let names: Vec<_> = ctx.functions[1].params.iter().map(|p| p.0).collect();
    let mut fids = FuncIds::new();
    for (id, value) in [add, one.1, two.1].into_iter().enumerate() {
        fids.declare(value, id as u64);
    }
    assert_eq!(fids.get(two.1), Some(2));
    assert_eq!(fids.get(two.1 + 1), None);
    let builder = BuilderContext {
        code: &code.sequences()[2],
        type_map: &ctx.type_map,
        store: &ctx.store,
        rib: &ribs[2],
        recv: None,
        args: &names,
        fids: &fids,
    };
    let plan = builder.build().unwrap();
    let ops: Vec<LowOp> = plan.ops.iter().map(|o| o.1).collect();
    assert!(ops.contains(&LowOp::DeclareFunc { val: one.1 }));
    assert!(ops.iter().any(|o| matches!(o, LowOp::Call { func, .. } if *func == one.1)));
    assert!(ops.iter().any(|o| matches!(o, LowOp::Call { func, .. } if *func == add)));
    assert!(matches!(ops.last(), Some(LowOp::Return { .. })));
}

#[test]
fn a_call_has_the_type_that_its_callee_returns() {
    let mut ctx = started();
    let module = load(&mut ctx, "def one(a: int) -> int:\n    return a\n\none(\"s\")\none(1)\none\n", "query.py");
    let body = ctx.modules[module].module.body.clone();
    assert!(ctx.check_function(module, body[0]).is_ok());
    let types = ctx.type_map.len();
    let mut ribs = Ribs::new();
    let cx = TypeEvalContext {
        ast: &ctx.ast,
        scope: &ctx.modules[module].scope,
        builtins: &ctx.builtins,
        declarations: &ctx.declarations,
        store: &ctx.store,
        interner: &ctx.interner,
        expected_return_value: TypeMap::NONE_TYPE,
        function: None,
    };
    let at = cx.scope.position_of(body[1]);
    // The arguments decide whether the call passes, not what type it has.
    assert!(matches!(
        typecheck(&cx, body[1], at, &mut ctx.type_map, &mut ribs),
        Err(MontyError::BadArgumentType { index: 0, .. })
    ));
    assert_eq!(infer_call_type(&cx, body[1], at, &mut ctx.type_map, &mut ribs), Ok(TypeMap::INTEGER));
    let at = cx.scope.position_of(body[2]);
    assert_eq!(typecheck(&cx, body[2], at, &mut ctx.type_map, &mut ribs), Ok(Some(TypeMap::INTEGER)));
    assert_eq!(infer_call_type(&cx, body[2], at, &mut ctx.type_map, &mut ribs), Ok(TypeMap::INTEGER));
    let at = cx.scope.position_of(body[3]);
    assert_eq!(
        infer_call_type(&cx, body[3], at, &mut ctx.type_map, &mut ribs),
        Err(MontyError::InferenceFailure)
    );
    assert_eq!(ctx.type_map.len(), types);
    assert_eq!(ribs.len(), 0);
}
