use montyc::ast::{Assign, Ast, AstNode, IfChain, InfixOp, NodeId, Return, While};
use montyc::codegen::lower::{BuilderContext, FuncIds, LowOp, LowerError, SlotTable, StackSlot};
use montyc::error::MontyError;
use montyc::flatcode::lower::{
    lower_expr, lower_stmt, sequence_from, Emitted, FlattenContext,
};
use montyc::flatcode::raw_inst::{Const, Dunder, PrivInst, RawInst};
use montyc::flatcode::{FlatCode, SequenceType};
use montyc::interpreter::dict::PyDictRaw;
use montyc::interpreter::object_graph::Value;
use montyc::interpreter::value_store::ValueStore;
use montyc::ribs::Ribs;
use montyc::span::{Span, SpanInterner, SpanRef};
use montyc::typing::{FunctionType, TypeDescriptor, TypeMap};

struct Fixture {
    ast: Ast,
    interner: SpanInterner,
    type_map: TypeMap,
    store: ValueStore,
    node_types: Vec<Option<usize>>,
    globals: Vec<(usize, u64)>,
}

impl Fixture {
    fn new() -> Self {
        Fixture {
            ast: Ast::new(),
            interner: SpanInterner::new(),
            type_map: TypeMap::new(),
            store: ValueStore::new(),
            node_types: Vec::new(),
            globals: Vec::new(),
        }
    }

    fn name(&mut self, text: &[u8]) -> SpanRef {
        self.interner.intern(text, Span { start: 0, end: text.len() })
    }

    fn add(&mut self, node: AstNode, type_id: Option<usize>) -> NodeId {
        self.node_types.push(type_id);
        self.ast.add(node, Span { start: 0, end: 0 }).unwrap()
    }

    fn cx(&self) -> FlattenContext<'_> {
        FlattenContext {
            ast: &self.ast,
            type_map: &self.type_map,
            node_types: &self.node_types,
            globals: &self.globals,
            store: &self.store,
            interner: &self.interner,
        }
    }
}

fn ops(code: &[Emitted]) -> Vec<RawInst> {
    code.iter().map(|e| e.op.clone()).collect()
}

#[test]
fn flat_code_starts_with_a_module_sequence() {
    let mut code = FlatCode::new();
    assert_eq!(code.sequences().len(), 1);
    assert_eq!(code.sequences()[0].kind(), SequenceType::Module);
    assert!(!code.is_sequence_ellipsis_stubbed(0));
    assert_eq!(code.inst(RawInst::Const(Const::Ellipsis)), 0);
    assert!(code.is_sequence_ellipsis_stubbed(0));
    assert!(!code.is_sequence_ellipsis_stubbed(1));
    let (index, previous) = code.begin_sequence();
    assert_eq!((index, previous), (1, 0));
    assert_eq!(code.inst(RawInst::Nop), 0);
    assert_eq!(code.inst(RawInst::Nop), 1);
    code.end_sequence(previous);
    assert_eq!(code.inst(RawInst::Nop), 1);
    assert!(!code.is_sequence_ellipsis_stubbed(0));
    assert_eq!(code.sequences()[1].kind(), SequenceType::Function);
    assert_eq!(code.sequences()[1].len(), 2);
    for sequence in code.sequences() {
        for (i, inst) in sequence.inst().iter().enumerate() {
            assert_eq!(inst.value, i);
        }
    }
}

#[test]
fn names_are_locals_values_or_plain_names() {
    let mut f = Fixture::new();
    let x = f.name(b"x");
    let use_x = f.add(AstNode::Name(x), None);
    let g = f.name(b"g");
    let use_g = f.add(AstNode::Name(g), None);
    let h = f.name(b"h");
    let use_h = f.add(AstNode::Name(h), None);
    f.globals.push((g.group(), 7));
    let mut ribs = Ribs::new();
    ribs.add(x.group(), TypeMap::INTEGER, Span { start: 0, end: 0 }).unwrap();
    let cx = f.cx();
    assert_eq!(
        ops(&lower_expr(&cx, use_x, 0, &ribs).unwrap()),
        vec![RawInst::Privileged(PrivInst::UseLocal { var: x })]
    );
    assert_eq!(
        ops(&lower_expr(&cx, use_g, 0, &ribs).unwrap()),
        vec![RawInst::Privileged(PrivInst::RefVal { val: 7 })]
    );
    assert_eq!(
        ops(&lower_expr(&cx, use_h, 0, &ribs).unwrap()),
        vec![RawInst::UseVar { variable: h }]
    );
    assert_eq!(lower_expr(&cx, 99, 0, &ribs).err(), Some(MontyError::InferenceFailure));
    assert_eq!(lower_expr(&cx, use_x, usize::MAX, &ribs).err(), Some(MontyError::InferenceFailure));
}

#[test]
fn an_unresolved_operator_asks_the_left_operand() {
    let mut f = Fixture::new();
    let one = f.add(AstNode::Int(1), None);
    let two = f.add(AstNode::Int(2), None);
    let sum = f.add(AstNode::BinOp { left: one, op: InfixOp::Add, right: two }, None);
    let cx = f.cx();
    let code = lower_expr(&cx, sum, 10, &Ribs::new()).unwrap();
    assert_eq!(
        ops(&code),
        vec![
            RawInst::Const(Const::Int(1)),
            RawInst::Const(Const::Int(2)),
            RawInst::GetDunder { object: 10, dunder: Dunder::Infix(InfixOp::Add) },
            RawInst::Call { callable: 12, arguments: vec![11] },
        ]
    );
}

#[test]
fn a_conditional_expression_becomes_blocks() {
    let mut f = Fixture::new();
    let test = f.add(AstNode::Bool(true), Some(TypeMap::BOOL));
    let a = f.add(AstNode::Int(1), Some(TypeMap::INTEGER));
    let b = f.add(AstNode::Int(2), Some(TypeMap::INTEGER));
    let choice = f.add(AstNode::IfExpr { test, body: a, orelse: b }, Some(TypeMap::INTEGER));
    let cx = f.cx();
    let code = lower_expr(&cx, choice, 0, &Ribs::new()).unwrap();
    assert_eq!(
        ops(&code),
        vec![
            RawInst::Const(Const::Bool(true)),
            RawInst::If { test: 0, truthy: Some(2), falsey: Some(5) },
            RawInst::JumpTarget,
            RawInst::Const(Const::Int(1)),
            RawInst::PhiJump { recv: 8, value: 3 },
            RawInst::JumpTarget,
            RawInst::Const(Const::Int(2)),
            RawInst::PhiJump { recv: 8, value: 6 },
            RawInst::PhiRecv,
        ]
    );
    assert_eq!(code[8].type_id, Some(TypeMap::INTEGER));

    // The plan for the backend.
    let sequence = sequence_from(SequenceType::Function, code);
    let ribs = Ribs::new();
    let args = Vec::new();
    let fids = FuncIds::new();
    let builder = BuilderContext {
        code: &sequence,
        type_map: &f.type_map,
        store: &f.store,
        rib: &ribs,
        recv: None,
        args: &args,
        fids: &fids,
    };
    let plan = builder.build().unwrap();
    assert!(plan.slots.is_empty());
    assert_eq!(
        plan.ops,
        vec![
            (0, LowOp::Bconst(true)),
            (1, LowOp::BranchNonZero { test: 0, to: 2 }),
            (1, LowOp::Jump { to: 5 }),
            (2, LowOp::SwitchToBlock { block: 2 }),
            (3, LowOp::Iconst(1)),
            (4, LowOp::JumpWith { to: 8, value: 3, param_type: TypeMap::INTEGER }),
            (5, LowOp::SwitchToBlock { block: 5 }),
            (6, LowOp::Iconst(2)),
            (7, LowOp::JumpWith { to: 8, value: 6, param_type: TypeMap::INTEGER }),
            (8, LowOp::SwitchToBlock { block: 8 }),
            (8, LowOp::BlockParam { block: 8 }),
        ]
    );
}

#[test]
fn an_if_statement_becomes_blocks() {
    let mut f = Fixture::new();
    let x = f.name(b"x");
    let test = f.add(AstNode::Bool(true), Some(TypeMap::BOOL));
    let one = f.add(AstNode::Int(1), Some(TypeMap::INTEGER));
    let first = f.add(AstNode::Assign(Assign { name: x, value: one, kind: None }), None);
    let two = f.add(AstNode::Int(2), Some(TypeMap::INTEGER));
    let second = f.add(AstNode::Assign(Assign { name: x, value: two, kind: None }), None);
    let branch = f.add(
        AstNode::If(IfChain { test, body: vec![first], orelse: vec![second] }),
        None,
    );
    let cx = f.cx();
    let block = lower_stmt(&cx, branch, 0, Ribs::new(), 1).unwrap();
    assert_eq!(
        ops(&block.code),
        vec![
            RawInst::Const(Const::Bool(true)),
            RawInst::If { test: 0, truthy: Some(2), falsey: Some(6) },
            RawInst::JumpTarget,
            RawInst::Const(Const::Int(1)),
            RawInst::SetVar { variable: x, value: 3 },
            RawInst::Br { to: 9 },
            RawInst::JumpTarget,
            RawInst::Const(Const::Int(2)),
            RawInst::SetVar { variable: x, value: 7 },
            RawInst::JumpTarget,
        ]
    );
    assert!(block.functions.is_empty());
    let entry = block.ribs.get(x.group()).unwrap();
    assert_eq!(entry.type_id, TypeMap::INTEGER);
    assert_eq!(block.ribs.len(), 1);

    let sequence = sequence_from(SequenceType::Function, block.code);
    let args = Vec::new();
    let fids = FuncIds::new();
    let builder = BuilderContext {
        code: &sequence,
        type_map: &f.type_map,
        store: &f.store,
        rib: &block.ribs,
        recv: None,
        args: &args,
        fids: &fids,
    };
    let plan = builder.build().unwrap();
    assert_eq!(
        plan.slots,
        vec![StackSlot { name: x.group(), type_id: TypeMap::INTEGER, size: 16, param: None }]
    );
    assert_eq!(
        plan.ops,
        vec![
            (0, LowOp::Bconst(true)),
            (1, LowOp::BranchNonZero { test: 0, to: 2 }),
            (1, LowOp::Jump { to: 6 }),
            (2, LowOp::SwitchToBlock { block: 2 }),
            (3, LowOp::Iconst(1)),
            (4, LowOp::StackStore { slot: 0, value: 3 }),
            (5, LowOp::Jump { to: 9 }),
            (6, LowOp::SwitchToBlock { block: 6 }),
            (7, LowOp::Iconst(2)),
            (8, LowOp::StackStore { slot: 0, value: 7 }),
            (9, LowOp::Jump { to: 9 }),
            (9, LowOp::SwitchToBlock { block: 9 }),
        ]
    );
}

#[test]
fn a_while_loop_jumps_back_to_its_test() {
    let mut f = Fixture::new();
    let test = f.add(AstNode::Bool(true), Some(TypeMap::BOOL));
    let pass = f.add(AstNode::Pass, None);
    let looping = f.add(AstNode::While(While { test, body: vec![pass] }), None);
    let cx = f.cx();
    let block = lower_stmt(&cx, looping, 0, Ribs::new(), 1).unwrap();
    assert_eq!(
        ops(&block.code),
        vec![
            RawInst::JumpTarget,
            RawInst::Const(Const::Bool(true)),
            RawInst::If { test: 1, truthy: Some(3), falsey: Some(6) },
            RawInst::JumpTarget,
            RawInst::Nop,
            RawInst::Br { to: 0 },
            RawInst::JumpTarget,
        ]
    );
}

#[test]
fn a_bare_return_returns_none() {
    let mut f = Fixture::new();
    let ret = f.add(AstNode::Ret(Return { value: None }), None);
    let cx = f.cx();
    let block = lower_stmt(&cx, ret, 4, Ribs::new(), 1).unwrap();
    assert_eq!(
        ops(&block.code),
        vec![RawInst::Const(Const::NoneLiteral), RawInst::Return { value: 4 }]
    );
    assert_eq!(block.code[0].type_id, Some(TypeMap::NONE_TYPE));
}

#[test]
fn a_tuple_needs_its_type() {
    let mut f = Fixture::new();
    let one = f.add(AstNode::Int(1), Some(TypeMap::INTEGER));
    let yes = f.add(AstNode::Bool(true), Some(TypeMap::BOOL));
    let unknown = f.add(AstNode::Tuple(vec![one, yes]), None);
    let pair_type = f.type_map.tuple(vec![TypeMap::INTEGER, TypeMap::BOOL]);
    let two = f.add(AstNode::Int(2), Some(TypeMap::INTEGER));
    let no = f.add(AstNode::Bool(false), Some(TypeMap::BOOL));
    let known = f.add(AstNode::Tuple(vec![two, no]), Some(pair_type));
    let three = f.add(AstNode::Int(3), Some(TypeMap::INTEGER));
    let wrong = f.add(AstNode::Tuple(vec![three]), Some(pair_type));
    let cx = f.cx();
    assert_eq!(
        lower_expr(&cx, unknown, 0, &Ribs::new()).err(),
        Some(MontyError::UnknownType { node: unknown })
    );
    assert_eq!(
        lower_expr(&cx, wrong, 0, &Ribs::new()).err(),
        Some(MontyError::UnknownType { node: wrong })
    );
    let code = lower_expr(&cx, known, 0, &Ribs::new()).unwrap();
    assert_eq!(
        ops(&code),
        vec![
            RawInst::Const(Const::Int(2)),
            RawInst::Const(Const::Bool(false)),
            RawInst::Tuple(vec![0, 1]),
        ]
    );

    // The tuple is allocated with the size of its layout and filled member
    // by member.
    let mut code = code;
    code.push(Emitted { op: RawInst::Const(Const::Int(-1)), type_id: Some(TypeMap::INTEGER) });
    code.push(Emitted {
        op: RawInst::Privileged(PrivInst::AccessMemberPointer { value: 2, offset: 3 }),
        type_id: Some(TypeMap::BOOL),
    });
    let sequence = sequence_from(SequenceType::Function, code);
    let ribs = Ribs::new();
    let args = Vec::new();
    let fids = FuncIds::new();
    let builder = BuilderContext {
        code: &sequence,
        type_map: &f.type_map,
        store: &f.store,
        rib: &ribs,
        recv: None,
        args: &args,
        fids: &fids,
    };
    let plan = builder.build().unwrap();
    assert_eq!(
        plan.ops,
        vec![
            (0, LowOp::Iconst(2)),
            (1, LowOp::Bconst(false)),
            (2, LowOp::Malloc { size: 16 }),
            (2, LowOp::StoreMember { base: 2, byte_offset: 0, value: 0 }),
            (2, LowOp::StoreMember { base: 2, byte_offset: 8, value: 1 }),
            (3, LowOp::Iconst(-1)),
            (4, LowOp::LoadMember { base: 2, byte_offset: 8 }),
        ]
    );
}

fn sequence_of(code: Vec<(RawInst, Option<usize>)>) -> montyc::flatcode::FlatSeq {
    sequence_from(
        SequenceType::Function,
        code.into_iter().map(|(op, type_id)| Emitted { op, type_id }).collect(),
    )
}

#[test]
fn parameters_are_stored_into_their_slots() {
    let mut interner = SpanInterner::new();
    let this = interner.str_to_spanref(b"self");
    let a = interner.str_to_spanref(b"a");
    let b = interner.str_to_spanref(b"b");
    let local = interner.str_to_spanref(b"local");
    let mut ribs = Ribs::new();
    let at = Span { start: 0, end: 0 };
    ribs.add(b.group(), TypeMap::BOOL, at).unwrap();
    ribs.add(local.group(), TypeMap::INTEGER, at).unwrap();
    ribs.add(a.group(), TypeMap::INTEGER, at).unwrap();
    let type_map = TypeMap::new();
    let store = ValueStore::new();
    let sequence = sequence_of(vec![
        (RawInst::Privileged(PrivInst::UseLocal { var: a }), Some(TypeMap::INTEGER)),
        (RawInst::SetVar { variable: local, value: 0 }, None),
        (RawInst::Return { value: 0 }, None),
    ]);
    let args = vec![a, b];
    let fids = FuncIds::new();
    let builder = BuilderContext {
        code: &sequence,
        type_map: &type_map,
        store: &store,
        rib: &ribs,
        recv: Some((this, TypeMap::OBJECT)),
        args: &args,
        fids: &fids,
    };
    let plan = builder.build().unwrap();
    assert_eq!(
        plan.slots,
        vec![
            StackSlot { name: this.group(), type_id: TypeMap::OBJECT, size: 16, param: None },
            StackSlot { name: b.group(), type_id: TypeMap::BOOL, size: 16, param: Some(2) },
            StackSlot { name: local.group(), type_id: TypeMap::INTEGER, size: 16, param: None },
            StackSlot { name: a.group(), type_id: TypeMap::INTEGER, size: 16, param: Some(1) },
        ]
    );
    assert_eq!(
        plan.ops,
        vec![
            (0, LowOp::StackLoad { slot: 3 }),
            (1, LowOp::StackStore { slot: 2, value: 0 }),
            (2, LowOp::Return { value: 0 }),
        ]
    );
    assert_eq!(builder.stack_slots().unwrap(), plan.slots);
    assert_eq!(builder.lower_inst(&SlotTable::new(plan.slots.clone()), 1), Ok(vec![LowOp::StackStore { slot: 2, value: 0 }]));
}

#[test]
fn calls_name_the_function_they_refer_to() {
    let mut interner = SpanInterner::new();
    let mut type_map = TypeMap::new();
    let mut store = ValueStore::new();
    let f = interner.str_to_spanref(b"f");
    let signature = FunctionType { name: f, reciever: None, args: vec![TypeMap::INTEGER], ret: TypeMap::INTEGER };
    let kind = type_map.intern(TypeDescriptor::Function(signature));
    let function = store.graph.add_node(Value::Function {
        name: b"f".to_vec(),
        properties: PyDictRaw::new(),
        annotations: PyDictRaw::new(),
        defsite: None,
        parent: None,
    });
    store.set_type(function, kind);
    let number = store.graph.add_node(Value::Integer(1));
    let code = vec![
        (RawInst::Const(Const::Int(5)), Some(TypeMap::INTEGER)),
        (RawInst::Privileged(PrivInst::RefVal { val: function }), None),
        (RawInst::Call { callable: 1, arguments: vec![0] }, Some(TypeMap::INTEGER)),
        (RawInst::Return { value: 2 }, None),
    ];
    let sequence = sequence_of(code.clone());
    let ribs = Ribs::new();
    let args = Vec::new();
    let mut fids = FuncIds::new();
    fids.declare(function, 7);
    let builder = BuilderContext {
        code: &sequence,
        type_map: &type_map,
        store: &store,
        rib: &ribs,
        recv: None,
        args: &args,
        fids: &fids,
    };
    assert_eq!(
        builder.build().unwrap().ops,
        vec![
            (0, LowOp::Iconst(5)),
            (1, LowOp::DeclareFunc { val: function }),
            (2, LowOp::Call { func: function, inst: 2 }),
            (3, LowOp::Return { value: 2 }),
        ]
    );
    let none = FuncIds::new();
    let undeclared = BuilderContext { fids: &none, ..builder };
    assert_eq!(undeclared.build().err(), Some(LowerError::UnknownFunction { inst: 1 }));

    let sequence = sequence_of(vec![
        (RawInst::Privileged(PrivInst::RefVal { val: number }), None),
    ]);
    let builder = BuilderContext { code: &sequence, ..builder };
    assert_eq!(builder.build().err(), Some(LowerError::Unsupported { inst: 0 }));
}

#[test]
fn what_cannot_be_lowered_is_reported() {
    let mut interner = SpanInterner::new();
    let x = interner.str_to_spanref(b"x");
    let type_map = TypeMap::new();
    let store = ValueStore::new();
    let ribs = Ribs::new();
    let args = Vec::new();
    let fids = FuncIds::new();
    let check = |code: Vec<(RawInst, Option<usize>)>| {
        let sequence = sequence_of(code);
        let builder = BuilderContext {
            code: &sequence,
            type_map: &type_map,
            store: &store,
            rib: &ribs,
            recv: None,
            args: &args,
            fids: &fids,
        };
        builder.build().map(|plan| plan.ops)
    };
    assert_eq!(
        check(vec![(RawInst::Privileged(PrivInst::UseLocal { var: x }), None)]),
        Err(LowerError::UnknownLocal { inst: 0 })
    );
    assert_eq!(check(vec![(RawInst::UseVar { variable: x }, None)]), Err(LowerError::Unsupported { inst: 0 }));
    assert_eq!(check(vec![(RawInst::Undefined, None)]), Err(LowerError::Unsupported { inst: 0 }));
    assert_eq!(
        check(vec![(RawInst::Const(Const::NoneLiteral), None)]),
        Err(LowerError::Unsupported { inst: 0 })
    );
    assert_eq!(
        check(vec![(RawInst::Nop, None), (RawInst::Return { value: 0 }, None)]),
        Err(LowerError::NoValue { inst: 1, operand: 0 })
    );
    assert_eq!(
        check(vec![(RawInst::Nop, None), (RawInst::Br { to: 0 }, None)]),
        Err(LowerError::NoBlock { inst: 1, target: 0 })
    );
    assert_eq!(
        check(vec![
            (RawInst::Const(Const::Int(1)), Some(TypeMap::INTEGER)),
            (RawInst::If { test: 0, truthy: None, falsey: None }, None),
        ]),
        Err(LowerError::TestNotBool { inst: 1 })
    );
    assert_eq!(
        check(vec![
            (RawInst::Const(Const::Bool(true)), Some(TypeMap::BOOL)),
            (RawInst::If { test: 0, truthy: None, falsey: None }, None),
            (RawInst::JumpTarget, None),
        ]),
        Ok(vec![
            (0, LowOp::Bconst(true)),
            (2, LowOp::Jump { to: 2 }),
            (2, LowOp::SwitchToBlock { block: 2 }),
        ])
    );
    assert_eq!(
        check(vec![
            (RawInst::Const(Const::Bool(true)), Some(TypeMap::BOOL)),
            (RawInst::If { test: 0, truthy: None, falsey: Some(2) }, None),
            (RawInst::JumpTarget, None),
        ]),
        Ok(vec![
            (0, LowOp::Bconst(true)),
            (1, LowOp::BranchZero { test: 0, to: 2 }),
            (1, LowOp::Jump { to: 2 }),
            (2, LowOp::SwitchToBlock { block: 2 }),
        ])
    );
    assert_eq!(
        check(vec![
            (RawInst::Const(Const::Bool(true)), Some(TypeMap::BOOL)),
            (RawInst::If { test: 0, truthy: Some(0), falsey: None }, None),
        ]),
        Err(LowerError::NoBlock { inst: 1, target: 0 })
    );
    assert_eq!(
        check(vec![(RawInst::Tuple(vec![]), Some(TypeMap::INTEGER))]),
        Err(LowerError::NotATuple { inst: 0 })
    );
    assert_eq!(
        check(vec![(RawInst::JumpTarget, None), (RawInst::Const(Const::Int(1)), None), (RawInst::PhiJump { recv: 0, value: 1 }, None)]),
        Err(LowerError::UnknownType { inst: 2 })
    );
    assert_eq!(check(vec![]), Ok(vec![]));
}

#[test]
fn an_empty_tuple_cannot_be_allocated() {
    let mut type_map = TypeMap::new();
    let empty = type_map.tuple(vec![]);
    let nothing = type_map.tuple(vec![TypeMap::NONE_TYPE]);
    let store = ValueStore::new();
    let ribs = Ribs::new();
    let args = Vec::new();
    let fids = FuncIds::new();
    let sequence = sequence_of(vec![(RawInst::Tuple(vec![]), Some(empty))]);
    let builder = BuilderContext {
        code: &sequence,
        type_map: &type_map,
        store: &store,
        rib: &ribs,
        recv: None,
        args: &args,
        fids: &fids,
    };
    assert_eq!(builder.build().err(), Some(LowerError::EmptyTuple { inst: 0 }));
    let sequence = sequence_of(vec![
        (RawInst::Const(Const::Int(0)), Some(TypeMap::INTEGER)),
        (RawInst::Tuple(vec![0]), Some(nothing)),
    ]);
    let builder = BuilderContext { code: &sequence, ..builder };
    assert_eq!(builder.build().err(), Some(LowerError::EmptyTuple { inst: 1 }));
}

#[test]
fn a_new_sequence_is_entered_and_left() {
    let mut code = FlatCode::new();
    assert_eq!(code.inst(RawInst::Nop), 0);
    let body = vec![
        Emitted { op: RawInst::Const(Const::Int(1)), type_id: Some(TypeMap::INTEGER) },
        Emitted { op: RawInst::Return { value: 0 }, type_id: None },
    ];
    assert_eq!(code.with_new_sequence(body), 1);
    assert_eq!(code.sequences().len(), 2);
    assert_eq!(code.sequences()[0].kind(), SequenceType::Module);
    assert_eq!(code.sequences()[0].len(), 1);
    assert_eq!(code.sequences()[1].kind(), SequenceType::Function);
    let held = code.sequences()[1].inst();
    assert_eq!(held.len(), 2);
    assert_eq!(held[0].op, RawInst::Const(Const::Int(1)));
    assert_eq!(held[0].attrs.type_id, Some(TypeMap::INTEGER));
    assert_eq!(held[0].attrs.span, None);
    assert_eq!(held[1].op, RawInst::Return { value: 0 });
    assert_eq!((held[0].value, held[1].value), (0, 1));
    // The current sequence is the module's again.
    assert_eq!(code.inst(RawInst::Nop), 1);
    assert_eq!(code.with_new_sequence(Vec::new()), 2);
}

#[test]
fn the_last_slot_of_a_name_is_found() {
    let slots = vec![
        StackSlot { name: 4, type_id: TypeMap::INTEGER, size: 16, param: Some(0) },
        StackSlot { name: 9, type_id: TypeMap::BOOL, size: 16, param: None },
        StackSlot { name: 4, type_id: TypeMap::INTEGER, size: 16, param: None },
    ];
    let table = SlotTable::new(slots.clone());
    assert_eq!(table.find(4), Some(2));
    assert_eq!(table.find(9), Some(1));
    assert_eq!(table.find(5), None);
    assert_eq!(table.into_slots(), slots);
    assert_eq!(SlotTable::new(Vec::new()).find(4), None);
}
