//! The flattener: from the syntax tree to flat code.
//!
//! Expressions become instructions whose last one holds the value of the
//! expression. Control constructs become blocks: a block starts at a
//! `JumpTarget` or a `PhiRecv`, and branches name the blocks they lead to.
//! What the flattener emits is defined by [`lowered_expr`] and
//! [`lowered_stmt`]; the functions that build the code are proved against
//! these definitions.

use crate::ast::{Argument, Ast, AstNode, Import, Module, NodeId};
use crate::error::MontyError;
use crate::flatcode::raw_inst::{Const, Dunder, Op, PrivInst, RawInst};
use crate::flatcode::{FlatCode, FlatSeq, SequenceType};
use crate::interpreter::object_graph::ObjectGraphIndex;
use crate::interpreter::value_store::ValueStore;
use crate::ribs::{rib_add, RibEntry, Ribs};
use crate::span::{Span, SpanInterner, SpanRef};
use crate::typechk::{find_operator_method, operator_method};
use crate::typing::{LocalTypeId, TypeDescriptor, TypeMap, TypeShape};
use vstd::prelude::*;

verus! {

/// An instruction as the flattener emits it: the operation and the type of
/// its value, where that is known.
#[derive(Debug)]
pub struct Emitted {
    pub op: RawInst,
    pub type_id: Option<LocalTypeId>,
}

/// An emitted instruction as a value.
pub struct Step {
    pub op: Op,
    pub type_id: Option<LocalTypeId>,
}

impl View for Emitted {
    type V = Step;

    open spec fn view(&self) -> Step {
        Step { op: self.op@, type_id: self.type_id }
    }
}

/// The emitted instructions as values.
pub open spec fn steps(code: Seq<Emitted>) -> Seq<Step> {
    Seq::new(code.len(), |i: int| code[i]@)
}

/// What the flattener reads.
pub struct FlattenContext<'a> {
    pub ast: &'a Ast,
    pub type_map: &'a TypeMap,
    /// The type of each node, by the number of the node, as far as it is
    /// known.
    pub node_types: &'a Vec<Option<LocalTypeId>>,
    /// The functions and classes that names stand for: the group of the
    /// name and the value in the object graph.
    pub globals: &'a Vec<(usize, ObjectGraphIndex)>,
    pub store: &'a ValueStore,
    pub interner: &'a SpanInterner,
}

/// The value bound to the name with the given group: that of the first
/// entry for it, from the place `from` on.
pub open spec fn global_value(globals: Seq<(usize, ObjectGraphIndex)>, group: usize, from: int) -> Option<
    ObjectGraphIndex,
>
    decreases globals.len() - from,
{
    if from < 0 || from >= globals.len() {
        None
    } else if globals[from].0 == group {
        Some(globals[from].1)
    } else {
        global_value(globals, group, from + 1)
    }
}

impl<'a> FlattenContext<'a> {
    pub open spec fn wf(&self) -> bool {
        &&& self.ast.wf()
        &&& self.interner.wf()
        &&& self.store.graph.wf()
    }

    /// The type noted for the node, if one is.
    pub open spec fn spec_node_type(&self, node: NodeId) -> Option<LocalTypeId> {
        if node < self.node_types@.len() {
            self.node_types@[node as int]
        } else {
            None
        }
    }

    /// Whether `t` is the type of a tuple with `n` members.
    pub open spec fn tuple_known(&self, t: Option<LocalTypeId>, n: nat) -> bool {
        match t {
            Some(id) => id < self.type_map@.len() && (self.type_map@[id as int] matches TypeShape::Tuple {
                members,
            } && members.len() == n),
            None => false,
        }
    }

    /// The type noted for the node, if one is.
    pub fn node_type(&self, node: NodeId) -> (t: Option<LocalTypeId>)
        ensures
            t == self.spec_node_type(node),
    {
        if node < self.node_types.len() {
            self.node_types[node]
        } else {
            None
        }
    }

    fn is_tuple(&self, t: Option<LocalTypeId>, n: usize) -> (known: bool)
        ensures
            known == self.tuple_known(t, n as nat),
    {
        match t {
            Some(id) => match self.type_map.get(id) {
                Some(TypeDescriptor::Tuple { members }) => members.len() == n,
                _ => false,
            },
            None => false,
        }
    }

    fn global(&self, group: usize) -> (value: Option<ObjectGraphIndex>)
        ensures
            value == global_value(self.globals@, group, 0),
    {
        let mut i: usize = 0;
        while i < self.globals.len()
            invariant
                i <= self.globals@.len(),
                global_value(self.globals@, group, 0) == global_value(
                    self.globals@,
                    group,
                    i as int,
                ),
            decreases self.globals@.len() - i,
        {
            if self.globals[i].0 == group {
                return Some(self.globals[i].1);
            }
            i += 1;
        }
        None
    }
}

/// The code, unless its last value id would not fit in `usize`.
pub open spec fn fitted(base: usize, code: Seq<Step>) -> Result<Seq<Step>, MontyError> {
    if base + code.len() > usize::MAX {
        Err(MontyError::InferenceFailure)
    } else {
        Ok(code)
    }
}

/// One instruction.
pub open spec fn one(op: Op, type_id: Option<LocalTypeId>) -> Seq<Step> {
    seq![Step { op, type_id }]
}

/// How a name is read: a local of the rib from its stack slot, a function
/// or class as a value of the object graph, anything else by its name.
pub open spec fn name_op(cx: FlattenContext, name: SpanRef, rib: Map<usize, RibEntry>) -> Op {
    if rib.contains_key(name.spec_group()) {
        Op::Privileged(PrivInst::UseLocal { var: name })
    } else {
        match global_value(cx.globals@, name.spec_group(), 0) {
            Some(val) => Op::Privileged(PrivInst::RefVal { val }),
            None => Op::UseVar { variable: name },
        }
    }
}

/// The instructions that the expression `node` becomes when its first
/// instruction gets the value id `base`. The last instruction holds the
/// value of the expression.
///
/// * A literal becomes a constant; a name is read as [`name_op`] says.
/// * A tuple becomes its elements followed by the instruction that gathers
///   them; its type must be known, and be a tuple type of that many
///   members.
/// * An operator becomes its operands, the method that implements it, and
///   a call of that method. Where the type of the left operand gives the
///   method, the method is a value of the object graph and is called with
///   both operands; otherwise it is asked of the left operand at run time
///   and called with the right one.
/// * A call becomes the callee, the arguments and the call; an attribute
///   the object and the access.
/// * A conditional expression becomes the test, a branch, and one block
///   for each arm; each arm ends by handing its value to the block that
///   follows both, whose value is that of the expression.
/// * Anything else is not an expression that the flattener knows, and
///   becomes the undefined instruction.
pub open spec fn lowered_expr(
    cx: FlattenContext,
    node: NodeId,
    base: usize,
    rib: Map<usize, RibEntry>,
) -> Result<Seq<Step>, MontyError>
    decreases 2 * node + 1, 0int,
{
    if node >= cx.ast@.len() {
        Err(MontyError::InferenceFailure)
    } else {
        let t = cx.spec_node_type(node);
        match cx.ast@[node as int].inner {
            AstNode::Int(n) => fitted(base, one(Op::Const(Const::Int(n)), t)),
            AstNode::Float(f) => fitted(base, one(Op::Const(Const::Float(f)), t)),
            AstNode::Bool(b) => fitted(base, one(Op::Const(Const::Bool(b)), t)),
            AstNode::Str(s) => fitted(base, one(Op::Const(Const::String(s)), t)),
            AstNode::NoneLiteral => fitted(base, one(Op::Const(Const::NoneLiteral), t)),
            AstNode::Ellipsis => fitted(base, one(Op::Const(Const::Ellipsis), t)),
            AstNode::Name(n) => fitted(base, one(name_op(cx, n, rib), t)),
            AstNode::Tuple(elements) => if !cx.tuple_known(t, elements@.len()) {
                Err(MontyError::UnknownType { node })
            } else {
                match lowered_exprs(cx, elements@, node, base, rib, elements@.len() as int) {
                    Ok((code, values)) => fitted(base, code + one(Op::Tuple(values), t)),
                    Err(e) => Err(e),
                }
            },
            AstNode::BinOp { left, op, right } => match lowered_exprs(
                cx,
                seq![left, right],
                node,
                base,
                rib,
                2,
            ) {
                Ok((code, values)) => {
                    let method = match cx.spec_node_type(left) {
                        Some(lt) => operator_method(cx.store, cx.interner, lt, op),
                        None => None,
                    };
                    let callable = (base + code.len()) as usize;
                    match method {
                        Some(val) => fitted(
                            base,
                            code + one(Op::Privileged(PrivInst::RefVal { val }), None) + one(
                                Op::Call { callable, arguments: values },
                                t,
                            ),
                        ),
                        None => fitted(
                            base,
                            code + one(
                                Op::GetDunder { object: values[0], dunder: Dunder::Infix(op) },
                                None,
                            ) + one(Op::Call { callable, arguments: seq![values[1]] }, t),
                        ),
                    }
                },
                Err(e) => Err(e),
            },
            AstNode::Call { func, args } => match lowered_exprs(
                cx,
                seq![func] + args@,
                node,
                base,
                rib,
                1 + args@.len() as int,
            ) {
                Ok((code, values)) => fitted(
                    base,
                    code + one(Op::Call { callable: values[0], arguments: values.skip(1) }, t),
                ),
                Err(e) => Err(e),
            },
            AstNode::Attr { left, attr } => match lowered_exprs(cx, seq![left], node, base, rib, 1) {
                Ok((code, values)) => fitted(
                    base,
                    code + one(Op::GetAttribute { object: values[0], name: attr }, t),
                ),
                Err(e) => Err(e),
            },
            AstNode::IfExpr { test, body, orelse } => if !(test < node && body < node && orelse
                < node) {
                Err(MontyError::InferenceFailure)
            } else {
                match lowered_expr(cx, test, base, rib) {
                    Err(e) => Err(e),
                    Ok(tested) => if tested.len() == 0 || base + tested.len() + 2 > usize::MAX {
                        Err(MontyError::InferenceFailure)
                    } else {
                        let branch = (base + tested.len()) as usize;
                        match lowered_expr(cx, body, (branch + 2) as usize, rib) {
                            Err(e) => Err(e),
                            Ok(truthy) => if truthy.len() == 0 || branch + 2 + truthy.len() + 2
                                > usize::MAX {
                                Err(MontyError::InferenceFailure)
                            } else {
                                let other = (branch + 2 + truthy.len() + 1) as usize;
                                match lowered_expr(cx, orelse, (other + 1) as usize, rib) {
                                    Err(e) => Err(e),
                                    Ok(falsey) => if falsey.len() == 0 || other + 1 + falsey.len()
                                        + 2 > usize::MAX {
                                        Err(MontyError::InferenceFailure)
                                    } else {
                                        let recv = (other + 1 + falsey.len() + 1) as usize;
                                        Ok(
                                            tested + one(
                                                Op::If {
                                                    test: (branch - 1) as usize,
                                                    truthy: Some((branch + 1) as usize),
                                                    falsey: Some(other),
                                                },
                                                None,
                                            ) + one(Op::JumpTarget, None) + truthy + one(
                                                Op::PhiJump { recv, value: (other - 2) as usize },
                                                None,
                                            ) + one(Op::JumpTarget, None) + falsey + one(
                                                Op::PhiJump { recv, value: (recv - 2) as usize },
                                                None,
                                            ) + one(Op::PhiRecv, t),
                                        )
                                    },
                                }
                            },
                        }
                    },
                }
            },
            _ => fitted(base, one(Op::Undefined, None)),
        }
    }
}

/// The instructions that the first `n` of the expressions `nodes` become,
/// one after the other, and the ids of their values.
pub open spec fn lowered_exprs(
    cx: FlattenContext,
    nodes: Seq<NodeId>,
    bound: NodeId,
    base: usize,
    rib: Map<usize, RibEntry>,
    n: int,
) -> Result<(Seq<Step>, Seq<usize>), MontyError>
    decreases 2 * bound, n,
{
    if n <= 0 {
        Ok((Seq::empty(), Seq::empty()))
    } else {
        match lowered_exprs(cx, nodes, bound, base, rib, n - 1) {
            Err(e) => Err(e),
            Ok((code, values)) => if nodes[n - 1] >= bound || base + code.len() > usize::MAX {
                Err(MontyError::InferenceFailure)
            } else {
                match lowered_expr(cx, nodes[n - 1], (base + code.len()) as usize, rib) {
                    Err(e) => Err(e),
                    Ok(more) => if more.len() == 0 {
                        Err(MontyError::InferenceFailure)
                    } else {
                        Ok(
                            (
                                code + more,
                                values.push((base + code.len() + more.len() - 1) as usize),
                            ),
                        )
                    },
                }
            },
        }
    }
}

proof fn lemma_lowered_exprs_fail(
    cx: FlattenContext,
    nodes: Seq<NodeId>,
    bound: NodeId,
    base: usize,
    rib: Map<usize, RibEntry>,
    at: int,
    n: int,
)
    requires
        0 < at <= n,
        lowered_exprs(cx, nodes, bound, base, rib, at).is_err(),
    ensures
        lowered_exprs(cx, nodes, bound, base, rib, n) == lowered_exprs(
            cx,
            nodes,
            bound,
            base,
            rib,
            at,
        ),
    decreases n - at,
{
    if at < n {
        lemma_lowered_exprs_fail(cx, nodes, bound, base, rib, at, n - 1);
    }
}

fn emit(code: &mut Vec<Emitted>, op: RawInst, type_id: Option<LocalTypeId>)
    ensures
        steps(final(code)@) == steps(old(code)@) + one(op@, type_id),
        final(code)@.len() == old(code)@.len() + 1,
{
    code.push(Emitted { op, type_id });
    assert(steps(code@) =~= steps(old(code)@) + one(op@, type_id));
}

fn emit_all(code: &mut Vec<Emitted>, more: Vec<Emitted>)
    ensures
        steps(final(code)@) == steps(old(code)@) + steps(more@),
        final(code)@.len() == old(code)@.len() + more@.len(),
{
    let mut more = more;
    let ghost added = more@;
    code.append(&mut more);
    assert(steps(code@) =~= steps(old(code)@) + steps(added));
}

fn single(base: usize, op: RawInst, type_id: Option<LocalTypeId>) -> (result: Result<
    Vec<Emitted>,
    MontyError,
>)
    ensures
        match result {
            Ok(code) => fitted(base, one(op@, type_id)) == Ok::<Seq<Step>, MontyError>(
                steps(code@),
            ) && code@.len() == 1,
            Err(e) => fitted(base, one(op@, type_id)) == Err::<Seq<Step>, MontyError>(e),
        },
{
    if base == usize::MAX {
        return Err(MontyError::InferenceFailure);
    }
    let mut code: Vec<Emitted> = Vec::new();
    code.push(Emitted { op, type_id });
    assert(steps(code@) =~= one(op@, type_id));
    Ok(code)
}

fn finish(base: usize, code: Vec<Emitted>) -> (result: Result<Vec<Emitted>, MontyError>)
    ensures
        match result {
            Ok(done) => fitted(base, steps(code@)) == Ok::<Seq<Step>, MontyError>(steps(done@))
                && done@ == code@,
            Err(e) => fitted(base, steps(code@)) == Err::<Seq<Step>, MontyError>(e),
        },
{
    match base.checked_add(code.len()) {
        Some(_) => Ok(code),
        None => Err(MontyError::InferenceFailure),
    }
}

/// Lowers the expressions `nodes` one after the other.
pub fn lower_exprs(
    cx: &FlattenContext,
    nodes: &Vec<NodeId>,
    bound: NodeId,
    base: usize,
    ribs: &Ribs,
) -> (result: Result<(Vec<Emitted>, Vec<usize>), MontyError>)
    requires
        cx.wf(),
        ribs.wf(),
    ensures
        match result {
            Ok((code, values)) => {
                &&& lowered_exprs(*cx, nodes@, bound, base, ribs@, nodes@.len() as int) == Ok::<
                    (Seq<Step>, Seq<usize>),
                    MontyError,
                >((steps(code@), values@))
                &&& values@.len() == nodes@.len()
                &&& base + code@.len() <= usize::MAX
                &&& nodes@.len() > 0 ==> code@.len() > 0
            },
            Err(e) => lowered_exprs(*cx, nodes@, bound, base, ribs@, nodes@.len() as int) == Err::<
                (Seq<Step>, Seq<usize>),
                MontyError,
            >(e),
        },
    decreases 2 * bound, nodes@.len(),
{
    let mut code: Vec<Emitted> = Vec::new();
    let mut values: Vec<usize> = Vec::new();
    let mut i: usize = 0;
    assert(steps(code@) =~= Seq::<Step>::empty());
    while i < nodes.len()
        invariant
            cx.wf(),
            ribs.wf(),
            i <= nodes@.len(),
            values@.len() == i,
            base + code@.len() <= usize::MAX,
            i > 0 ==> code@.len() > 0,
            lowered_exprs(*cx, nodes@, bound, base, ribs@, i as int) == Ok::<
                (Seq<Step>, Seq<usize>),
                MontyError,
            >((steps(code@), values@)),
        decreases nodes@.len() - i,
    {
        let node = nodes[i];
        if node >= bound {
            proof {
                lemma_lowered_exprs_fail(
                    *cx,
                    nodes@,
                    bound,
                    base,
                    ribs@,
                    i as int + 1,
                    nodes@.len() as int,
                );
            }
            return Err(MontyError::InferenceFailure);
        }
        let at = base + code.len();
        match lower_expr(cx, node, at, ribs) {
            Ok(more) => {
                values.push(at + more.len() - 1);
                emit_all(&mut code, more);
            },
            Err(e) => {
                proof {
                    lemma_lowered_exprs_fail(
                        *cx,
                        nodes@,
                        bound,
                        base,
                        ribs@,
                        i as int + 1,
                        nodes@.len() as int,
                    );
                }
                return Err(e);
            },
        }
        i += 1;
    }
    Ok((code, values))
}

/// Lowers the expression `node`; its first instruction gets the value id
/// `base`.
pub fn lower_expr(cx: &FlattenContext, node: NodeId, base: usize, ribs: &Ribs) -> (result: Result<
    Vec<Emitted>,
    MontyError,
>)
    requires
        cx.wf(),
        ribs.wf(),
    ensures
        match result {
            Ok(code) => {
                &&& lowered_expr(*cx, node, base, ribs@) == Ok::<Seq<Step>, MontyError>(
                    steps(code@),
                )
                &&& code@.len() > 0
                &&& base + code@.len() <= usize::MAX
            },
            Err(e) => lowered_expr(*cx, node, base, ribs@) == Err::<Seq<Step>, MontyError>(e),
        },
    decreases 2 * node + 1, 0int,
{
    let spanned = match cx.ast.get(node) {
        Some(s) => s,
        None => {
            return Err(MontyError::InferenceFailure);
        },
    };
    let t = cx.node_type(node);
    match &spanned.inner {
        AstNode::Int(n) => single(base, RawInst::Const(Const::Int(*n)), t),
        AstNode::Float(f) => single(base, RawInst::Const(Const::Float(*f)), t),
        AstNode::Bool(b) => single(base, RawInst::Const(Const::Bool(*b)), t),
        AstNode::Str(s) => single(base, RawInst::Const(Const::String(*s)), t),
        AstNode::NoneLiteral => single(base, RawInst::Const(Const::NoneLiteral), t),
        AstNode::Ellipsis => single(base, RawInst::Const(Const::Ellipsis), t),
        AstNode::Name(n) => {
            let op = match ribs.get(n.group()) {
                Some(_) => RawInst::Privileged(PrivInst::UseLocal { var: *n }),
                None => match cx.global(n.group()) {
                    Some(val) => RawInst::Privileged(PrivInst::RefVal { val }),
                    None => RawInst::UseVar { variable: *n },
                },
            };
            single(base, op, t)
        },
        AstNode::Tuple(elements) => {
            if !cx.is_tuple(t, elements.len()) {
                return Err(MontyError::UnknownType { node });
            }
            match lower_exprs(cx, elements, node, base, ribs) {
                Ok((mut code, values)) => {
                    emit(&mut code, RawInst::Tuple(values), t);
                    finish(base, code)
                },
                Err(e) => Err(e),
            }
        },
        AstNode::BinOp { left, op, right } => {
            let operands = vec![*left, *right];
            assert(operands@ =~= seq![*left, *right]);
            match lower_exprs(cx, &operands, node, base, ribs) {
                Ok((mut code, values)) => {
                    let method = match cx.node_type(*left) {
                        Some(lt) => find_operator_method(cx.store, cx.interner, lt, *op),
                        None => None,
                    };
                    let callable = base + code.len();
                    match method {
                        Some(val) => {
                            emit(&mut code, RawInst::Privileged(PrivInst::RefVal { val }), None);
                            emit(&mut code, RawInst::Call { callable, arguments: values }, t);
                        },
                        None => {
                            emit(
                                &mut code,
                                RawInst::GetDunder {
                                    object: values[0],
                                    dunder: Dunder::Infix(*op),
                                },
                                None,
                            );
                            let arguments = vec![values[1]];
                            assert(arguments@ =~= seq![values@[1]]);
                            emit(&mut code, RawInst::Call { callable, arguments }, t);
                        },
                    }
                    finish(base, code)
                },
                Err(e) => Err(e),
            }
        },
        AstNode::Call { func, args } => {
            let mut operands: Vec<NodeId> = Vec::new();
            operands.push(*func);
            let mut k: usize = 0;
            while k < args.len()
                invariant
                    k <= args@.len(),
                    operands@ == seq![*func] + args@.subrange(0, k as int),
                decreases args@.len() - k,
            {
                operands.push(args[k]);
                k += 1;
                assert(operands@ =~= seq![*func] + args@.subrange(0, k as int));
            }
            assert(operands@ =~= seq![*func] + args@);
            match lower_exprs(cx, &operands, node, base, ribs) {
                Ok((mut code, values)) => {
                    let mut arguments: Vec<usize> = Vec::new();
                    let mut j: usize = 1;
                    while j < values.len()
                        invariant
                            1 <= j <= values@.len(),
                            arguments@ == values@.subrange(1, j as int),
                        decreases values@.len() - j,
                    {
                        arguments.push(values[j]);
                        j += 1;
                        assert(arguments@ =~= values@.subrange(1, j as int));
                    }
                    assert(arguments@ =~= values@.skip(1));
                    emit(&mut code, RawInst::Call { callable: values[0], arguments }, t);
                    finish(base, code)
                },
                Err(e) => Err(e),
            }
        },
        AstNode::Attr { left, attr } => {
            let operands = vec![*left];
            assert(operands@ =~= seq![*left]);
            match lower_exprs(cx, &operands, node, base, ribs) {
                Ok((mut code, values)) => {
                    emit(&mut code, RawInst::GetAttribute { object: values[0], name: *attr }, t);
                    finish(base, code)
                },
                Err(e) => Err(e),
            }
        },
        AstNode::IfExpr { test, body, orelse } => {
            if !(*test < node && *body < node && *orelse < node) {
                return Err(MontyError::InferenceFailure);
            }
            let mut code = match lower_expr(cx, *test, base, ribs) {
                Ok(c) => c,
                Err(e) => {
                    return Err(e);
                },
            };
            let branch = base + code.len();
            if branch > usize::MAX - 2 {
                return Err(MontyError::InferenceFailure);
            }
            let truthy = match lower_expr(cx, *body, branch + 2, ribs) {
                Ok(c) => c,
                Err(e) => {
                    return Err(e);
                },
            };
            if branch + 2 + truthy.len() > usize::MAX - 2 {
                return Err(MontyError::InferenceFailure);
            }
            let other = branch + 2 + truthy.len() + 1;
            let falsey = match lower_expr(cx, *orelse, other + 1, ribs) {
                Ok(c) => c,
                Err(e) => {
                    return Err(e);
                },
            };
            if other + 1 + falsey.len() > usize::MAX - 2 {
                return Err(MontyError::InferenceFailure);
            }
            let recv = other + 1 + falsey.len() + 1;
            emit(
                &mut code,
                RawInst::If { test: branch - 1, truthy: Some(branch + 1), falsey: Some(other) },
                None,
            );
            emit(&mut code, RawInst::JumpTarget, None);
            emit_all(&mut code, truthy);
            emit(&mut code, RawInst::PhiJump { recv, value: other - 2 }, None);
            emit(&mut code, RawInst::JumpTarget, None);
            emit_all(&mut code, falsey);
            emit(&mut code, RawInst::PhiJump { recv, value: recv - 2 }, None);
            emit(&mut code, RawInst::PhiRecv, t);
            Ok(code)
        },
        _ => single(base, RawInst::Undefined, None),
    }
}

/// The code of one function and the rib that flattening it has filled.
pub struct FunctionBlock {
    pub code: Seq<Step>,
    pub rib: Map<usize, RibEntry>,
}

/// What a statement or a list of statements becomes: its code, the rib
/// afterwards, and the functions defined in it, in the order in which their
/// definitions stand.
pub struct Block {
    pub code: Seq<Step>,
    pub rib: Map<usize, RibEntry>,
    pub functions: Seq<FunctionBlock>,
}

/// The code of one function and its rib.
pub struct LoweredFunction {
    pub code: Vec<Emitted>,
    pub ribs: Ribs,
}

/// What lowering a statement or a list of statements has produced.
pub struct LoweredBlock {
    pub code: Vec<Emitted>,
    pub ribs: Ribs,
    pub functions: Vec<LoweredFunction>,
}

/// The functions as values.
pub open spec fn function_blocks(functions: Seq<LoweredFunction>) -> Seq<FunctionBlock> {
    Seq::new(
        functions.len(),
        |i: int| FunctionBlock { code: steps(functions[i].code@), rib: functions[i].ribs@ },
    )
}

impl View for LoweredBlock {
    type V = Block;

    open spec fn view(&self) -> Block {
        Block {
            code: steps(self.code@),
            rib: self.ribs@,
            functions: function_blocks(self.functions@),
        }
    }
}

impl LoweredBlock {
    /// The ribs of the block and of its functions are well formed.
    pub open spec fn wf(&self) -> bool {
        &&& self.ribs.wf()
        &&& forall|i: int| 0 <= i < self.functions@.len() ==> (#[trigger] self.functions@[i]).ribs.wf()
    }
}

/// The type, or the unknown type where none is known.
pub open spec fn known_or_unknown(t: Option<LocalTypeId>) -> LocalTypeId {
    match t {
        Some(id) => id,
        None => TypeMap::UNKNOWN,
    }
}

/// The rib in which the first `n` parameters are bound to the types of
/// their annotations.
pub open spec fn parameter_rib(cx: FlattenContext, args: Seq<Argument>, span: Span, n: int) -> Map<
    usize,
    RibEntry,
>
    decreases n,
{
    if n <= 0 {
        Map::empty()
    } else {
        rib_add(
            parameter_rib(cx, args, span, n - 1),
            args[n - 1].name.spec_group(),
            known_or_unknown(cx.spec_node_type(args[n - 1].kind)),
            span,
        ).0
    }
}

/// The names of the parameters.
pub open spec fn parameter_names(args: Seq<Argument>) -> Seq<SpanRef> {
    Seq::new(args.len(), |i: int| args[i].name)
}

/// The dotted name before the imported names: that of the module of a
/// `from` import, nothing for a plain import.
pub open spec fn import_prefix(cx: FlattenContext, import: Import) -> Option<Seq<SpanRef>> {
    match import.module {
        Some(m) => Ast::spec_components(cx.ast@, m as int),
        None => Some(Seq::empty()),
    }
}

/// One import instruction for each of the first `n` imported names.
pub open spec fn import_code(cx: FlattenContext, import: Import, n: int) -> Result<
    Seq<Step>,
    MontyError,
>
    decreases n,
{
    if n <= 0 {
        Ok(Seq::empty())
    } else {
        match import_code(cx, import, n - 1) {
            Err(e) => Err(e),
            Ok(code) => match (
                import_prefix(cx, import),
                Ast::spec_components(cx.ast@, import.names@[n - 1] as int),
            ) {
                (Some(prefix), Some(path)) => Ok(code + one(Op::Import { path: prefix + path }, None)),
                _ => Err(MontyError::InferenceFailure),
            },
        }
    }
}

/// A block of plain code that defines no function and leaves the rib as it
/// was.
pub open spec fn plain(base: usize, code: Seq<Step>, rib: Map<usize, RibEntry>) -> Result<
    Block,
    MontyError,
> {
    if base + code.len() > usize::MAX {
        Err(MontyError::InferenceFailure)
    } else {
        Ok(Block { code, rib, functions: Seq::empty() })
    }
}

/// What the statement `node` becomes when its first instruction gets the
/// value id `base`, the rib is `rib`, and the next function to be defined
/// gets the sequence `next`.
///
/// * An assignment becomes the value and the store into the variable; the
///   rib records the variable with the type of the value, or with the
///   unknown type. The first record of a name stays.
/// * A `return` becomes the value, or the constant `None`, and the return.
/// * An `if` becomes the test, the branch, a block for the body that ends
///   with a jump past the `else`, a block for the `else`, and the block at
///   which both meet.
/// * A `while` becomes the block of the test, the branch, the block of the
///   body that ends with a jump back to the test, and the block after the
///   loop.
/// * A function definition becomes the one instruction that names the
///   sequence of the body. The body is lowered into that sequence, from
///   value id zero, with a rib that holds the parameters.
/// * A class definition and an import become the instructions of those
///   names; `pass`, a comment and a bare annotation do nothing.
/// * Any other node is an expression, lowered for its effect.
pub open spec fn lowered_stmt(
    cx: FlattenContext,
    node: NodeId,
    base: usize,
    rib: Map<usize, RibEntry>,
    next: usize,
) -> Result<Block, MontyError>
    decreases 2 * node + 1, 0int,
{
    if node >= cx.ast@.len() {
        Err(MontyError::InferenceFailure)
    } else {
        let spanned = cx.ast@[node as int];
        match spanned.inner {
            AstNode::Assign(a) => if a.value >= node {
                Err(MontyError::InferenceFailure)
            } else {
                match lowered_expr(cx, a.value, base, rib) {
                    Err(e) => Err(e),
                    Ok(code) => if code.len() == 0 {
                        Err(MontyError::InferenceFailure)
                    } else {
                        plain(
                            base,
                            code + one(
                                Op::SetVar {
                                    variable: a.name,
                                    value: (base + code.len() - 1) as usize,
                                },
                                Some(TypeMap::NEVER),
                            ),
                            rib_add(
                                rib,
                                a.name.spec_group(),
                                known_or_unknown(cx.spec_node_type(a.value)),
                                spanned.span,
                            ).0,
                        )
                    },
                }
            },
            AstNode::Ret(r) => match r.value {
                Some(v) => if v >= node {
                    Err(MontyError::InferenceFailure)
                } else {
                    match lowered_expr(cx, v, base, rib) {
                        Err(e) => Err(e),
                        Ok(code) => if code.len() == 0 {
                            Err(MontyError::InferenceFailure)
                        } else {
                            plain(
                                base,
                                code + one(
                                    Op::Return { value: (base + code.len() - 1) as usize },
                                    None,
                                ),
                                rib,
                            )
                        },
                    }
                },
                None => plain(
                    base,
                    one(Op::Const(Const::NoneLiteral), Some(TypeMap::NONE_TYPE)) + one(
                        Op::Return { value: base },
                        None,
                    ),
                    rib,
                ),
            },
            AstNode::If(i) => if i.test >= node {
                Err(MontyError::InferenceFailure)
            } else {
                match lowered_expr(cx, i.test, base, rib) {
                    Err(e) => Err(e),
                    Ok(tested) => if tested.len() == 0 || base + tested.len() + 2 > usize::MAX {
                        Err(MontyError::InferenceFailure)
                    } else {
                        let branch = (base + tested.len()) as usize;
                        match lowered_body(
                            cx,
                            i.body@,
                            node,
                            (branch + 2) as usize,
                            rib,
                            next,
                            i.body@.len() as int,
                        ) {
                            Err(e) => Err(e),
                            Ok(truthy) => if branch + 2 + truthy.code.len() + 2 > usize::MAX || next
                                + truthy.functions.len() > usize::MAX {
                                Err(MontyError::InferenceFailure)
                            } else {
                                let other = (branch + 2 + truthy.code.len() + 1) as usize;
                                match lowered_body(
                                    cx,
                                    i.orelse@,
                                    node,
                                    (other + 1) as usize,
                                    truthy.rib,
                                    (next + truthy.functions.len()) as usize,
                                    i.orelse@.len() as int,
                                ) {
                                    Err(e) => Err(e),
                                    Ok(falsey) => if other + 1 + falsey.code.len() + 1
                                        > usize::MAX {
                                        Err(MontyError::InferenceFailure)
                                    } else {
                                        let end = (other + 1 + falsey.code.len()) as usize;
                                        Ok(
                                            Block {
                                                code: tested + one(
                                                    Op::If {
                                                        test: (branch - 1) as usize,
                                                        truthy: Some((branch + 1) as usize),
                                                        falsey: Some(other),
                                                    },
                                                    None,
                                                ) + one(Op::JumpTarget, None) + truthy.code + one(
                                                    Op::Br { to: end },
                                                    None,
                                                ) + one(Op::JumpTarget, None) + falsey.code + one(
                                                    Op::JumpTarget,
                                                    None,
                                                ),
                                                rib: falsey.rib,
                                                functions: truthy.functions + falsey.functions,
                                            },
                                        )
                                    },
                                }
                            },
                        }
                    },
                }
            },
            AstNode::While(w) => if w.test >= node || base == usize::MAX {
                Err(MontyError::InferenceFailure)
            } else {
                match lowered_expr(cx, w.test, (base + 1) as usize, rib) {
                    Err(e) => Err(e),
                    Ok(tested) => if tested.len() == 0 || base + 1 + tested.len() + 2
                        > usize::MAX {
                        Err(MontyError::InferenceFailure)
                    } else {
                        let branch = (base + 1 + tested.len()) as usize;
                        match lowered_body(
                            cx,
                            w.body@,
                            node,
                            (branch + 2) as usize,
                            rib,
                            next,
                            w.body@.len() as int,
                        ) {
                            Err(e) => Err(e),
                            Ok(body) => if branch + 2 + body.code.len() + 2 > usize::MAX {
                                Err(MontyError::InferenceFailure)
                            } else {
                                let end = (branch + 2 + body.code.len() + 1) as usize;
                                Ok(
                                    Block {
                                        code: one(Op::JumpTarget, None) + tested + one(
                                            Op::If {
                                                test: (branch - 1) as usize,
                                                truthy: Some((branch + 1) as usize),
                                                falsey: Some(end),
                                            },
                                            None,
                                        ) + one(Op::JumpTarget, None) + body.code + one(
                                            Op::Br { to: base },
                                            None,
                                        ) + one(Op::JumpTarget, None),
                                        rib: body.rib,
                                        functions: body.functions,
                                    },
                                )
                            },
                        }
                    },
                }
            },
            AstNode::FuncDef(f) => if base == usize::MAX || next == usize::MAX {
                Err(MontyError::InferenceFailure)
            } else {
                match lowered_body(
                    cx,
                    f.body@,
                    node,
                    0,
                    parameter_rib(cx, f.args@, spanned.span, f.args@.len() as int),
                    (next + 1) as usize,
                    f.body@.len() as int,
                ) {
                    Err(e) => Err(e),
                    Ok(body) => Ok(
                        Block {
                            code: one(
                                Op::Defn {
                                    name: f.name,
                                    params: parameter_names(f.args@),
                                    sequence_id: next,
                                },
                                cx.spec_node_type(node),
                            ),
                            rib,
                            functions: seq![FunctionBlock { code: body.code, rib: body.rib }]
                                + body.functions,
                        },
                    ),
                }
            },
            AstNode::ClassDef(c) => plain(
                base,
                one(Op::Class { name: c.name }, cx.spec_node_type(node)),
                rib,
            ),
            AstNode::Import(i) => match import_code(cx, i, i.names@.len() as int) {
                Ok(code) => plain(base, code, rib),
                Err(e) => Err(e),
            },
            AstNode::Pass | AstNode::Comment(_) | AstNode::Annotation { .. } => plain(
                base,
                one(Op::Nop, None),
                rib,
            ),
            _ => match lowered_expr(cx, node, base, rib) {
                Ok(code) => Ok(Block { code, rib, functions: Seq::empty() }),
                Err(e) => Err(e),
            },
        }
    }
}

/// What the first `n` of the statements `nodes` become, one after the
/// other.
pub open spec fn lowered_body(
    cx: FlattenContext,
    nodes: Seq<NodeId>,
    bound: NodeId,
    base: usize,
    rib: Map<usize, RibEntry>,
    next: usize,
    n: int,
) -> Result<Block, MontyError>
    decreases 2 * bound, n,
{
    if n <= 0 {
        Ok(Block { code: Seq::empty(), rib, functions: Seq::empty() })
    } else {
        match lowered_body(cx, nodes, bound, base, rib, next, n - 1) {
            Err(e) => Err(e),
            Ok(before) => if nodes[n - 1] >= bound || base + before.code.len() > usize::MAX || next
                + before.functions.len() > usize::MAX {
                Err(MontyError::InferenceFailure)
            } else {
                match lowered_stmt(
                    cx,
                    nodes[n - 1],
                    (base + before.code.len()) as usize,
                    before.rib,
                    (next + before.functions.len()) as usize,
                ) {
                    Err(e) => Err(e),
                    Ok(stmt) => Ok(
                        Block {
                            code: before.code + stmt.code,
                            rib: stmt.rib,
                            functions: before.functions + stmt.functions,
                        },
                    ),
                }
            },
        }
    }
}

proof fn lemma_lowered_body_fail(
    cx: FlattenContext,
    nodes: Seq<NodeId>,
    bound: NodeId,
    base: usize,
    rib: Map<usize, RibEntry>,
    next: usize,
    at: int,
    n: int,
)
    requires
        0 < at <= n,
        lowered_body(cx, nodes, bound, base, rib, next, at).is_err(),
    ensures
        lowered_body(cx, nodes, bound, base, rib, next, n) == lowered_body(
            cx,
            nodes,
            bound,
            base,
            rib,
            next,
            at,
        ),
    decreases n - at,
{
    if at < n {
        lemma_lowered_body_fail(cx, nodes, bound, base, rib, next, at, n - 1);
    }
}

fn add_functions(into: &mut Vec<LoweredFunction>, more: Vec<LoweredFunction>)
    requires
        forall|i: int| 0 <= i < old(into)@.len() ==> (#[trigger] old(into)@[i]).ribs.wf(),
        forall|i: int| 0 <= i < more@.len() ==> (#[trigger] more@[i]).ribs.wf(),
    ensures
        function_blocks(final(into)@) == function_blocks(old(into)@) + function_blocks(more@),
        final(into)@.len() == old(into)@.len() + more@.len(),
        forall|i: int| 0 <= i < final(into)@.len() ==> (#[trigger] final(into)@[i]).ribs.wf(),
{
    let mut more = more;
    let ghost added = more@;
    into.append(&mut more);
    assert(function_blocks(into@) =~= function_blocks(old(into)@) + function_blocks(added));
    assert forall|i: int| 0 <= i < into@.len() implies (#[trigger] into@[i]).ribs.wf() by {
        if i < old(into)@.len() {
            assert(into@[i] == old(into)@[i]);
        } else {
            assert(into@[i] == added[i - old(into)@.len()]);
        }
    }
}

fn plain_block(base: usize, code: Vec<Emitted>, ribs: Ribs) -> (result: Result<
    LoweredBlock,
    MontyError,
>)
    requires
        ribs.wf(),
    ensures
        match result {
            Ok(block) => plain(base, steps(code@), ribs@) == Ok::<Block, MontyError>(block@)
                && block.wf() && block.code@ == code@,
            Err(e) => plain(base, steps(code@), ribs@) == Err::<Block, MontyError>(e),
        },
{
    match base.checked_add(code.len()) {
        Some(_) => {
            let functions: Vec<LoweredFunction> = Vec::new();
            assert(function_blocks(functions@) =~= Seq::<FunctionBlock>::empty());
            Ok(LoweredBlock { code, ribs, functions })
        },
        None => Err(MontyError::InferenceFailure),
    }
}

fn lower_import(cx: &FlattenContext, import: &Import) -> (result: Result<Vec<Emitted>, MontyError>)
    requires
        cx.wf(),
    ensures
        match result {
            Ok(code) => import_code(*cx, *import, import.names@.len() as int) == Ok::<
                Seq<Step>,
                MontyError,
            >(steps(code@)),
            Err(e) => import_code(*cx, *import, import.names@.len() as int) == Err::<
                Seq<Step>,
                MontyError,
            >(e),
        },
{
    let mut code: Vec<Emitted> = Vec::new();
    assert(steps(code@) =~= Seq::<Step>::empty());
    let mut i: usize = 0;
    while i < import.names.len()
        invariant
            cx.wf(),
            i <= import.names@.len(),
            import_code(*cx, *import, i as int) == Ok::<Seq<Step>, MontyError>(steps(code@)),
        decreases import.names@.len() - i,
    {
        let prefix = match import.module {
            Some(m) => cx.ast.components(m),
            None => Some(Vec::new()),
        };
        let path = cx.ast.components(import.names[i]);
        match (prefix, path) {
            (Some(mut full), Some(mut path)) => {
                let ghost p = full@;
                let ghost q = path@;
                full.append(&mut path);
                assert(full@ =~= p + q);
                emit(&mut code, RawInst::Import { path: full }, None);
            },
            _ => {
                proof {
                    lemma_import_code_fail(*cx, *import, i as int + 1, import.names@.len() as int);
                }
                return Err(MontyError::InferenceFailure);
            },
        }
        i += 1;
    }
    Ok(code)
}

proof fn lemma_import_code_fail(cx: FlattenContext, import: Import, at: int, n: int)
    requires
        0 < at <= n,
        import_code(cx, import, at).is_err(),
    ensures
        import_code(cx, import, n) == import_code(cx, import, at),
    decreases n - at,
{
    if at < n {
        lemma_import_code_fail(cx, import, at, n - 1);
    }
}

fn bind_parameters(cx: &FlattenContext, args: &Vec<Argument>, span: Span) -> (ribs: Ribs)
    ensures
        ribs.wf(),
        ribs@ == parameter_rib(*cx, args@, span, args@.len() as int),
{
    let mut ribs = Ribs::new();
    let mut i: usize = 0;
    while i < args.len()
        invariant
            i <= args@.len(),
            ribs.wf(),
            ribs@ == parameter_rib(*cx, args@, span, i as int),
        decreases args@.len() - i,
    {
        let t = match cx.node_type(args[i].kind) {
            Some(id) => id,
            None => TypeMap::UNKNOWN,
        };
        let _ = ribs.add(args[i].name.group(), t, span);
        i += 1;
    }
    ribs
}

/// Lowers the statements `nodes` one after the other.
pub fn lower_body(
    cx: &FlattenContext,
    nodes: &Vec<NodeId>,
    bound: NodeId,
    base: usize,
    ribs: Ribs,
    next: usize,
) -> (result: Result<LoweredBlock, MontyError>)
    requires
        cx.wf(),
        ribs.wf(),
    ensures
        match result {
            Ok(block) => {
                &&& lowered_body(*cx, nodes@, bound, base, ribs@, next, nodes@.len() as int)
                    == Ok::<Block, MontyError>(block@)
                &&& block.wf()
                &&& base + block.code@.len() <= usize::MAX
                &&& next + block.functions@.len() <= usize::MAX
            },
            Err(e) => lowered_body(*cx, nodes@, bound, base, ribs@, next, nodes@.len() as int)
                == Err::<Block, MontyError>(e),
        },
    decreases 2 * bound, nodes@.len(),
{
    let ghost start = ribs@;
    let mut block = LoweredBlock { code: Vec::new(), ribs, functions: Vec::new() };
    assert(steps(block.code@) =~= Seq::<Step>::empty());
    assert(function_blocks(block.functions@) =~= Seq::<FunctionBlock>::empty());
    let mut i: usize = 0;
    while i < nodes.len()
        invariant
            cx.wf(),
            block.wf(),
            i <= nodes@.len(),
            base + block.code@.len() <= usize::MAX,
            next + block.functions@.len() <= usize::MAX,
            start == ribs@,
            lowered_body(*cx, nodes@, bound, base, start, next, i as int) == Ok::<
                Block,
                MontyError,
            >(block@),
        decreases nodes@.len() - i,
    {
        let node = nodes[i];
        if node >= bound {
            proof {
                lemma_lowered_body_fail(
                    *cx,
                    nodes@,
                    bound,
                    base,
                    start,
                    next,
                    i as int + 1,
                    nodes@.len() as int,
                );
            }
            return Err(MontyError::InferenceFailure);
        }
        let LoweredBlock { code, ribs, functions } = block;
        let mut code = code;
        let mut functions = functions;
        match lower_stmt(cx, node, base + code.len(), ribs, next + functions.len()) {
            Ok(stmt) => {
                let LoweredBlock { code: more, ribs: after, functions: defined } = stmt;
                emit_all(&mut code, more);
                add_functions(&mut functions, defined);
                block = LoweredBlock { code, ribs: after, functions };
            },
            Err(e) => {
                proof {
                    lemma_lowered_body_fail(
                        *cx,
                        nodes@,
                        bound,
                        base,
                        start,
                        next,
                        i as int + 1,
                        nodes@.len() as int,
                    );
                }
                return Err(e);
            },
        }
        i += 1;
    }
    Ok(block)
}

/// Lowers the statement `node`.
pub fn lower_stmt(cx: &FlattenContext, node: NodeId, base: usize, ribs: Ribs, next: usize) -> (result:
    Result<LoweredBlock, MontyError>)
    requires
        cx.wf(),
        ribs.wf(),
    ensures
        match result {
            Ok(block) => {
                &&& lowered_stmt(*cx, node, base, ribs@, next) == Ok::<Block, MontyError>(block@)
                &&& block.wf()
                &&& base + block.code@.len() <= usize::MAX
                &&& next + block.functions@.len() <= usize::MAX
            },
            Err(e) => lowered_stmt(*cx, node, base, ribs@, next) == Err::<Block, MontyError>(e),
        },
    decreases 2 * node + 1, 0int,
{
    let spanned = match cx.ast.get(node) {
        Some(s) => s,
        None => {
            return Err(MontyError::InferenceFailure);
        },
    };
    match &spanned.inner {
        AstNode::Assign(a) => {
            if a.value >= node {
                return Err(MontyError::InferenceFailure);
            }
            let mut code = match lower_expr(cx, a.value, base, &ribs) {
                Ok(c) => c,
                Err(e) => {
                    return Err(e);
                },
            };
            let value = base + code.len() - 1;
            emit(&mut code, RawInst::SetVar { variable: a.name, value }, Some(TypeMap::NEVER));
            let t = match cx.node_type(a.value) {
                Some(id) => id,
                None => TypeMap::UNKNOWN,
            };
            let mut ribs = ribs;
            let _ = ribs.add(a.name.group(), t, spanned.span);
            plain_block(base, code, ribs)
        },
        AstNode::Ret(r) => match r.value {
            Some(v) => {
                if v >= node {
                    return Err(MontyError::InferenceFailure);
                }
                let mut code = match lower_expr(cx, v, base, &ribs) {
                    Ok(c) => c,
                    Err(e) => {
                        return Err(e);
                    },
                };
                let value = base + code.len() - 1;
                emit(&mut code, RawInst::Return { value }, None);
                plain_block(base, code, ribs)
            },
            None => {
                let mut code: Vec<Emitted> = Vec::new();
                assert(steps(code@) =~= Seq::<Step>::empty());
                emit(&mut code, RawInst::Const(Const::NoneLiteral), Some(TypeMap::NONE_TYPE));
                emit(&mut code, RawInst::Return { value: base }, None);
                plain_block(base, code, ribs)
            },
        },
        AstNode::If(i) => {
            if i.test >= node {
                return Err(MontyError::InferenceFailure);
            }
            let mut code = match lower_expr(cx, i.test, base, &ribs) {
                Ok(c) => c,
                Err(e) => {
                    return Err(e);
                },
            };
            let branch = base + code.len();
            if branch > usize::MAX - 2 {
                return Err(MontyError::InferenceFailure);
            }
            let truthy = match lower_body(cx, &i.body, node, branch + 2, ribs, next) {
                Ok(b) => b,
                Err(e) => {
                    return Err(e);
                },
            };
            let LoweredBlock { code: truthy_code, ribs: mid, functions: mut functions } = truthy;
            if branch + 2 + truthy_code.len() > usize::MAX - 2 {
                return Err(MontyError::InferenceFailure);
            }
            let other = branch + 2 + truthy_code.len() + 1;
            let falsey = match lower_body(
                cx,
                &i.orelse,
                node,
                other + 1,
                mid,
                next + functions.len(),
            ) {
                Ok(b) => b,
                Err(e) => {
                    return Err(e);
                },
            };
            let LoweredBlock { code: falsey_code, ribs: after, functions: defined } = falsey;
            if other + 1 + falsey_code.len() > usize::MAX - 1 {
                return Err(MontyError::InferenceFailure);
            }
            let end = other + 1 + falsey_code.len();
            emit(
                &mut code,
                RawInst::If { test: branch - 1, truthy: Some(branch + 1), falsey: Some(other) },
                None,
            );
            emit(&mut code, RawInst::JumpTarget, None);
            emit_all(&mut code, truthy_code);
            emit(&mut code, RawInst::Br { to: end }, None);
            emit(&mut code, RawInst::JumpTarget, None);
            emit_all(&mut code, falsey_code);
            emit(&mut code, RawInst::JumpTarget, None);
            add_functions(&mut functions, defined);
            Ok(LoweredBlock { code, ribs: after, functions })
        },
        AstNode::While(w) => {
            if w.test >= node || base == usize::MAX {
                return Err(MontyError::InferenceFailure);
            }
            let tested = match lower_expr(cx, w.test, base + 1, &ribs) {
                Ok(c) => c,
                Err(e) => {
                    return Err(e);
                },
            };
            let branch = base + 1 + tested.len();
            if branch > usize::MAX - 2 {
                return Err(MontyError::InferenceFailure);
            }
            let body = match lower_body(cx, &w.body, node, branch + 2, ribs, next) {
                Ok(b) => b,
                Err(e) => {
                    return Err(e);
                },
            };
            let LoweredBlock { code: body_code, ribs: after, functions } = body;
            if branch + 2 + body_code.len() > usize::MAX - 2 {
                return Err(MontyError::InferenceFailure);
            }
            let end = branch + 2 + body_code.len() + 1;
            let mut code: Vec<Emitted> = Vec::new();
            assert(steps(code@) =~= Seq::<Step>::empty());
            emit(&mut code, RawInst::JumpTarget, None);
            emit_all(&mut code, tested);
            emit(
                &mut code,
                RawInst::If { test: branch - 1, truthy: Some(branch + 1), falsey: Some(end) },
                None,
            );
            emit(&mut code, RawInst::JumpTarget, None);
            emit_all(&mut code, body_code);
            emit(&mut code, RawInst::Br { to: base }, None);
            emit(&mut code, RawInst::JumpTarget, None);
            Ok(LoweredBlock { code, ribs: after, functions })
        },
        AstNode::FuncDef(f) => {
            if base == usize::MAX || next == usize::MAX {
                return Err(MontyError::InferenceFailure);
            }
            let bound = bind_parameters(cx, &f.args, spanned.span);
            let body = match lower_body(cx, &f.body, node, 0, bound, next + 1) {
                Ok(b) => b,
                Err(e) => {
                    return Err(e);
                },
            };
            let LoweredBlock { code: body_code, ribs: body_ribs, functions: nested } = body;
            let mut params: Vec<SpanRef> = Vec::new();
            let mut k: usize = 0;
            while k < f.args.len()
                invariant
                    k <= f.args@.len(),
                    params@ == parameter_names(f.args@).subrange(0, k as int),
                decreases f.args@.len() - k,
            {
                params.push(f.args[k].name);
                k += 1;
                assert(params@ =~= parameter_names(f.args@).subrange(0, k as int));
            }
            assert(params@ =~= parameter_names(f.args@));
            let mut code: Vec<Emitted> = Vec::new();
            assert(steps(code@) =~= Seq::<Step>::empty());
            emit(
                &mut code,
                RawInst::Defn { name: f.name, params, sequence_id: next },
                cx.node_type(node),
            );
            let mut functions: Vec<LoweredFunction> = Vec::new();
            functions.push(LoweredFunction { code: body_code, ribs: body_ribs });
            assert(function_blocks(functions@) =~= seq![
                FunctionBlock { code: steps(body_code@), rib: body_ribs@ },
            ]);
            add_functions(&mut functions, nested);
            Ok(LoweredBlock { code, ribs, functions })
        },
        AstNode::ClassDef(c) => {
            let mut code: Vec<Emitted> = Vec::new();
            assert(steps(code@) =~= Seq::<Step>::empty());
            emit(&mut code, RawInst::Class { name: c.name }, cx.node_type(node));
            plain_block(base, code, ribs)
        },
        AstNode::Import(i) => match lower_import(cx, i) {
            Ok(code) => plain_block(base, code, ribs),
            Err(e) => Err(e),
        },
        AstNode::Pass | AstNode::Comment(_) | AstNode::Annotation { .. } => {
            let mut code: Vec<Emitted> = Vec::new();
            assert(steps(code@) =~= Seq::<Step>::empty());
            emit(&mut code, RawInst::Nop, None);
            plain_block(base, code, ribs)
        },
        _ => match lower_expr(cx, node, base, &ribs) {
            Ok(code) => {
                let functions: Vec<LoweredFunction> = Vec::new();
                assert(function_blocks(functions@) =~= Seq::<FunctionBlock>::empty());
                Ok(LoweredBlock { code, ribs, functions })
            },
            Err(e) => Err(e),
        },
    }
}

/// The operations of the steps.
pub open spec fn step_ops(code: Seq<Step>) -> Seq<Op> {
    Seq::new(code.len(), |i: int| code[i].op)
}

/// The types noted on the steps.
pub open spec fn step_types(code: Seq<Step>) -> Seq<Option<LocalTypeId>> {
    Seq::new(code.len(), |i: int| code[i].type_id)
}

/// Makes a sequence of the emitted instructions: each gets its position as
/// its value id.
pub fn sequence_from(kind: SequenceType, code: Vec<Emitted>) -> (sequence: FlatSeq)
    ensures
        sequence.wf(),
        sequence.spec_kind() == kind,
        sequence.ops() == step_ops(steps(code@)),
        sequence.types() == step_types(steps(code@)),
{
    let mut code = code;
    let ghost all = steps(code@);
    let mut stack: Vec<Emitted> = Vec::new();
    while code.len() > 0
        invariant
            code@.len() + stack@.len() == all.len(),
            forall|i: int| 0 <= i < code@.len() ==> (#[trigger] code@[i])@ == all[i],
            forall|i: int|
                0 <= i < stack@.len() ==> (#[trigger] stack@[i])@ == all[all.len() - 1 - i],
        decreases code@.len(),
    {
        let last = code.pop().unwrap();
        stack.push(last);
    }
    let mut sequence = FlatSeq::new(kind);
    while stack.len() > 0
        invariant
            sequence.wf(),
            sequence.spec_kind() == kind,
            sequence.ops().len() + stack@.len() == all.len(),
            sequence.types().len() == sequence.ops().len(),
            forall|i: int|
                0 <= i < stack@.len() ==> (#[trigger] stack@[i])@ == all[all.len() - 1 - i],
            forall|i: int| 0 <= i < sequence.ops().len() ==> sequence.ops()[i] == all[i].op,
            forall|i: int| 0 <= i < sequence.ops().len() ==> sequence.types()[i] == all[i].type_id,
        decreases stack@.len(),
    {
        let ghost n = sequence.ops().len() as int;
        let ghost top = stack@[stack@.len() - 1];
        assert(top@ == all[n]);
        let Emitted { op, type_id } = stack.pop().unwrap();
        let _ = sequence.push(op, type_id);
    }
    assert(sequence.ops() =~= step_ops(all));
    assert(sequence.types() =~= step_types(all));
    sequence
}

impl FlatCode {
    /// Adds a function sequence that holds the given code, in order, and
    /// gives its index. The sequences that were there stay as they are, and
    /// the current sequence is the one that it was: the new sequence is
    /// entered and left again.
    pub fn with_new_sequence(&mut self, code: Vec<Emitted>) -> (index: usize)
        requires
            old(self).wf(),
        ensures
            final(self).wf(),
            index == old(self).seqs().len(),
            final(self).current() == old(self).current(),
            final(self).seqs().len() == old(self).seqs().len() + 1,
            forall|s: int|
                0 <= s < old(self).seqs().len() ==> final(self).seqs()[s] == old(self).seqs()[s],
            final(self).seqs()[index as int].spec_kind() == SequenceType::Function,
            final(self).seqs()[index as int].ops() == step_ops(steps(code@)),
            final(self).seqs()[index as int].types() == step_types(steps(code@)),
    {
        let sequence = sequence_from(SequenceType::Function, code);
        self.add_sequence(sequence)
    }
}

/// Flattens a module: the first sequence and the first rib are those of
/// its top level; then follow, for every function defined in it, the
/// sequence and the rib of the function, in the order of the definitions.
pub fn flatten_module(cx: &FlattenContext, module: &Module) -> (result: Result<
    (FlatCode, Vec<Ribs>),
    MontyError,
>)
    requires
        cx.wf(),
    ensures
        ({
            let lowered = lowered_body(
                *cx,
                module.body@,
                cx.ast@.len() as usize,
                0,
                Map::<usize, RibEntry>::empty(),
                1,
                module.body@.len() as int,
            );
            match result {
                Ok((code, ribs)) => {
                    &&& lowered.is_ok()
                    &&& code.wf()
                    &&& code.seqs().len() == 1 + lowered.unwrap().functions.len()
                    &&& ribs@.len() == code.seqs().len()
                    &&& code.seqs()[0].ops() == step_ops(lowered.unwrap().code)
                    &&& code.seqs()[0].types() == step_types(lowered.unwrap().code)
                    &&& ribs@[0]@ == lowered.unwrap().rib
                    &&& forall|i: int|
                        0 <= i < lowered.unwrap().functions.len() ==> {
                            &&& (#[trigger] code.seqs()[i + 1]).ops() == step_ops(
                                lowered.unwrap().functions[i].code,
                            )
                            &&& code.seqs()[i + 1].types() == step_types(
                                lowered.unwrap().functions[i].code,
                            )
                            &&& ribs@[i + 1]@ == lowered.unwrap().functions[i].rib
                        }
                },
                Err(e) => lowered == Err::<Block, MontyError>(e),
            }
        }),
{
    let block = match lower_body(cx, &module.body, cx.ast.len(), 0, Ribs::new(), 1) {
        Ok(b) => b,
        Err(e) => {
            return Err(e);
        },
    };
    let ghost lowered = block@;
    let LoweredBlock { code: top, ribs: top_ribs, functions } = block;
    let mut code = FlatCode::new();
    code.set_module_sequence(sequence_from(SequenceType::Module, top));
    let mut ribs: Vec<Ribs> = Vec::new();
    ribs.push(top_ribs);
    let mut functions = functions;
    let ghost all = functions@;
    let mut stack: Vec<LoweredFunction> = Vec::new();
    while functions.len() > 0
        invariant
            functions@.len() + stack@.len() == all.len(),
            forall|i: int| 0 <= i < functions@.len() ==> functions@[i] == all[i],
            forall|i: int| 0 <= i < stack@.len() ==> stack@[i] == all[all.len() - 1 - i],
        decreases functions@.len(),
    {
        let last = functions.pop().unwrap();
        stack.push(last);
    }
    while stack.len() > 0
        invariant
            code.wf(),
            lowered.functions == function_blocks(all),
            code.seqs().len() + stack@.len() == 1 + all.len(),
            ribs@.len() == code.seqs().len(),
            code.seqs()[0].ops() == step_ops(lowered.code),
            code.seqs()[0].types() == step_types(lowered.code),
            ribs@[0]@ == lowered.rib,
            forall|i: int| 0 <= i < stack@.len() ==> stack@[i] == all[all.len() - 1 - i],
            forall|i: int|
                0 <= i < code.seqs().len() - 1 ==> {
                    &&& (#[trigger] code.seqs()[i + 1]).ops() == step_ops(steps(all[i].code@))
                    &&& code.seqs()[i + 1].types() == step_types(steps(all[i].code@))
                    &&& ribs@[i + 1]@ == all[i].ribs@
                },
        decreases stack@.len(),
    {
        let ghost n = code.seqs().len() - 1;
        let ghost before = code.seqs();
        let ghost ribs_before = ribs@;
        let LoweredFunction { code: body, ribs: body_ribs } = stack.pop().unwrap();
        let _ = code.with_new_sequence(body);
        ribs.push(body_ribs);
        proof {
            assert forall|i: int| 0 <= i < code.seqs().len() - 1 implies {
                &&& (#[trigger] code.seqs()[i + 1]).ops() == step_ops(steps(all[i].code@))
                &&& code.seqs()[i + 1].types() == step_types(steps(all[i].code@))
                &&& ribs@[i + 1]@ == all[i].ribs@
            } by {
                if i < n {
                    assert(code.seqs()[i + 1] == before[i + 1]);
                    assert(ribs@[i + 1] == ribs_before[i + 1]);
                }
            }
        }
    }
    Ok((code, ribs))
}

/// Whether the node `sum` is the sum, or another operation, of two
/// locals of the rib for which the class of the left one has a method.
pub open spec fn operation_on_locals(cx: FlattenContext, sum: NodeId, rib: Map<usize, RibEntry>) -> bool {
    &&& sum < cx.ast@.len()
    &&& cx.ast@[sum as int].inner matches AstNode::BinOp { left, op, right } && {
        &&& left < sum && right < sum
        &&& cx.ast@[left as int].inner matches AstNode::Name(a) && rib.contains_key(a.spec_group())
        &&& cx.ast@[right as int].inner matches AstNode::Name(b) && rib.contains_key(
            b.spec_group(),
        )
        &&& cx.spec_node_type(left) matches Some(lt) && operator_method(
            cx.store,
            cx.interner,
            lt,
            op,
        ).is_some()
    }
}

/// The code of such an operation: the two locals are loaded, the method
/// of the operator is referred to, and it is called with the two loads as
/// its arguments.
pub open spec fn operation_code(cx: FlattenContext, sum: NodeId, base: usize) -> Seq<Step> {
    let left = cx.ast@[sum as int].inner->BinOp_left;
    let right = cx.ast@[sum as int].inner->BinOp_right;
    let op = cx.ast@[sum as int].inner->BinOp_op;
    let method = operator_method(cx.store, cx.interner, cx.spec_node_type(left).unwrap(), op).unwrap();
    seq![
        Step {
            op: Op::Privileged(PrivInst::UseLocal { var: cx.ast@[left as int].inner->Name_0 }),
            type_id: cx.spec_node_type(left),
        },
        Step {
            op: Op::Privileged(PrivInst::UseLocal { var: cx.ast@[right as int].inner->Name_0 }),
            type_id: cx.spec_node_type(right),
        },
        Step { op: Op::Privileged(PrivInst::RefVal { val: method }), type_id: None },
        Step {
            op: Op::Call {
                callable: (base + 2) as usize,
                arguments: seq![base, (base + 1) as usize],
            },
            type_id: cx.spec_node_type(sum),
        },
    ]
}

/// A name that the rib binds is read from its stack slot.
pub proof fn lemma_local_is_loaded(cx: FlattenContext, node: NodeId, base: usize, rib: Map<usize, RibEntry>)
    requires
        base + 1 <= usize::MAX,
        node < cx.ast@.len(),
        cx.ast@[node as int].inner matches AstNode::Name(a) && rib.contains_key(a.spec_group()),
    ensures
        lowered_expr(cx, node, base, rib) == Ok::<Seq<Step>, MontyError>(
            one(
                Op::Privileged(PrivInst::UseLocal { var: cx.ast@[node as int].inner->Name_0 }),
                cx.spec_node_type(node),
            ),
        ),
{
}

proof fn lemma_operands_are_loaded(cx: FlattenContext, sum: NodeId, base: usize, rib: Map<usize, RibEntry>)
    requires
        base + 4 <= usize::MAX,
        operation_on_locals(cx, sum, rib),
    ensures
        lowered_exprs(
            cx,
            seq![cx.ast@[sum as int].inner->BinOp_left, cx.ast@[sum as int].inner->BinOp_right],
            sum,
            base,
            rib,
            2,
        ) == Ok::<(Seq<Step>, Seq<usize>), MontyError>(
            (operation_code(cx, sum, base).subrange(0, 2), seq![base, (base + 1) as usize]),
        ),
{
    let left = cx.ast@[sum as int].inner->BinOp_left;
    let right = cx.ast@[sum as int].inner->BinOp_right;
    let parts = seq![left, right];
    lemma_local_is_loaded(cx, left, base, rib);
    lemma_local_is_loaded(cx, right, (base + 1) as usize, rib);
    let load_a = lowered_expr(cx, left, base, rib).unwrap();
    let load_b = lowered_expr(cx, right, (base + 1) as usize, rib).unwrap();
    assert(lowered_exprs(cx, parts, sum, base, rib, 0) == Ok::<
        (Seq<Step>, Seq<usize>),
        MontyError,
    >((Seq::empty(), Seq::empty())));
    assert(Seq::<Step>::empty() + load_a =~= load_a);
    assert(lowered_exprs(cx, parts, sum, base, rib, 1) == Ok::<
        (Seq<Step>, Seq<usize>),
        MontyError,
    >((load_a, Seq::<usize>::empty().push(base))));
    assert(load_a + load_b =~= operation_code(cx, sum, base).subrange(0, 2));
    assert(Seq::<usize>::empty().push(base).push((base + 1) as usize) =~= seq![
        base,
        (base + 1) as usize,
    ]);
}

/// An operation on two locals becomes the code that [`operation_code`]
/// gives.
pub proof fn lemma_operation_is_flattened(
    cx: FlattenContext,
    sum: NodeId,
    base: usize,
    rib: Map<usize, RibEntry>,
)
    requires
        base + 4 <= usize::MAX,
        operation_on_locals(cx, sum, rib),
    ensures
        lowered_expr(cx, sum, base, rib) == Ok::<Seq<Step>, MontyError>(
            operation_code(cx, sum, base),
        ),
{
    lemma_operands_are_loaded(cx, sum, base, rib);
    let left = cx.ast@[sum as int].inner->BinOp_left;
    let op = cx.ast@[sum as int].inner->BinOp_op;
    let method = operator_method(cx.store, cx.interner, cx.spec_node_type(left).unwrap(), op).unwrap();
    let code = operation_code(cx, sum, base).subrange(0, 2);
    assert(code + one(Op::Privileged(PrivInst::RefVal { val: method }), None) + one(
        Op::Call { callable: (base + 2) as usize, arguments: seq![base, (base + 1) as usize] },
        cx.spec_node_type(sum),
    ) =~= operation_code(cx, sum, base));
}

/// The code of `return a + b` for two locals `a` and `b` whose class
/// implements the addition: the two locals are loaded, without any
/// constant; the operator's method is referred to and called with the two
/// loads as its arguments; the result of the call is returned. These are
/// five instructions with one call and one return. The rib stays as it
/// is, and no function is defined.
pub proof fn lemma_sum_is_flattened(
    cx: FlattenContext,
    ret: NodeId,
    base: usize,
    rib: Map<usize, RibEntry>,
    next: usize,
)
    requires
        base + 5 <= usize::MAX,
        ret < cx.ast@.len(),
        cx.ast@[ret as int].inner matches AstNode::Ret(r) && r.value matches Some(sum) && sum < ret
            && operation_on_locals(cx, sum, rib),
    ensures
        lowered_stmt(cx, ret, base, rib, next) == Ok::<Block, MontyError>(
            Block {
                code: operation_code(
                    cx,
                    cx.ast@[ret as int].inner->Ret_0.value.unwrap(),
                    base,
                ) + one(Op::Return { value: (base + 3) as usize }, None),
                rib,
                functions: Seq::empty(),
            },
        ),
{
    let sum = cx.ast@[ret as int].inner->Ret_0.value.unwrap();
    lemma_operation_is_flattened(cx, sum, base, rib);
    assert(operation_code(cx, sum, base).len() == 4);
}

} // verus!
