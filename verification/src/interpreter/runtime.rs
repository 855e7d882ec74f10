//! The runtime of the interpreter: the objects that exist at compile time,
//! the singletons among them, and the stack of scopes.
//!
//! Every object gets the next allocation id when it is made; ids are never
//! reused. Evaluation is bounded by a budget of nested calls, so that it
//! always ends. A `return` travels as [`PyErr::Return`] up to the call
//! that it ends and never leaves it.

use crate::ast::{Ast, AstNode, FloatLiteral, InfixOp, NodeId, Spanned};
use crate::context::ModuleRef;
use crate::interpreter::dict::{IdPair, PyDictRaw};
use crate::interpreter::object_graph::ObjAllocId;
use crate::interpreter::scope::DynamicScope;
use crate::scope::ScopeRoot;
use crate::span::SpanRef;
use crate::typing::{LocalTypeId, TypeMap};
use vstd::arithmetic::power::pow;
use vstd::prelude::*;

verus! {

/// The operations that the runtime itself implements.
#[derive(Clone, Copy, Debug, PartialEq, Eq, Structural)]
pub enum NativeFn {
    IntAdd,
    IntSub,
    IntMul,
    IntPow,
}

/// What an object holds besides its attributes.
#[derive(Clone, Copy, Debug, PartialEq, Eq, Structural)]
pub enum PyValue {
    Plain,
    Int(i64),
    Bool(bool),
    Float(FloatLiteral),
    /// A string, by the group of its text.
    Str(usize),
    /// A tuple of that many items.
    Tuple(usize),
    Dict,
    /// The function defined at the node.
    Function { def: NodeId },
    Native(NativeFn),
    Class { name: SpanRef },
}

/// What ends an evaluation early. Only the last five are errors; a return
/// and the end of an iteration are caught where they belong.
#[derive(Clone, Copy, Debug, PartialEq, Eq, Structural)]
pub enum PyErr {
    Return(ObjAllocId),
    StopIteration,
    NameError { name: usize },
    TypeError,
    ArityError,
    RecursionLimit,
    Unsupported,
}

/// An object.
pub struct PyObject {
    pub type_id: LocalTypeId,
    pub prototype: Option<ObjAllocId>,
    pub members: PyDictRaw,
    pub items: PyDictRaw,
    pub value: PyValue,
}

/// An object as a value.
pub struct ObjectView {
    pub type_id: LocalTypeId,
    pub prototype: Option<ObjAllocId>,
    pub members: Map<u64, IdPair>,
    pub items: Map<u64, IdPair>,
    pub value: PyValue,
}

impl View for PyObject {
    type V = ObjectView;

    open spec fn view(&self) -> ObjectView {
        ObjectView {
            type_id: self.type_id,
            prototype: self.prototype,
            members: self.members@,
            items: self.items@,
            value: self.value,
        }
    }
}

/// A new object without attributes or items.
pub open spec fn fresh(type_id: LocalTypeId, prototype: Option<ObjAllocId>, value: PyValue) -> ObjectView {
    ObjectView { type_id, prototype, members: Map::empty(), items: Map::empty(), value }
}

/// The objects that exist once and for all: the classes of the builtin
/// types and of the exceptions, and `None`.
#[derive(Clone, Copy, Debug, PartialEq, Eq, Structural)]
pub struct Singletons {
    pub obj_class: ObjAllocId,
    pub int_class: ObjAllocId,
    pub str_class: ObjAllocId,
    pub bool_class: ObjAllocId,
    pub func_class: ObjAllocId,
    pub type_class: ObjAllocId,
    pub base_exc_class: ObjAllocId,
    pub ret_exc_class: ObjAllocId,
    pub stop_iter_exc_class: ObjAllocId,
    pub none: ObjAllocId,
}

/// The singletons as they stand when they are the first ten objects.
pub open spec fn first_singletons() -> Singletons {
    Singletons {
        obj_class: 0,
        type_class: 1,
        int_class: 2,
        str_class: 3,
        bool_class: 4,
        func_class: 5,
        base_exc_class: 6,
        ret_exc_class: 7,
        stop_iter_exc_class: 8,
        none: 9,
    }
}

/// The ten singleton objects: every class has the type of types; the
/// class of objects and `None` have no prototype, the class of types has
/// that of objects, the exceptions for return and for the end of an
/// iteration have the base exception, and every other class has the class
/// of types.
pub open spec fn singleton_objects() -> Seq<ObjectView> {
    seq![
        fresh(TypeMap::TYPE, None, PyValue::Plain),
        fresh(TypeMap::TYPE, Some(0), PyValue::Plain),
        fresh(TypeMap::TYPE, Some(1), PyValue::Plain),
        fresh(TypeMap::TYPE, Some(1), PyValue::Plain),
        fresh(TypeMap::TYPE, Some(1), PyValue::Plain),
        fresh(TypeMap::TYPE, Some(1), PyValue::Plain),
        fresh(TypeMap::TYPE, Some(1), PyValue::Plain),
        fresh(TypeMap::TYPE, Some(6), PyValue::Plain),
        fresh(TypeMap::TYPE, Some(6), PyValue::Plain),
        fresh(TypeMap::NONE_TYPE, None, PyValue::Plain),
    ]
}

/// The objects as values.
pub open spec fn object_views(objects: Seq<PyObject>) -> Seq<ObjectView> {
    Seq::new(objects.len(), |i: int| objects[i]@)
}

/// The bindings of the scopes.
pub open spec fn frame_views(frames: Seq<DynamicScope>) -> Seq<Map<u64, u64>> {
    Seq::new(frames.len(), |i: int| frames[i]@)
}

fn push_object(
    objects: &mut Vec<PyObject>,
    type_id: LocalTypeId,
    prototype: Option<ObjAllocId>,
    value: PyValue,
) -> (id: ObjAllocId)
    ensures
        id == old(objects)@.len(),
        object_views(final(objects)@) == object_views(old(objects)@).push(
            fresh(type_id, prototype, value),
        ),
{
    let id = objects.len() as u64;
    objects.push(
        PyObject { type_id, prototype, members: PyDictRaw::new(), items: PyDictRaw::new(), value },
    );
    assert(object_views(objects@) =~= object_views(old(objects)@).push(
        fresh(type_id, prototype, value),
    ));
    id
}

impl Singletons {
    /// Makes the singletons as the first objects of a runtime.
    pub fn new(objects: &mut Vec<PyObject>) -> (singletons: Self)
        requires
            old(objects)@.len() == 0,
        ensures
            singletons == first_singletons(),
            object_views(final(objects)@) == singleton_objects(),
    {
        let obj_class = push_object(objects, TypeMap::TYPE, None, PyValue::Plain);
        let type_class = push_object(objects, TypeMap::TYPE, Some(obj_class), PyValue::Plain);
        let int_class = push_object(objects, TypeMap::TYPE, Some(type_class), PyValue::Plain);
        let str_class = push_object(objects, TypeMap::TYPE, Some(type_class), PyValue::Plain);
        let bool_class = push_object(objects, TypeMap::TYPE, Some(type_class), PyValue::Plain);
        let func_class = push_object(objects, TypeMap::TYPE, Some(type_class), PyValue::Plain);
        let base_exc_class = push_object(objects, TypeMap::TYPE, Some(type_class), PyValue::Plain);
        let ret_exc_class = push_object(
            objects,
            TypeMap::TYPE,
            Some(base_exc_class),
            PyValue::Plain,
        );
        let stop_iter_exc_class = push_object(
            objects,
            TypeMap::TYPE,
            Some(base_exc_class),
            PyValue::Plain,
        );
        let none = push_object(objects, TypeMap::NONE_TYPE, None, PyValue::Plain);
        assert(object_views(objects@) =~= singleton_objects());
        Singletons {
            obj_class,
            int_class,
            str_class,
            bool_class,
            func_class,
            type_class,
            base_exc_class,
            ret_exc_class,
            stop_iter_exc_class,
            none,
        }
    }
}

/// The number, held to the range of `i64`.
pub open spec fn saturated(v: int) -> i64 {
    if v > i64::MAX {
        i64::MAX
    } else if v < i64::MIN {
        i64::MIN
    } else {
        v as i64
    }
}

/// What a native operation gives for the two numbers: sums, differences,
/// products and powers stay at the bounds of `i64` instead of overflowing.
/// There is no power for an exponent that is negative or above `u32::MAX`.
pub open spec fn native_result(f: NativeFn, lhs: i64, rhs: i64) -> Option<i64> {
    match f {
        NativeFn::IntAdd => Some(saturated(lhs + rhs)),
        NativeFn::IntSub => Some(saturated(lhs - rhs)),
        NativeFn::IntMul => Some(saturated(lhs * rhs)),
        NativeFn::IntPow => if 0 <= rhs <= u32::MAX {
            Some(saturated(pow(lhs as int, rhs as nat)))
        } else {
            None
        },
    }
}

/// `i64::saturating_pow`: the power, held to the range of `i64`.
#[verifier::external_body]
fn saturating_pow(base: i64, exp: u32) -> (power: i64)
    ensures
        power == saturated(pow(base as int, exp as nat)),
{
    base.saturating_pow(exp)
}

/// Applies a native operation.
pub fn call_native(f: NativeFn, lhs: i64, rhs: i64) -> (result: Option<i64>)
    ensures
        result == native_result(f, lhs, rhs),
{
    match f {
        NativeFn::IntAdd => match lhs.checked_add(rhs) {
            Some(v) => Some(v),
            None => if rhs > 0 {
                Some(i64::MAX)
            } else {
                Some(i64::MIN)
            },
        },
        NativeFn::IntSub => match lhs.checked_sub(rhs) {
            Some(v) => Some(v),
            None => if rhs < 0 {
                Some(i64::MAX)
            } else {
                Some(i64::MIN)
            },
        },
        NativeFn::IntMul => match lhs.checked_mul(rhs) {
            Some(v) => Some(v),
            None => {
                if (lhs < 0) == (rhs < 0) {
                    assert(lhs * rhs >= 0) by (nonlinear_arith)
                        requires
                            (lhs < 0) == (rhs < 0),
                    ;
                    Some(i64::MAX)
                } else {
                    assert(lhs * rhs <= 0) by (nonlinear_arith)
                        requires
                            (lhs < 0) != (rhs < 0),
                    ;
                    Some(i64::MIN)
                }
            },
        },
        NativeFn::IntPow => if 0 <= rhs && rhs <= u32::MAX as i64 {
            Some(saturating_pow(lhs, rhs as u32))
        } else {
            None
        },
    }
}

/// The native operation behind an operator on integers.
pub open spec fn native_of(op: InfixOp) -> Option<NativeFn> {
    match op {
        InfixOp::Add => Some(NativeFn::IntAdd),
        InfixOp::Sub => Some(NativeFn::IntSub),
        InfixOp::Mult => Some(NativeFn::IntMul),
        InfixOp::Power => Some(NativeFn::IntPow),
        _ => None,
    }
}

/// What the runtime holds: the objects and the bindings of the scopes on
/// the stack, innermost last.
pub struct RuntimeState {
    pub objects: Seq<ObjectView>,
    pub frames: Seq<Map<u64, u64>>,
}

/// What the name is bound to in the innermost of the first `n` scopes that
/// binds it.
pub open spec fn looked_up(frames: Seq<Map<u64, u64>>, name: u64, n: int) -> Option<ObjAllocId>
    decreases n,
{
    if n <= 0 {
        None
    } else if frames[n - 1].contains_key(name) {
        Some(frames[n - 1][name])
    } else {
        looked_up(frames, name, n - 1)
    }
}

/// Whether the object counts as true: the integer one and the boolean
/// `True` do.
pub open spec fn truthy(object: ObjectView) -> bool {
    match object.value {
        PyValue::Int(n) => n == 1,
        PyValue::Bool(b) => b,
        _ => false,
    }
}

/// The state with one more object, and the id of that object.
pub open spec fn allocated(state: RuntimeState, object: ObjectView) -> (ObjAllocId, RuntimeState) {
    (
        state.objects.len() as u64,
        RuntimeState { objects: state.objects.push(object), frames: state.frames },
    )
}

/// The scope in which the first `n` parameters are bound to the first `n`
/// arguments.
pub open spec fn bound_arguments(params: Seq<usize>, args: Seq<ObjAllocId>, n: int) -> Map<u64, u64>
    decreases n,
{
    if n <= 0 {
        Map::empty()
    } else {
        bound_arguments(params, args, n - 1).insert(params[n - 1] as u64, args[n - 1])
    }
}

/// The groups of the names of the parameters.
pub open spec fn parameter_groups(args: Seq<crate::ast::Argument>) -> Seq<usize> {
    Seq::new(args.len(), |i: int| args[i].name.spec_group())
}

/// The groups of the names of the parameters of the function defined at
/// `def`, or `None` if no function is defined there.
pub open spec fn parameters_of(ast: Seq<Spanned<AstNode>>, def: NodeId) -> Option<Seq<usize>> {
    if def < ast.len() {
        match ast[def as int].inner {
            AstNode::FuncDef(f) => Some(parameter_groups(f.args@)),
            _ => None,
        }
    } else {
        None
    }
}

/// The value of the node `node` and the state that evaluating it leaves
/// behind, with a budget of `fuel` nested calls.
///
/// * A literal makes a new object; `None` is the singleton.
/// * A name stands for what the innermost scope that binds it says.
/// * An operator on two integers gives a new integer, by
///   [`native_result`]; on anything else it is a type error.
/// * A conditional expression evaluates its test, which must be an integer
///   or a boolean, and then one arm.
/// * An assignment binds the name in the innermost scope.
/// * A `return` ends the evaluation with [`PyErr::Return`].
/// * A call evaluates the callee and the arguments. The callee must be a
///   function. A function without parameters takes no arguments; any other
///   needs at least as many arguments as parameters. The body runs in a
///   new scope that binds the parameters; what it returns is the value of
///   the call, and `None` if it returns nothing. The scope is left again
///   whatever the body did.
pub open spec fn evaluated(
    ast: Seq<Spanned<AstNode>>,
    singletons: Singletons,
    node: NodeId,
    fuel: nat,
    state: RuntimeState,
) -> (Result<ObjAllocId, PyErr>, RuntimeState)
    decreases fuel, 2 * node + 1, 0int,
{
    if node >= ast.len() {
        (Err(PyErr::Unsupported), state)
    } else {
        match ast[node as int].inner {
            AstNode::Int(n) => {
                let (id, after) = allocated(
                    state,
                    fresh(TypeMap::INTEGER, Some(singletons.int_class), PyValue::Int(n)),
                );
                (Ok(id), after)
            },
            AstNode::Bool(b) => {
                let (id, after) = allocated(
                    state,
                    fresh(TypeMap::BOOL, Some(singletons.bool_class), PyValue::Bool(b)),
                );
                (Ok(id), after)
            },
            AstNode::Str(s) => {
                let (id, after) = allocated(
                    state,
                    fresh(
                        TypeMap::STRING,
                        Some(singletons.str_class),
                        PyValue::Str(s.spec_group()),
                    ),
                );
                (Ok(id), after)
            },
            AstNode::NoneLiteral | AstNode::Pass | AstNode::Comment(_) => (
                Ok(singletons.none),
                state,
            ),
            AstNode::Name(n) => match looked_up(
                state.frames,
                n.spec_group() as u64,
                state.frames.len() as int,
            ) {
                Some(v) => (Ok(v), state),
                None => (Err(PyErr::NameError { name: n.spec_group() }), state),
            },
            AstNode::BinOp { left, op, right } => {
                let (operands, after) = evaluated_list(
                    ast,
                    singletons,
                    seq![left, right],
                    node,
                    fuel,
                    state,
                    2,
                );
                match operands {
                    Err(e) => (Err(e), after),
                    Ok(found) => if found[0] < after.objects.len() && found[1]
                        < after.objects.len() {
                        match (
                            after.objects[found[0] as int].value,
                            after.objects[found[1] as int].value,
                            native_of(op),
                        ) {
                            (PyValue::Int(a), PyValue::Int(b), Some(f)) => match native_result(
                                f,
                                a,
                                b,
                            ) {
                                Some(r) => {
                                    let (id, last) = allocated(
                                        after,
                                        fresh(
                                            TypeMap::INTEGER,
                                            Some(singletons.int_class),
                                            PyValue::Int(r),
                                        ),
                                    );
                                    (Ok(id), last)
                                },
                                None => (Err(PyErr::TypeError), after),
                            },
                            _ => (Err(PyErr::TypeError), after),
                        }
                    } else {
                        (Err(PyErr::TypeError), after)
                    },
                }
            },
            AstNode::IfExpr { test, body, orelse } => if !(test < node && body < node && orelse
                < node) {
                (Err(PyErr::Unsupported), state)
            } else {
                let (tested, after) = evaluated(ast, singletons, test, fuel, state);
                match tested {
                    Err(e) => (Err(e), after),
                    Ok(t) => if !(t < after.objects.len() && (after.objects[t as int].type_id
                        == TypeMap::INTEGER || after.objects[t as int].type_id == TypeMap::BOOL)) {
                        (Err(PyErr::TypeError), after)
                    } else if truthy(after.objects[t as int]) {
                        evaluated(ast, singletons, body, fuel, after)
                    } else {
                        evaluated(ast, singletons, orelse, fuel, after)
                    },
                }
            },
            AstNode::Assign(a) => if a.value >= node {
                (Err(PyErr::Unsupported), state)
            } else {
                let (value, after) = evaluated(ast, singletons, a.value, fuel, state);
                match value {
                    Err(e) => (Err(e), after),
                    Ok(v) => if after.frames.len() == 0 {
                        (Err(PyErr::Unsupported), after)
                    } else {
                        let top = after.frames.len() - 1;
                        (
                            Ok(singletons.none),
                            RuntimeState {
                                objects: after.objects,
                                frames: after.frames.update(
                                    top,
                                    after.frames[top].insert(a.name.spec_group() as u64, v),
                                ),
                            },
                        )
                    },
                }
            },
            AstNode::Ret(r) => match r.value {
                None => (Err(PyErr::Return(singletons.none)), state),
                Some(v) => if v >= node {
                    (Err(PyErr::Unsupported), state)
                } else {
                    let (value, after) = evaluated(ast, singletons, v, fuel, state);
                    match value {
                        Ok(obj) => (Err(PyErr::Return(obj)), after),
                        Err(e) => (Err(e), after),
                    }
                },
            },
            AstNode::Call { func, args } => {
                let (operands, after) = evaluated_list(
                    ast,
                    singletons,
                    seq![func] + args@,
                    node,
                    fuel,
                    state,
                    1 + args@.len() as int,
                );
                match operands {
                    Err(e) => (Err(e), after),
                    Ok(found) => if found[0] >= after.objects.len() {
                        (Err(PyErr::TypeError), after)
                    } else {
                        match after.objects[found[0] as int].value {
                            PyValue::Function { def } => called(
                                ast,
                                singletons,
                                def,
                                found.skip(1),
                                fuel,
                                after,
                            ),
                            _ => (Err(PyErr::TypeError), after),
                        }
                    },
                }
            },
            _ => (Err(PyErr::Unsupported), state),
        }
    }
}

/// What calling the function defined at `def` with the arguments `args`
/// gives.
pub open spec fn called(
    ast: Seq<Spanned<AstNode>>,
    singletons: Singletons,
    def: NodeId,
    args: Seq<ObjAllocId>,
    fuel: nat,
    state: RuntimeState,
) -> (Result<ObjAllocId, PyErr>, RuntimeState)
    decreases fuel, 0int, 0int,
{
    match parameters_of(ast, def) {
        None => (Err(PyErr::TypeError), state),
        Some(params) => if fuel == 0 {
            (Err(PyErr::RecursionLimit), state)
        } else if (params.len() == 0 && args.len() > 0) || args.len() < params.len() {
            (Err(PyErr::ArityError), state)
        } else {
            let entered = RuntimeState {
                objects: state.objects,
                frames: state.frames.push(bound_arguments(params, args, params.len() as int)),
            };
            let body = ast[def as int].inner->FuncDef_0.body@;
            let (ran, after) = executed(
                ast,
                singletons,
                body,
                def,
                (fuel - 1) as nat,
                entered,
                body.len() as int,
            );
            let left = RuntimeState {
                objects: after.objects,
                frames: if after.frames.len() > 0 {
                    after.frames.drop_last()
                } else {
                    after.frames
                },
            };
            match ran {
                Ok(Some(v)) => (Ok(v), left),
                Ok(None) => (Ok(singletons.none), left),
                Err(e) => (Err(e), left),
            }
        },
    }
}

/// The values of the first `n` of `nodes`, evaluated in order.
pub open spec fn evaluated_list(
    ast: Seq<Spanned<AstNode>>,
    singletons: Singletons,
    nodes: Seq<NodeId>,
    bound: NodeId,
    fuel: nat,
    state: RuntimeState,
    n: int,
) -> (Result<Seq<ObjAllocId>, PyErr>, RuntimeState)
    decreases fuel, 2 * bound, n,
{
    if n <= 0 {
        (Ok(Seq::empty()), state)
    } else {
        let (before, mid) = evaluated_list(ast, singletons, nodes, bound, fuel, state, n - 1);
        match before {
            Err(e) => (Err(e), mid),
            Ok(found) => if nodes[n - 1] >= bound {
                (Err(PyErr::Unsupported), mid)
            } else {
                let (value, after) = evaluated(ast, singletons, nodes[n - 1], fuel, mid);
                match value {
                    Ok(v) => (Ok(found.push(v)), after),
                    Err(e) => (Err(e), after),
                }
            },
        }
    }
}

/// What running the first `n` of the statements `nodes` gives: the value
/// that one of them returned, or nothing if none returned.
pub open spec fn executed(
    ast: Seq<Spanned<AstNode>>,
    singletons: Singletons,
    nodes: Seq<NodeId>,
    bound: NodeId,
    fuel: nat,
    state: RuntimeState,
    n: int,
) -> (Result<Option<ObjAllocId>, PyErr>, RuntimeState)
    decreases fuel, 2 * bound, n,
{
    if n <= 0 {
        (Ok(None), state)
    } else {
        let (before, mid) = executed(ast, singletons, nodes, bound, fuel, state, n - 1);
        match before {
            Err(e) => (Err(e), mid),
            Ok(Some(v)) => (Ok(Some(v)), mid),
            Ok(None) => if nodes[n - 1] >= bound {
                (Err(PyErr::Unsupported), mid)
            } else {
                let (value, after) = evaluated(ast, singletons, nodes[n - 1], fuel, mid);
                match value {
                    Ok(_) => (Ok(None), after),
                    Err(PyErr::Return(v)) => (Ok(Some(v)), after),
                    Err(e) => (Err(e), after),
                }
            },
        }
    }
}

/// The runtime.
pub struct RuntimeContext {
    pub objects: Vec<PyObject>,
    pub singletons: Singletons,
    pub stack_frames: Vec<DynamicScope>,
}

impl RuntimeContext {
    /// The objects and the bindings, as values.
    pub open spec fn state(&self) -> RuntimeState {
        RuntimeState {
            objects: object_views(self.objects@),
            frames: frame_views(self.stack_frames@),
        }
    }

    /// A runtime that holds the singletons and no scope.
    pub fn new() -> (rt: Self)
        ensures
            rt.singletons == first_singletons(),
            rt.state().objects == singleton_objects(),
            rt.state().frames.len() == 0,
    {
        let mut objects: Vec<PyObject> = Vec::new();
        let singletons = Singletons::new(&mut objects);
        RuntimeContext { objects, singletons, stack_frames: Vec::new() }
    }

    /// What carries the value `value` out of the function that returns it.
    pub fn return_exc(&self, value: ObjAllocId) -> (exc: PyErr)
        ensures
            exc == PyErr::Return(value),
    {
        PyErr::Return(value)
    }

    /// Makes a new object and gives its id.
    pub fn allocate(&mut self, type_id: LocalTypeId, prototype: Option<ObjAllocId>, value: PyValue) -> (id:
        ObjAllocId)
        ensures
            (id, final(self).state()) == allocated(
                old(self).state(),
                fresh(type_id, prototype, value),
            ),
            final(self).singletons == old(self).singletons,
    {
        let id = push_object(&mut self.objects, type_id, prototype, value);
        proof {
            assert(frame_views(self.stack_frames@) =~= frame_views(old(self).stack_frames@));
        }
        id
    }

    /// A new integer.
    pub fn integer(&mut self, value: i64) -> (id: ObjAllocId)
        ensures
            (id, final(self).state()) == allocated(
                old(self).state(),
                fresh(TypeMap::INTEGER, Some(old(self).singletons.int_class), PyValue::Int(value)),
            ),
            final(self).singletons == old(self).singletons,
    {
        let class = self.singletons.int_class;
        self.allocate(TypeMap::INTEGER, Some(class), PyValue::Int(value))
    }

    /// A new float. Its prototype is the class of integers.
    pub fn float(&mut self, value: FloatLiteral) -> (id: ObjAllocId)
        ensures
            (id, final(self).state()) == allocated(
                old(self).state(),
                fresh(TypeMap::FLOAT, Some(old(self).singletons.int_class), PyValue::Float(value)),
            ),
            final(self).singletons == old(self).singletons,
    {
        let class = self.singletons.int_class;
        self.allocate(TypeMap::FLOAT, Some(class), PyValue::Float(value))
    }

    /// A new boolean.
    pub fn boolean(&mut self, b: bool) -> (id: ObjAllocId)
        ensures
            (id, final(self).state()) == allocated(
                old(self).state(),
                fresh(TypeMap::BOOL, Some(old(self).singletons.bool_class), PyValue::Bool(b)),
            ),
            final(self).singletons == old(self).singletons,
    {
        let class = self.singletons.bool_class;
        self.allocate(TypeMap::BOOL, Some(class), PyValue::Bool(b))
    }

    /// A new string with the text of the given group.
    pub fn string(&mut self, text: usize) -> (id: ObjAllocId)
        ensures
            (id, final(self).state()) == allocated(
                old(self).state(),
                fresh(TypeMap::STRING, Some(old(self).singletons.str_class), PyValue::Str(text)),
            ),
            final(self).singletons == old(self).singletons,
    {
        let class = self.singletons.str_class;
        self.allocate(TypeMap::STRING, Some(class), PyValue::Str(text))
    }

    /// A new string for a string literal of the source.
    pub fn string_literal(&mut self, literal: SpanRef) -> (id: ObjAllocId)
        ensures
            (id, final(self).state()) == allocated(
                old(self).state(),
                fresh(
                    TypeMap::STRING,
                    Some(old(self).singletons.str_class),
                    PyValue::Str(literal.spec_group()),
                ),
            ),
            final(self).singletons == old(self).singletons,
    {
        self.string(literal.group())
    }

    /// A new, empty dictionary.
    pub fn dict(&mut self) -> (id: ObjAllocId)
        ensures
            (id, final(self).state()) == allocated(
                old(self).state(),
                fresh(TypeMap::DICT, Some(old(self).singletons.obj_class), PyValue::Dict),
            ),
            final(self).singletons == old(self).singletons,
    {
        let class = self.singletons.obj_class;
        self.allocate(TypeMap::DICT, Some(class), PyValue::Dict)
    }

    /// The object `None`.
    pub fn none(&self) -> (id: ObjAllocId)
        ensures
            id == self.singletons.none,
    {
        self.singletons.none
    }

    /// A new class object of the type `type_id`.
    pub fn class(&mut self, name: SpanRef, type_id: LocalTypeId) -> (id: ObjAllocId)
        ensures
            (id, final(self).state()) == allocated(
                old(self).state(),
                fresh(type_id, Some(old(self).singletons.type_class), PyValue::Class { name }),
            ),
            final(self).singletons == old(self).singletons,
    {
        let class = self.singletons.type_class;
        self.allocate(type_id, Some(class), PyValue::Class { name })
    }

    /// A new function object for the function defined at `def`.
    pub fn function(&mut self, def: NodeId) -> (id: ObjAllocId)
        ensures
            (id, final(self).state()) == allocated(
                old(self).state(),
                fresh(
                    TypeMap::DYN_FUNC,
                    Some(old(self).singletons.func_class),
                    PyValue::Function { def },
                ),
            ),
            final(self).singletons == old(self).singletons,
    {
        let class = self.singletons.func_class;
        self.allocate(TypeMap::DYN_FUNC, Some(class), PyValue::Function { def })
    }

    /// The types of the objects `elements`; the unknown type stands for an
    /// id that names no object.
    pub open spec fn types_of(objects: Seq<ObjectView>, elements: Seq<ObjAllocId>) -> Seq<
        LocalTypeId,
    > {
        Seq::new(
            elements.len(),
            |i: int|
                if elements[i] < objects.len() {
                    objects[elements[i] as int].type_id
                } else {
                    TypeMap::UNKNOWN
                },
        )
    }

    /// The items of a tuple: the `i`-th element stands under the key `i`.
    pub open spec fn tuple_items(elements: Seq<ObjAllocId>, n: int) -> Map<u64, IdPair>
        decreases n,
    {
        if n <= 0 {
            Map::empty()
        } else {
            Self::tuple_items(elements, n - 1).insert((n - 1) as u64, ((n - 1) as u64, elements[n - 1]))
        }
    }

    /// A new tuple of the given elements. Its type is the tuple type of the
    /// elements' types, which is interned; its prototype is the class of
    /// strings.
    pub fn tuple(&mut self, type_map: &mut TypeMap, elements: &[ObjAllocId]) -> (id: ObjAllocId)
        requires
            old(type_map).wf(),
        ensures
            final(type_map).wf(),
            final(self).singletons == old(self).singletons,
            final(self).state().frames == old(self).state().frames,
            id == old(self).state().objects.len(),
            ({
                let members = Self::types_of(old(self).state().objects, elements@);
                let (type_id, types) = TypeMap::interned(
                    old(type_map)@,
                    crate::typing::TypeShape::Tuple { members },
                );
                &&& final(type_map)@ == types
                &&& final(self).state().objects == old(self).state().objects.push(
                    ObjectView {
                        type_id: type_id as usize,
                        prototype: Some(old(self).singletons.str_class),
                        members: Map::empty(),
                        items: Self::tuple_items(elements@, elements@.len() as int),
                        value: PyValue::Tuple(elements@.len() as usize),
                    },
                )
            }),
    {
        let mut members: Vec<LocalTypeId> = Vec::new();
        let mut items = PyDictRaw::new();
        let mut i: usize = 0;
        while i < elements.len()
            invariant
                i <= elements@.len(),
                members@ == Self::types_of(object_views(self.objects@), elements@).subrange(
                    0,
                    i as int,
                ),
                items@ == Self::tuple_items(elements@, i as int),
            decreases elements@.len() - i,
        {
            let element = elements[i];
            let t = if element < self.objects.len() as u64 {
                self.objects[element as usize].type_id
            } else {
                TypeMap::UNKNOWN
            };
            members.push(t);
            let _ = items.insert(i as u64, (i as u64, element));
            i += 1;
            assert(members@ =~= Self::types_of(object_views(self.objects@), elements@).subrange(
                0,
                i as int,
            ));
        }
        assert(members@ =~= Self::types_of(object_views(self.objects@), elements@));
        let type_id = type_map.tuple(members);
        let id = self.objects.len() as u64;
        self.objects.push(
            PyObject {
                type_id,
                prototype: Some(self.singletons.str_class),
                members: PyDictRaw::new(),
                items,
                value: PyValue::Tuple(elements.len()),
            },
        );
        proof {
            assert(frame_views(self.stack_frames@) =~= frame_views(old(self).stack_frames@));
            assert(object_views(self.objects@) =~= object_views(old(self).objects@).push(
                ObjectView {
                    type_id,
                    prototype: Some(old(self).singletons.str_class),
                    members: Map::empty(),
                    items: Self::tuple_items(elements@, elements@.len() as int),
                    value: PyValue::Tuple(elements@.len() as usize),
                },
            ));
        }
        id
    }

    /// Binds the attribute with the group `name` of the object `object` to
    /// `value`. Nothing happens for an id that names no object, and `false`
    /// comes back.
    pub fn set_attribute(&mut self, object: ObjAllocId, name: usize, value: ObjAllocId) -> (done:
        bool)
        ensures
            final(self).singletons == old(self).singletons,
            final(self).state().frames == old(self).state().frames,
            done == (object < old(self).state().objects.len()),
            !done ==> final(self).state().objects == old(self).state().objects,
            done ==> final(self).state().objects == old(self).state().objects.update(
                object as int,
                ObjectView {
                    members: old(self).state().objects[object as int].members.insert(
                        name as u64,
                        (name as u64, value),
                    ),
                    ..old(self).state().objects[object as int]
                },
            ),
    {
        if object >= self.objects.len() as u64 {
            proof {
                assert(frame_views(self.stack_frames@) =~= frame_views(old(self).stack_frames@));
                assert(object_views(self.objects@) =~= object_views(old(self).objects@));
            }
            return false;
        }
        let at = object as usize;
        let mut held = self.objects.remove(at);
        let ghost before = held@;
        let _ = held.members.insert(name as u64, (name as u64, value));
        let ghost after = held@;
        self.objects.insert(at, held);
        proof {
            assert(self.objects@ =~= old(self).objects@.update(at as int, held));
            assert(object_views(self.objects@) =~= object_views(old(self).objects@).update(
                object as int,
                after,
            ));
            assert(frame_views(self.stack_frames@) =~= frame_views(old(self).stack_frames@));
        }
        true
    }

    /// What the attribute with the group `name` of the object `object` is
    /// bound to, in the object itself.
    pub fn get_attribute(&self, object: ObjAllocId, name: usize) -> (value: Option<ObjAllocId>)
        ensures
            value == if object < self.state().objects.len() && self.state().objects[object as int].members.contains_key(
                name as u64,
            ) {
                Some(self.state().objects[object as int].members[name as u64].1)
            } else {
                None
            },
    {
        if object >= self.objects.len() as u64 {
            return None;
        }
        assert(self.state().objects[object as int] == self.objects@[object as int]@);
        match self.objects[object as usize].members.get(name as u64) {
            Some(pair) => Some(pair.1),
            None => None,
        }
    }

    /// What the name with the group `name` is bound to: the innermost scope
    /// that binds it decides.
    pub fn lookup(&self, name: usize) -> (value: Option<ObjAllocId>)
        ensures
            value == looked_up(self.state().frames, name as u64, self.state().frames.len() as int),
    {
        let mut i: usize = self.stack_frames.len();
        while i > 0
            invariant
                i <= self.stack_frames@.len(),
                looked_up(self.state().frames, name as u64, self.state().frames.len() as int)
                    == looked_up(self.state().frames, name as u64, i as int),
            decreases i,
        {
            match self.stack_frames[i - 1].lookup(name) {
                Some(v) => {
                    return Some(v);
                },
                None => {},
            }
            i -= 1;
        }
        None
    }

    /// The number of scopes on the stack.
    pub fn depth(&self) -> (n: usize)
        ensures
            n == self.state().frames.len(),
    {
        self.stack_frames.len()
    }

    /// Enters a new scope.
    pub fn push_scope(&mut self, scope: DynamicScope)
        ensures
            final(self).state().objects == old(self).state().objects,
            final(self).state().frames == old(self).state().frames.push(scope@),
            final(self).singletons == old(self).singletons,
    {
        self.stack_frames.push(scope);
        proof {
            assert(frame_views(self.stack_frames@) =~= frame_views(old(self).stack_frames@).push(
                scope@,
            ));
        }
    }

    /// Leaves the innermost scope and hands it back.
    pub fn pop_scope(&mut self) -> (scope: Option<DynamicScope>)
        ensures
            final(self).state().objects == old(self).state().objects,
            final(self).singletons == old(self).singletons,
            old(self).state().frames.len() == 0 ==> scope.is_none() && final(self).state().frames
                == old(self).state().frames,
            old(self).state().frames.len() > 0 ==> scope.is_some() && scope.unwrap()@ == old(
                self,
            ).state().frames.last() && final(self).state().frames == old(
                self,
            ).state().frames.drop_last(),
    {
        let scope = self.stack_frames.pop();
        proof {
            if old(self).stack_frames@.len() > 0 {
                assert(frame_views(self.stack_frames@) =~= frame_views(
                    old(self).stack_frames@,
                ).drop_last());
            } else {
                assert(frame_views(self.stack_frames@) =~= frame_views(old(self).stack_frames@));
            }
        }
        scope
    }

    /// Binds the name in the innermost scope. Without a scope nothing is
    /// bound and `false` comes back.
    pub fn define(&mut self, name: usize, value: ObjAllocId) -> (bound: bool)
        ensures
            final(self).state().objects == old(self).state().objects,
            final(self).singletons == old(self).singletons,
            bound == (old(self).state().frames.len() > 0),
            !bound ==> final(self).state().frames == old(self).state().frames,
            bound ==> final(self).state().frames == old(self).state().frames.update(
                old(self).state().frames.len() - 1,
                old(self).state().frames.last().insert(name as u64, value),
            ),
    {
        match self.stack_frames.pop() {
            Some(mut scope) => {
                scope.define(name, value);
                self.stack_frames.push(scope);
                proof {
                    assert(frame_views(self.stack_frames@) =~= frame_views(
                        old(self).stack_frames@,
                    ).update(
                        old(self).stack_frames@.len() - 1,
                        frame_views(old(self).stack_frames@).last().insert(name as u64, value),
                    ));
                }
                true
            },
            None => {
                proof {
                    assert(frame_views(self.stack_frames@) =~= frame_views(
                        old(self).stack_frames@,
                    ));
                }
                false
            },
        }
    }

    /// The innermost scope.
    pub fn scope(&self) -> (scope: &DynamicScope)
        requires
            self.state().frames.len() > 0,
        ensures
            scope@ == self.state().frames.last(),
    {
        &self.stack_frames[self.stack_frames.len() - 1]
    }

    /// Whether the object `v`, an integer or a boolean, counts as true.
    pub fn is_truthy(&self, v: ObjAllocId) -> (truth: bool)
        requires
            v < self.state().objects.len(),
            self.state().objects[v as int].type_id == TypeMap::INTEGER
                || self.state().objects[v as int].type_id == TypeMap::BOOL,
        ensures
            truth == truthy(self.state().objects[v as int]),
    {
        assert(self.state().objects.len() == self.objects@.len());
        if v >= self.objects.len() as u64 {
            return false;
        }
        let object = &self.objects[v as usize];
        assert(object@ == self.state().objects[v as int]);
        match object.value {
            PyValue::Int(n) => n == 1,
            PyValue::Bool(b) => b,
            _ => false,
        }
    }
}

proof fn lemma_evaluated_list_fail(
    ast: Seq<Spanned<AstNode>>,
    singletons: Singletons,
    nodes: Seq<NodeId>,
    bound: NodeId,
    fuel: nat,
    state: RuntimeState,
    at: int,
    n: int,
)
    requires
        0 < at <= n,
        evaluated_list(ast, singletons, nodes, bound, fuel, state, at).0.is_err(),
    ensures
        evaluated_list(ast, singletons, nodes, bound, fuel, state, n) == evaluated_list(
            ast,
            singletons,
            nodes,
            bound,
            fuel,
            state,
            at,
        ),
    decreases n - at,
{
    if at < n {
        lemma_evaluated_list_fail(ast, singletons, nodes, bound, fuel, state, at, n - 1);
    }
}

proof fn lemma_executed_done(
    ast: Seq<Spanned<AstNode>>,
    singletons: Singletons,
    nodes: Seq<NodeId>,
    bound: NodeId,
    fuel: nat,
    state: RuntimeState,
    at: int,
    n: int,
)
    requires
        0 < at <= n,
        executed(ast, singletons, nodes, bound, fuel, state, at).0 != Ok::<
            Option<ObjAllocId>,
            PyErr,
        >(None),
    ensures
        executed(ast, singletons, nodes, bound, fuel, state, n) == executed(
            ast,
            singletons,
            nodes,
            bound,
            fuel,
            state,
            at,
        ),
    decreases n - at,
{
    if at < n {
        lemma_executed_done(ast, singletons, nodes, bound, fuel, state, at, n - 1);
    }
}

impl RuntimeContext {
    /// Evaluates the nodes `nodes` in order.
    pub fn eval_all(&mut self, ast: &Ast, nodes: &Vec<NodeId>, bound: NodeId, fuel: usize) -> (result:
        Result<Vec<ObjAllocId>, PyErr>)
        ensures
            final(self).singletons == old(self).singletons,
            ({
                let (values, after) = evaluated_list(
                    ast@,
                    old(self).singletons,
                    nodes@,
                    bound,
                    fuel as nat,
                    old(self).state(),
                    nodes@.len() as int,
                );
                &&& after == final(self).state()
                &&& match result {
                    Ok(found) => values == Ok::<Seq<ObjAllocId>, PyErr>(found@) && found@.len()
                        == nodes@.len(),
                    Err(e) => values == Err::<Seq<ObjAllocId>, PyErr>(e),
                }
            }),
        decreases fuel, 2 * bound, nodes@.len(),
    {
        let ghost start = self.state();
        let ghost singletons = self.singletons;
        let mut found: Vec<ObjAllocId> = Vec::new();
        let mut i: usize = 0;
        while i < nodes.len()
            invariant
                i <= nodes@.len(),
                found@.len() == i,
                start == old(self).state(),
                singletons == old(self).singletons,
                self.singletons == singletons,
                evaluated_list(ast@, singletons, nodes@, bound, fuel as nat, start, i as int) == (
                    Ok::<Seq<ObjAllocId>, PyErr>(found@),
                    self.state(),
                ),
            decreases nodes@.len() - i,
        {
            let node = nodes[i];
            if node >= bound {
                proof {
                    lemma_evaluated_list_fail(
                        ast@,
                        singletons,
                        nodes@,
                        bound,
                        fuel as nat,
                        start,
                        i as int + 1,
                        nodes@.len() as int,
                    );
                }
                return Err(PyErr::Unsupported);
            }
            match self.eval(ast, node, fuel) {
                Ok(v) => {
                    found.push(v);
                },
                Err(e) => {
                    proof {
                        lemma_evaluated_list_fail(
                            ast@,
                            singletons,
                            nodes@,
                            bound,
                            fuel as nat,
                            start,
                            i as int + 1,
                            nodes@.len() as int,
                        );
                    }
                    return Err(e);
                },
            }
            i += 1;
        }
        Ok(found)
    }

    /// Runs the statements `nodes` in order until one of them returns.
    pub fn exec_body(&mut self, ast: &Ast, nodes: &Vec<NodeId>, bound: NodeId, fuel: usize) -> (result:
        Result<Option<ObjAllocId>, PyErr>)
        ensures
            final(self).singletons == old(self).singletons,
            (result, final(self).state()) == executed(
                ast@,
                old(self).singletons,
                nodes@,
                bound,
                fuel as nat,
                old(self).state(),
                nodes@.len() as int,
            ),
        decreases fuel, 2 * bound, nodes@.len(),
    {
        let ghost start = self.state();
        let ghost singletons = self.singletons;
        let mut i: usize = 0;
        while i < nodes.len()
            invariant
                i <= nodes@.len(),
                start == old(self).state(),
                singletons == old(self).singletons,
                self.singletons == singletons,
                executed(ast@, singletons, nodes@, bound, fuel as nat, start, i as int) == (
                    Ok::<Option<ObjAllocId>, PyErr>(None),
                    self.state(),
                ),
            decreases nodes@.len() - i,
        {
            let node = nodes[i];
            if node >= bound {
                proof {
                    lemma_executed_done(
                        ast@,
                        singletons,
                        nodes@,
                        bound,
                        fuel as nat,
                        start,
                        i as int + 1,
                        nodes@.len() as int,
                    );
                }
                return Err(PyErr::Unsupported);
            }
            match self.eval(ast, node, fuel) {
                Ok(_) => {},
                Err(PyErr::Return(v)) => {
                    proof {
                        lemma_executed_done(
                            ast@,
                            singletons,
                            nodes@,
                            bound,
                            fuel as nat,
                            start,
                            i as int + 1,
                            nodes@.len() as int,
                        );
                    }
                    return Ok(Some(v));
                },
                Err(e) => {
                    proof {
                        lemma_executed_done(
                            ast@,
                            singletons,
                            nodes@,
                            bound,
                            fuel as nat,
                            start,
                            i as int + 1,
                            nodes@.len() as int,
                        );
                    }
                    return Err(e);
                },
            }
            i += 1;
        }
        Ok(None)
    }

    /// Calls the function defined at `def` with the arguments `args`.
    pub fn call(&mut self, ast: &Ast, def: NodeId, args: &Vec<ObjAllocId>, fuel: usize) -> (result:
        Result<ObjAllocId, PyErr>)
        ensures
            final(self).singletons == old(self).singletons,
            (result, final(self).state()) == called(
                ast@,
                old(self).singletons,
                def,
                args@,
                fuel as nat,
                old(self).state(),
            ),
        decreases fuel, 0int, 0int,
    {
        let f = match ast.get(def) {
            Some(spanned) => match &spanned.inner {
                AstNode::FuncDef(f) => f,
                _ => {
                    return Err(PyErr::TypeError);
                },
            },
            None => {
                return Err(PyErr::TypeError);
            },
        };
        let ghost params = parameters_of(ast@, def).unwrap();
        if fuel == 0 {
            return Err(PyErr::RecursionLimit);
        }
        if (f.args.len() == 0 && args.len() > 0) || args.len() < f.args.len() {
            return Err(PyErr::ArityError);
        }
        let mut scope = DynamicScope::new(ScopeRoot::Func(def), ModuleRef(String::new()));
        let mut i: usize = 0;
        while i < f.args.len()
            invariant
                i <= f.args@.len(),
                f.args@.len() <= args@.len(),
                params == parameter_groups(f.args@),
                scope@ == bound_arguments(params, args@, i as int),
            decreases f.args@.len() - i,
        {
            scope.define(f.args[i].name.group(), args[i]);
            i += 1;
        }
        self.push_scope(scope);
        let ran = self.exec_body(ast, &f.body, def, fuel - 1);
        let _ = self.pop_scope();
        match ran {
            Ok(Some(v)) => Ok(v),
            Ok(None) => Ok(self.singletons.none),
            Err(e) => Err(e),
        }
    }

    /// Evaluates the node `node` with a budget of `fuel` nested calls.
    pub fn eval(&mut self, ast: &Ast, node: NodeId, fuel: usize) -> (result: Result<
        ObjAllocId,
        PyErr,
    >)
        ensures
            final(self).singletons == old(self).singletons,
            (result, final(self).state()) == evaluated(
                ast@,
                old(self).singletons,
                node,
                fuel as nat,
                old(self).state(),
            ),
        decreases fuel, 2 * node + 1, 0int,
    {
        let spanned = match ast.get(node) {
            Some(s) => s,
            None => {
                return Err(PyErr::Unsupported);
            },
        };
        match &spanned.inner {
            AstNode::Int(n) => Ok(self.integer(*n)),
            AstNode::Bool(b) => Ok(self.boolean(*b)),
            AstNode::Str(s) => Ok(self.string(s.group())),
            AstNode::NoneLiteral | AstNode::Pass | AstNode::Comment(_) => Ok(self.singletons.none),
            AstNode::Name(n) => match self.lookup(n.group()) {
                Some(v) => Ok(v),
                None => Err(PyErr::NameError { name: n.group() }),
            },
            AstNode::BinOp { left, op, right } => {
                let operands = vec![*left, *right];
                assert(operands@ =~= seq![*left, *right]);
                let found = match self.eval_all(ast, &operands, node, fuel) {
                    Ok(f) => f,
                    Err(e) => {
                        return Err(e);
                    },
                };
                let n = self.objects.len() as u64;
                if !(found[0] < n && found[1] < n) {
                    return Err(PyErr::TypeError);
                }
                assert(self.state().objects[found@[0] as int] == self.objects@[found@[0] as int]@);
                assert(self.state().objects[found@[1] as int] == self.objects@[found@[1] as int]@);
                let native = match op {
                    InfixOp::Add => Some(NativeFn::IntAdd),
                    InfixOp::Sub => Some(NativeFn::IntSub),
                    InfixOp::Mult => Some(NativeFn::IntMul),
                    InfixOp::Power => Some(NativeFn::IntPow),
                    _ => None,
                };
                match (
                    self.objects[found[0] as usize].value,
                    self.objects[found[1] as usize].value,
                    native,
                ) {
                    (PyValue::Int(a), PyValue::Int(b), Some(f)) => match call_native(f, a, b) {
                        Some(r) => Ok(self.integer(r)),
                        None => Err(PyErr::TypeError),
                    },
                    _ => Err(PyErr::TypeError),
                }
            },
            AstNode::IfExpr { test, body, orelse } => {
                if !(*test < node && *body < node && *orelse < node) {
                    return Err(PyErr::Unsupported);
                }
                let t = match self.eval(ast, *test, fuel) {
                    Ok(t) => t,
                    Err(e) => {
                        return Err(e);
                    },
                };
                if t >= self.objects.len() as u64 {
                    return Err(PyErr::TypeError);
                }
                assert(self.state().objects[t as int] == self.objects@[t as int]@);
                let type_id = self.objects[t as usize].type_id;
                if !(type_id == TypeMap::INTEGER || type_id == TypeMap::BOOL) {
                    return Err(PyErr::TypeError);
                }
                if self.is_truthy(t) {
                    self.eval(ast, *body, fuel)
                } else {
                    self.eval(ast, *orelse, fuel)
                }
            },
            AstNode::Assign(a) => {
                if a.value >= node {
                    return Err(PyErr::Unsupported);
                }
                let v = match self.eval(ast, a.value, fuel) {
                    Ok(v) => v,
                    Err(e) => {
                        return Err(e);
                    },
                };
                if self.define(a.name.group(), v) {
                    Ok(self.singletons.none)
                } else {
                    Err(PyErr::Unsupported)
                }
            },
            AstNode::Ret(r) => match r.value {
                None => Err(PyErr::Return(self.singletons.none)),
                Some(v) => {
                    if v >= node {
                        return Err(PyErr::Unsupported);
                    }
                    match self.eval(ast, v, fuel) {
                        Ok(obj) => Err(PyErr::Return(obj)),
                        Err(e) => Err(e),
                    }
                },
            },
            AstNode::Call { func, args } => {
                let mut operands: Vec<NodeId> = Vec::new();
                operands.push(*func);
                let mut k: usize = 0;
                while k < args.len()
                    invariant
                        k <= args@.len(),
                        operands@ == seq![*func] + args@.subrange(0, k as int),
                    decreases args@.len() - k,
                {
                    operands.push(args[k]);
                    k += 1;
                    assert(operands@ =~= seq![*func] + args@.subrange(0, k as int));
                }
                assert(operands@ =~= seq![*func] + args@);
                let found = match self.eval_all(ast, &operands, node, fuel) {
                    Ok(f) => f,
                    Err(e) => {
                        return Err(e);
                    },
                };
                if found[0] >= self.objects.len() as u64 {
                    return Err(PyErr::TypeError);
                }
                assert(self.state().objects[found@[0] as int] == self.objects@[found@[0] as int]@);
                let def = match self.objects[found[0] as usize].value {
                    PyValue::Function { def } => def,
                    _ => {
                        return Err(PyErr::TypeError);
                    },
                };
                let mut supplied: Vec<ObjAllocId> = Vec::new();
                let mut j: usize = 1;
                while j < found.len()
                    invariant
                        1 <= j <= found@.len(),
                        supplied@ == found@.subrange(1, j as int),
                    decreases found@.len() - j,
                {
                    supplied.push(found[j]);
                    j += 1;
                    assert(supplied@ =~= found@.subrange(1, j as int));
                }
                assert(supplied@ =~= found@.skip(1));
                self.call(ast, def, &supplied, fuel)
            },
            _ => Err(PyErr::Unsupported),
        }
    }
}

} // verus!
