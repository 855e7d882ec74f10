//! The type evaluator: gives every node its type and checks assignments,
//! calls, operators and returns against the type universe and the rib.
//!
//! What the evaluator computes is written down twice: as the function
//! [`type_of_node`] over plain values, which is the definition, and as
//! [`typecheck`], which is proved to compute it.

use crate::ast::{optional, Ast, AstNode, InfixOp, NodeId, Spanned};
use crate::error::MontyError;
use crate::interpreter::dict::{id_table_entries, id_table_get, id_table_insert, id_table_new, IdTable};
use crate::interpreter::object_graph::Value;
use crate::interpreter::value_store::ValueStore;
use crate::ribs::{rib_add, RibEntry, Ribs};
use crate::scope::{
    nearest_assignment, renamed_builtins, visible_definitions, Builtins, Definition, OpaqueScope,
};
use crate::context::ModuleRef;
use crate::span::{SpanInterner, SpanRef};
use crate::typing::{first_mismatch, LocalTypeId, TypeMap, TypeShape};
use vstd::prelude::*;

verus! {

/// A function that has been declared: the module that defines it, its
/// name, its type and the node of its definition.
pub struct Named {
    pub module: ModuleRef,
    pub name: SpanRef,
    pub type_id: LocalTypeId,
    pub def: NodeId,
}

/// A declared function as a value.
pub struct NamedView {
    pub module: Seq<char>,
    pub name: SpanRef,
    pub type_id: LocalTypeId,
    pub def: NodeId,
}

impl View for Named {
    type V = NamedView;

    open spec fn view(&self) -> NamedView {
        NamedView { module: self.module@, name: self.name, type_id: self.type_id, def: self.def }
    }
}

/// The types of the functions and classes that have been declared, by the
/// node of the declaration: an `ahash` map from the node to the type.
/// Beside it stand the declared functions with their names, in the order
/// of their declaration, so that code can call a function of its module by
/// name from inside another function.
pub struct Declarations {
    table: IdTable,
    named: Vec<Named>,
}

/// The function of the module `module` that was declared last, among the
/// first `n` declared functions, under the name with the given group.
pub open spec fn named_function(names: Seq<NamedView>, module: Seq<char>, group: usize, n: int) -> Option<
    NamedView,
>
    decreases n,
{
    if n <= 0 || n > names.len() {
        None
    } else if names[n - 1].module == module && names[n - 1].name.spec_group() == group {
        Some(names[n - 1])
    } else {
        named_function(names, module, group, n - 1)
    }
}

/// The module that a scope belongs to, if it is known.
pub open spec fn module_of(scope: &OpaqueScope) -> Option<Seq<char>> {
    match scope.module_ref {
        Some(m) => Some(m@),
        None => None,
    }
}

/// The declared function of the name with the given group that code in
/// the scope of `cx` can call: one of the module of the scope.
pub open spec fn visible_function(cx: TypeEvalContext, group: usize) -> Option<NamedView> {
    match module_of(cx.scope) {
        Some(module) => named_function(
            cx.declarations.names(),
            module,
            group,
            cx.declarations.names().len() as int,
        ),
        None => None,
    }
}

impl View for Declarations {
    type V = Map<u64, u64>;

    closed spec fn view(&self) -> Map<u64, u64> {
        id_table_entries(self.table)
    }
}

/// The type declared for `node`.
pub open spec fn declared(entries: Map<u64, u64>, node: NodeId) -> Option<LocalTypeId> {
    if entries.contains_key(node as u64) && entries[node as u64] <= usize::MAX {
        Some(entries[node as u64] as usize)
    } else {
        None
    }
}

/// The declarations after `node` has been declared with the type
/// `type_id`: the first declaration of a node stays.
pub open spec fn declared_with(entries: Map<u64, u64>, node: NodeId, type_id: LocalTypeId) -> Map<
    u64,
    u64,
> {
    if entries.contains_key(node as u64) {
        entries
    } else {
        entries.insert(node as u64, type_id as u64)
    }
}

impl Declarations {
    /// The declared functions with their names, in the order of their
    /// declaration.
    pub closed spec fn names(&self) -> Seq<NamedView> {
        Seq::new(self.named@.len(), |i: int| self.named@[i]@)
    }

    /// No declaration.
    pub fn new() -> (declarations: Self)
        ensures
            declarations@ == Map::<u64, u64>::empty(),
            declarations.names().len() == 0,
    {
        Declarations { table: id_table_new(), named: Vec::new() }
    }

    /// The function of the module `module` that was declared last under
    /// the name with the given group.
    pub fn find_function(&self, module: &ModuleRef, group: usize) -> (found: Option<
        (LocalTypeId, NodeId),
    >)
        ensures
            found == match named_function(
                self.names(),
                module@,
                group,
                self.names().len() as int,
            ) {
                Some(f) => Some((f.type_id, f.def)),
                None => None,
            },
    {
        let mut n: usize = self.named.len();
        while n > 0
            invariant
                n <= self.named@.len(),
                self.names().len() == self.named@.len(),
                named_function(self.names(), module@, group, self.names().len() as int)
                    == named_function(self.names(), module@, group, n as int),
            decreases n,
        {
            let entry = &self.named[n - 1];
            assert(self.names()[n - 1] == entry@);
            if entry.module.same_as(module) && entry.name.group() == group {
                return Some((entry.type_id, entry.def));
            }
            n -= 1;
        }
        None
    }

    /// Declares the function that the module `module` defines at `def`
    /// under the name `name`, with the type `type_id`: it can be called by
    /// that name from then on, and its node is declared as
    /// [`Declarations::declare`] does it.
    pub fn declare_function(&mut self, module: ModuleRef, name: SpanRef, def: NodeId, type_id: LocalTypeId)
        ensures
            final(self)@ == declared_with(old(self)@, def, type_id),
            final(self).names() == old(self).names().push(
                NamedView { module: module@, name, type_id, def },
            ),
    {
        self.declare(def, type_id);
        let ghost before = self.names();
        self.named.push(Named { module, name, type_id, def });
        assert(self.names() =~= before.push(NamedView { module: module@, name, type_id, def }));
    }

    /// The type declared for `node`.
    pub fn get(&self, node: NodeId) -> (type_id: Option<LocalTypeId>)
        ensures
            type_id == declared(self@, node),
    {
        match id_table_get(&self.table, node as u64) {
            Some(t) => if t <= usize::MAX as u64 {
                Some(t as usize)
            } else {
                None
            },
            None => None,
        }
    }

    /// Declares `node` with the type `type_id`, unless it is declared
    /// already: the first declaration of a node stays.
    pub fn declare(&mut self, node: NodeId, type_id: LocalTypeId)
        ensures
            final(self)@ == declared_with(old(self)@, node, type_id),
            final(self).names() == old(self).names(),
    {
        match id_table_get(&self.table, node as u64) {
            Some(_) => {},
            None => {
                id_table_insert(&mut self.table, node as u64, type_id as u64);
            },
        }
    }
}

/// What the evaluator reads but does not change.
pub struct TypeEvalContext<'a> {
    pub ast: &'a Ast,
    pub scope: &'a OpaqueScope,
    pub builtins: &'a Builtins,
    pub declarations: &'a Declarations,
    pub store: &'a ValueStore,
    pub interner: &'a SpanInterner,
    /// The type that the enclosing function declares to return.
    pub expected_return_value: LocalTypeId,
    /// The node at which the enclosing function is defined.
    pub function: Option<NodeId>,
}

impl<'a> TypeEvalContext<'a> {
    pub open spec fn wf(&self) -> bool {
        &&& self.ast.wf()
        &&& self.interner.wf()
        &&& self.store.graph.wf()
    }
}

/// What the evaluator changes: the types held by the type universe and the
/// rib of the function.
pub struct TypeState {
    pub types: Seq<TypeShape>,
    pub ribs: Map<usize, RibEntry>,
}

/// The name of the method that stands behind an operator.
pub open spec fn dunder_name(op: InfixOp) -> Seq<u8> {
    match op {
        InfixOp::Add => seq![95u8, 95u8, 97u8, 100u8, 100u8, 95u8, 95u8],
        InfixOp::Sub => seq![95u8, 95u8, 115u8, 117u8, 98u8, 95u8, 95u8],
        InfixOp::Mult => seq![95u8, 95u8, 109u8, 117u8, 108u8, 95u8, 95u8],
        InfixOp::Div => seq![95u8, 95u8, 100u8, 105u8, 118u8, 95u8, 95u8],
        InfixOp::Power => seq![95u8, 95u8, 112u8, 111u8, 119u8, 95u8, 95u8],
        InfixOp::Mod => seq![95u8, 95u8, 109u8, 111u8, 100u8, 95u8, 95u8],
        InfixOp::And => seq![95u8, 95u8, 97u8, 110u8, 100u8, 95u8, 95u8],
        InfixOp::Or => seq![95u8, 95u8, 111u8, 114u8, 95u8, 95u8],
        InfixOp::Eq => seq![95u8, 95u8, 101u8, 113u8, 95u8, 95u8],
        InfixOp::NotEq => seq![95u8, 95u8, 110u8, 101u8, 95u8, 95u8],
    }
}

/// The name of the method that stands behind an operator: `__add__` for
/// `+`, and so on.
pub fn dunder_of(op: InfixOp) -> (name: Vec<u8>)
    ensures
        name@ == dunder_name(op),
{
    let name = match op {
        InfixOp::Add => vec![95u8, 95u8, 97u8, 100u8, 100u8, 95u8, 95u8],
        InfixOp::Sub => vec![95u8, 95u8, 115u8, 117u8, 98u8, 95u8, 95u8],
        InfixOp::Mult => vec![95u8, 95u8, 109u8, 117u8, 108u8, 95u8, 95u8],
        InfixOp::Div => vec![95u8, 95u8, 100u8, 105u8, 118u8, 95u8, 95u8],
        InfixOp::Power => vec![95u8, 95u8, 112u8, 111u8, 119u8, 95u8, 95u8],
        InfixOp::Mod => vec![95u8, 95u8, 109u8, 111u8, 100u8, 95u8, 95u8],
        InfixOp::And => vec![95u8, 95u8, 97u8, 110u8, 100u8, 95u8, 95u8],
        InfixOp::Or => vec![95u8, 95u8, 111u8, 114u8, 95u8, 95u8],
        InfixOp::Eq => vec![95u8, 95u8, 101u8, 113u8, 95u8, 95u8],
        InfixOp::NotEq => vec![95u8, 95u8, 110u8, 101u8, 95u8, 95u8],
    };
    assert(name@ =~= dunder_name(op));
    name
}

/// The value that implements `op` for a left operand of type `left`: the
/// function that the class of that type holds under the operator's method
/// name. `None` where the class or the method is missing.
pub open spec fn operator_method(
    store: &ValueStore,
    interner: &SpanInterner,
    left: LocalTypeId,
    op: InfixOp,
) -> Option<u64> {
    let nodes = store.graph.nodes();
    match (interner.group_of(dunder_name(op)), store.spec_class_of(left)) {
        (Some(key), Some(class)) => if class >= nodes.len() {
            None
        } else {
            match nodes[class as int] {
                Value::Class { name, properties } => if !properties@.contains_key(key as u64) {
                    None
                } else {
                    let method = properties@[key as u64].1;
                    if method >= nodes.len() || !(nodes[method as int] is Function) {
                        None
                    } else {
                        Some(method)
                    }
                },
                _ => None,
            }
        },
        _ => None,
    }
}

/// Finds the value that implements `op` for a left operand of type `left`.
pub fn find_operator_method(
    store: &ValueStore,
    interner: &SpanInterner,
    left: LocalTypeId,
    op: InfixOp,
) -> (method: Option<u64>)
    requires
        interner.wf(),
        store.graph.wf(),
    ensures
        method == operator_method(store, interner, left, op),
{
    let name = dunder_of(op);
    let key = match interner.find_group(name.as_slice()) {
        Some(k) => k,
        None => {
            return None;
        },
    };
    let class = match store.class_of(left) {
        Some(c) => c,
        None => {
            return None;
        },
    };
    let properties = match store.graph.node_weight(class) {
        Some(Value::Class { name, properties }) => properties,
        _ => {
            return None;
        },
    };
    let method = match properties.get(key as u64) {
        Some(pair) => pair.1,
        None => {
            return None;
        },
    };
    match store.graph.node_weight(method) {
        Some(Value::Function { .. }) => Some(method),
        _ => None,
    }
}

/// The type of `left op right`: the class of the left operand's type must
/// hold, under the operator's method name, a function of one argument whose
/// type is that of the right operand; the result is what that function
/// returns. `None` where any of this fails.
pub open spec fn operator_result(
    cx: TypeEvalContext,
    types: Seq<TypeShape>,
    left: LocalTypeId,
    right: LocalTypeId,
    op: InfixOp,
) -> Option<LocalTypeId> {
    match operator_method(cx.store, cx.interner, left, op) {
        Some(method) => match cx.store.spec_type_of(method) {
            Some(t) => if t < types.len() && types[t as int] is Function {
                let sig = types[t as int]->Function_0;
                if sig.args.len() == 1 && sig.args[0] == right {
                    Some(sig.ret)
                } else {
                    None
                }
            } else {
                None
            },
            None => None,
        },
        None => None,
    }
}

/// Resolves a binary operator for operands of the given types.
pub fn operator_type(
    cx: &TypeEvalContext,
    type_map: &TypeMap,
    left: LocalTypeId,
    right: LocalTypeId,
    op: InfixOp,
) -> (result: Option<LocalTypeId>)
    requires
        cx.wf(),
    ensures
        result == operator_result(*cx, type_map@, left, right, op),
{
    let method = match find_operator_method(cx.store, cx.interner, left, op) {
        Some(m) => m,
        None => {
            return None;
        },
    };
    let t = match cx.store.type_of(method) {
        Some(t) => t,
        None => {
            return None;
        },
    };
    match type_map.get_function(t) {
        Some(f) => if f.args.len() == 1 && f.args[0] == right {
            Some(f.ret)
        } else {
            None
        },
        None => None,
    }
}

/// The first function among `nodes`, from the place `from` on, that is
/// defined under the name with the given group.
pub open spec fn first_function(
    ast: Seq<Spanned<AstNode>>,
    nodes: Seq<NodeId>,
    group: usize,
    from: int,
) -> Option<NodeId>
    decreases nodes.len() - from,
{
    if from < 0 || from >= nodes.len() {
        None
    } else if nodes[from] < ast.len() && (ast[nodes[from] as int].inner matches AstNode::FuncDef(f)
        && f.name.spec_group() == group) {
        Some(nodes[from])
    } else {
        first_function(ast, nodes, group, from + 1)
    }
}

/// The node at which the function called through `func` is defined, if
/// `func` is a plain name and the scope defines a function of that name,
/// or else a function of that name has been declared for the module of the
/// scope.
pub open spec fn callee_definition(cx: TypeEvalContext, func: NodeId) -> Option<NodeId> {
    if func < cx.ast@.len() {
        match cx.ast@[func as int].inner {
            AstNode::Name(n) => match first_function(cx.ast@, cx.scope.nodes@, n.spec_group(), 0) {
                Some(def) => Some(def),
                None => match visible_function(cx, n.spec_group()) {
                    Some(f) => Some(f.def),
                    None => None,
                },
            },
            _ => None,
        }
    } else {
        None
    }
}

/// The declared function that code in the scope of `cx` can call under
/// the name with the given group: its type and the node of its definition.
fn find_visible(cx: &TypeEvalContext, group: usize) -> (found: Option<(LocalTypeId, NodeId)>)
    ensures
        found == match visible_function(*cx, group) {
            Some(f) => Some((f.type_id, f.def)),
            None => None,
        },
{
    match &cx.scope.module_ref {
        Some(module) => cx.declarations.find_function(module, group),
        None => None,
    }
}

fn find_callee(cx: &TypeEvalContext, func: NodeId) -> (def: Option<NodeId>)
    ensures
        def == callee_definition(*cx, func),
{
    let group = match cx.ast.get(func) {
        Some(spanned) => match &spanned.inner {
            AstNode::Name(n) => n.group(),
            _ => {
                return None;
            },
        },
        None => {
            return None;
        },
    };
    let mut i: usize = 0;
    while i < cx.scope.nodes.len()
        invariant
            i <= cx.scope.nodes@.len(),
            func < cx.ast@.len(),
            cx.ast@[func as int].inner matches AstNode::Name(n) && n.spec_group() == group,
            first_function(cx.ast@, cx.scope.nodes@, group, 0) == first_function(
                cx.ast@,
                cx.scope.nodes@,
                group,
                i as int,
            ),
        decreases cx.scope.nodes@.len() - i,
    {
        let node = cx.scope.nodes[i];
        let hit = match cx.ast.get(node) {
            Some(spanned) => match &spanned.inner {
                AstNode::FuncDef(f) => f.name.group() == group,
                _ => false,
            },
            None => false,
        };
        if hit {
            return Some(node);
        }
        i += 1;
    }
    match find_visible(cx, group) {
        Some((_, def)) => Some(def),
        None => None,
    }
}

/// The nodes whose types a rule needs before it can be applied, in the
/// order in which they are evaluated.
pub open spec fn operands(inner: AstNode) -> Seq<NodeId> {
    match inner {
        AstNode::IfExpr { test, body, orelse } => seq![body, orelse],
        AstNode::Assign(_) | AstNode::Tuple(_) | AstNode::BinOp { .. } | AstNode::Call { .. }
        | AstNode::Ret(_) => inner.children(),
        _ => Seq::empty(),
    }
}

/// The rule of a node that is made of other nodes, given the types `ts` of
/// its operands.
///
/// * An assignment whose annotation differs from the type of the value is
///   refused; otherwise the type is recorded in the rib, which refuses a
///   second type for one name. An assignment produces no value: its own
///   type is the never type. A mismatch is reported with the place of the
///   name and that of the value.
/// * A tuple has the tuple type of its members' types.
/// * An operator has the type that [`operator_result`] gives.
/// * Both branches of a conditional expression must have one type.
/// * The callee of a call must be a function; the arguments must fit its
///   parameters one by one; the call has the function's return type.
/// * A `return` must bring the type that the function declares; a bare
///   `return` brings the type of `None`.
pub open spec fn rule(cx: TypeEvalContext, node: NodeId, ts: Seq<LocalTypeId>, state: TypeState) -> (
    Result<Option<LocalTypeId>, MontyError>,
    TypeState,
) {
    let spanned = cx.ast@[node as int];
    match spanned.inner {
        AstNode::Assign(a) => {
            if a.kind.is_some() && ts[1] != ts[0] {
                (
                    Err(
                        MontyError::IncompatibleTypes {
                            left_span: cx.interner.place_of(a.name, spanned.span),
                            left: ts[1],
                            right_span: cx.ast@[a.value as int].span,
                            right: ts[0],
                        },
                    ),
                    state,
                )
            } else {
                let (ribs, refused) = rib_add(state.ribs, a.name.spec_group(), ts[0], spanned.span);
                match refused {
                    Some(first) => (
                        Err(
                            MontyError::IncompatibleReassignment {
                                name: a.name,
                                first_assigned: first.span,
                                incorrectly_reassigned: spanned.span,
                                expected: first.type_id,
                                actual: ts[0],
                            },
                        ),
                        state,
                    ),
                    None => (Ok(Some(TypeMap::NEVER)), TypeState { types: state.types, ribs }),
                }
            }
        },
        AstNode::Tuple(_) => {
            let (id, types) = TypeMap::interned(state.types, TypeShape::Tuple { members: ts });
            (Ok(Some(id as usize)), TypeState { types, ribs: state.ribs })
        },
        AstNode::BinOp { left, op, right } => match operator_result(
            cx,
            state.types,
            ts[0],
            ts[1],
            op,
        ) {
            Some(t) => (Ok(Some(t)), state),
            None => (
                Err(MontyError::BadBinaryOp { span: spanned.span, left: ts[0], right: ts[1], op }),
                state,
            ),
        },
        AstNode::IfExpr { .. } => if ts[0] == ts[1] {
            (Ok(Some(ts[0])), state)
        } else {
            (Err(MontyError::InferenceFailure), state)
        },
        AstNode::Call { func, args } => {
            let callee = ts[0];
            let supplied = ts.skip(1);
            if !(callee < state.types.len() && state.types[callee as int] is Function) {
                (Err(MontyError::InferenceFailure), state)
            } else {
                let sig = state.types[callee as int]->Function_0;
                if sig.args == supplied {
                    (Ok(Some(sig.ret)), state)
                } else {
                    let index = first_mismatch(sig.args, supplied);
                    (
                        Err(
                            MontyError::BadArgumentType {
                                expected: if index < sig.args.len() {
                                    sig.args[index]
                                } else {
                                    TypeMap::UNKNOWN
                                },
                                actual: if index < supplied.len() {
                                    supplied[index]
                                } else {
                                    TypeMap::UNKNOWN
                                },
                                index: index as usize,
                                arg_node: if index < args@.len() {
                                    args@[index]
                                } else {
                                    node
                                },
                                def_node: callee_definition(cx, func),
                            },
                        ),
                        state,
                    )
                }
            }
        },
        AstNode::Ret(r) => {
            let actual = if r.value.is_some() {
                ts[0]
            } else {
                TypeMap::NONE_TYPE
            };
            if actual == cx.expected_return_value {
                (Ok(None), state)
            } else {
                (
                    Err(
                        MontyError::BadReturnType {
                            expected: cx.expected_return_value,
                            actual,
                            ret_node: node,
                            def_node: cx.function,
                        },
                    ),
                    state,
                )
            }
        },
        _ => (Err(MontyError::InferenceFailure), state),
    }
}

/// The type of the node `node`, and what evaluating it leaves behind.
///
/// `limit` is the place in the scope at which the statement under
/// evaluation stands: a name that the rib does not know is looked up among
/// the assignments before that place, the functions and classes of the
/// scope, and the builtins.
///
/// * Literals have their builtin type.
/// * A name has the type that the rib gives it; the unknown type there is
///   an error. A name that the rib does not know has the type of the first
///   definition found: the value of the nearest assignment, the declared
///   type of a function or class, or the type of a builtin. A name that the
///   scope does not define at all may still be that of a function declared
///   for the module of the scope, and has that function's type then. A name
///   without any definition is undefined.
/// * Statements that only hold other statements have no type; their parts
///   are nodes of the scope themselves.
/// * For the nodes made of other nodes, the operands are evaluated in order
///   and then [`rule`] applies.
pub open spec fn type_of_node(cx: TypeEvalContext, node: NodeId, limit: int, state: TypeState) -> (
    Result<Option<LocalTypeId>, MontyError>,
    TypeState,
)
    decreases limit, 2 * node + 1, 0int,
{
    if node >= cx.ast@.len() || limit < 0 || limit > cx.scope.nodes@.len() {
        (Err(MontyError::InferenceFailure), state)
    } else {
        match cx.ast@[node as int].inner {
            AstNode::Int(_) => (Ok(Some(TypeMap::INTEGER)), state),
            AstNode::Str(_) => (Ok(Some(TypeMap::STRING)), state),
            AstNode::Bool(_) => (Ok(Some(TypeMap::BOOL)), state),
            AstNode::Float(_) => (Ok(Some(TypeMap::FLOAT)), state),
            AstNode::NoneLiteral => (Ok(Some(TypeMap::NONE_TYPE)), state),
            AstNode::Ellipsis => (Ok(Some(TypeMap::ELLIPSIS)), state),
            AstNode::Pass | AstNode::Comment(_) | AstNode::Import(_) | AstNode::ClassDef(_)
            | AstNode::FuncDef(_) | AstNode::If(_) | AstNode::While(_) => (Ok(None), state),
            AstNode::Name(n) => {
                let group = n.spec_group();
                if state.ribs.contains_key(group) {
                    if state.ribs[group].type_id == TypeMap::UNKNOWN {
                        (Err(MontyError::UnknownType { node }), state)
                    } else {
                        (Ok(Some(state.ribs[group].type_id)), state)
                    }
                } else {
                    let found = visible_definitions(cx.ast@, cx.scope.nodes@, group, limit)
                        + renamed_builtins(
                        cx.builtins.entries@,
                        n,
                        cx.builtins.entries@.len() as int,
                    );
                    if found.len() == 0 {
                        match visible_function(cx, group) {
                            Some(f) => (Ok(Some(f.type_id)), state),
                            None => (Err(MontyError::UndefinedVariable { node }), state),
                        }
                    } else {
                        match found[0] {
                            Definition::Renamed(r) => (Ok(Some(r.inner.type_id)), state),
                            Definition::Node(d) => match nearest_assignment(
                                cx.ast@,
                                cx.scope.nodes@,
                                group,
                                limit,
                            ) {
                                Some(at) => if 0 <= at < limit && cx.scope.nodes@[at] < cx.ast@.len() {
                                    match cx.ast@[cx.scope.nodes@[at] as int].inner {
                                        AstNode::Assign(a) => {
                                            let (value, after) = type_of_node(
                                                cx,
                                                a.value,
                                                at,
                                                state,
                                            );
                                            match value {
                                                Ok(Some(t)) => (Ok(Some(t)), after),
                                                Ok(None) => (
                                                    Err(MontyError::InferenceFailure),
                                                    after,
                                                ),
                                                Err(e) => (Err(e), after),
                                            }
                                        },
                                        _ => (Err(MontyError::InferenceFailure), state),
                                    }
                                } else {
                                    (Err(MontyError::InferenceFailure), state)
                                },
                                None => match declared(cx.declarations@, d) {
                                    Some(t) => (Ok(Some(t)), state),
                                    None => (Err(MontyError::InferenceFailure), state),
                                },
                            },
                        }
                    }
                }
            },
            AstNode::Assign(_) | AstNode::Tuple(_) | AstNode::BinOp { .. } | AstNode::IfExpr { .. }
            | AstNode::Call { .. } | AstNode::Ret(_) => {
                let parts = operands(cx.ast@[node as int].inner);
                let (ts, after) = types_of_nodes(cx, parts, node, limit, state, parts.len() as int);
                match ts {
                    Ok(ts) => rule(cx, node, ts, after),
                    Err(e) => (Err(e), after),
                }
            },
            _ => (Err(MontyError::InferenceFailure), state),
        }
    }
}

/// The types of the first `n` of `nodes`, evaluated in order. Each must be
/// a node below `bound` and must have a type.
pub open spec fn types_of_nodes(
    cx: TypeEvalContext,
    nodes: Seq<NodeId>,
    bound: NodeId,
    limit: int,
    state: TypeState,
    n: int,
) -> (Result<Seq<LocalTypeId>, MontyError>, TypeState)
    decreases limit, 2 * bound, n,
{
    if n <= 0 || limit < 0 {
        (Ok(Seq::empty()), state)
    } else {
        let (before, mid) = types_of_nodes(cx, nodes, bound, limit, state, n - 1);
        match before {
            Err(e) => (Err(e), mid),
            Ok(ts) => {
                let part = nodes[n - 1];
                if part >= bound {
                    (Err(MontyError::InferenceFailure), mid)
                } else {
                    let (value, after) = type_of_node(cx, part, limit, mid);
                    match value {
                        Ok(Some(t)) => (Ok(ts.push(t)), after),
                        Ok(None) => (Err(MontyError::InferenceFailure), after),
                        Err(e) => (Err(e), after),
                    }
                }
            },
        }
    }
}


fn operands_of(inner: &AstNode) -> (parts: Vec<NodeId>)
    ensures
        parts@ == operands(*inner),
{
    match inner {
        AstNode::IfExpr { test, body, orelse } => {
            let parts = vec![*body, *orelse];
            assert(parts@ =~= seq![*body, *orelse]);
            parts
        },
        AstNode::Assign(_) | AstNode::Tuple(_) | AstNode::BinOp { .. } | AstNode::Call { .. }
        | AstNode::Ret(_) => inner.walk_all(),
        _ => Vec::new(),
    }
}

/// Applies the rule of the node `node` to the types `ts` of its operands.
pub fn apply_rule(
    cx: &TypeEvalContext,
    node: NodeId,
    ts: &Vec<LocalTypeId>,
    type_map: &mut TypeMap,
    ribs: &mut Ribs,
) -> (result: Result<Option<LocalTypeId>, MontyError>)
    requires
        cx.wf(),
        old(type_map).wf(),
        old(ribs).wf(),
        node < cx.ast@.len(),
        ts@.len() == operands(cx.ast@[node as int].inner).len(),
    ensures
        final(type_map).wf(),
        final(ribs).wf(),
        (result, TypeState { types: final(type_map)@, ribs: final(ribs)@ }) == rule(
            *cx,
            node,
            ts@,
            TypeState { types: old(type_map)@, ribs: old(ribs)@ },
        ),
{
    let spanned = match cx.ast.get(node) {
        Some(s) => s,
        None => {
            return Err(MontyError::InferenceFailure);
        },
    };
    assert(spanned.inner.children_below(node as int));
    match &spanned.inner {
        AstNode::Assign(a) => {
            assert(spanned.inner.children()[0] == a.value);
            if a.kind.is_some() && ts[1] != ts[0] {
                let value_span = match cx.ast.get(a.value) {
                    Some(v) => v.span,
                    None => spanned.span,
                };
                return Err(
                    MontyError::IncompatibleTypes {
                        left_span: cx.interner.place(a.name, spanned.span),
                        left: ts[1],
                        right_span: value_span,
                        right: ts[0],
                    },
                );
            }
            match ribs.add(a.name.group(), ts[0], spanned.span) {
                Ok(()) => Ok(Some(TypeMap::NEVER)),
                Err(first) => Err(
                    MontyError::IncompatibleReassignment {
                        name: a.name,
                        first_assigned: first.span,
                        incorrectly_reassigned: spanned.span,
                        expected: first.type_id,
                        actual: ts[0],
                    },
                ),
            }
        },
        AstNode::Tuple(_) => {
            let mut members: Vec<LocalTypeId> = Vec::new();
            let mut i: usize = 0;
            while i < ts.len()
                invariant
                    i <= ts@.len(),
                    members@ == ts@.subrange(0, i as int),
                decreases ts@.len() - i,
            {
                members.push(ts[i]);
                i += 1;
                assert(members@ =~= ts@.subrange(0, i as int));
            }
            assert(members@ =~= ts@);
            let id = type_map.tuple(members);
            Ok(Some(id))
        },
        AstNode::BinOp { left, op, right } => {
            match operator_type(cx, type_map, ts[0], ts[1], *op) {
                Some(t) => Ok(Some(t)),
                None => Err(
                    MontyError::BadBinaryOp { span: spanned.span, left: ts[0], right: ts[1], op: *op },
                ),
            }
        },
        AstNode::IfExpr { .. } => {
            if ts[0] == ts[1] {
                Ok(Some(ts[0]))
            } else {
                Err(MontyError::InferenceFailure)
            }
        },
        AstNode::Call { func, args } => {
            let callee = ts[0];
            let ret = match type_map.get_function(callee) {
                Some(f) => f.ret,
                None => {
                    return Err(MontyError::InferenceFailure);
                },
            };
            let mut supplied: Vec<LocalTypeId> = Vec::new();
            let mut i: usize = 1;
            while i < ts.len()
                invariant
                    1 <= i <= ts@.len(),
                    supplied@ == ts@.subrange(1, i as int),
                decreases ts@.len() - i,
            {
                supplied.push(ts[i]);
                i += 1;
                assert(supplied@ =~= ts@.subrange(1, i as int));
            }
            assert(supplied@ =~= ts@.skip(1));
            match type_map.unify_call(callee, supplied.as_slice()) {
                Ok(()) => Ok(Some(ret)),
                Err((expected, actual, index)) => {
                    let arg_node = if index < args.len() {
                        args[index]
                    } else {
                        node
                    };
                    Err(
                        MontyError::BadArgumentType {
                            expected,
                            actual,
                            index,
                            arg_node,
                            def_node: find_callee(cx, *func),
                        },
                    )
                },
            }
        },
        AstNode::Ret(r) => {
            let actual = if r.value.is_some() {
                ts[0]
            } else {
                TypeMap::NONE_TYPE
            };
            if actual == cx.expected_return_value {
                Ok(None)
            } else {
                Err(
                    MontyError::BadReturnType {
                        expected: cx.expected_return_value,
                        actual,
                        ret_node: node,
                        def_node: cx.function,
                    },
                )
            }
        },
        _ => Err(MontyError::InferenceFailure),
    }
}

/// Evaluates the nodes `nodes` in order and collects their types.
pub fn typecheck_all(
    cx: &TypeEvalContext,
    nodes: &Vec<NodeId>,
    bound: NodeId,
    limit: usize,
    type_map: &mut TypeMap,
    ribs: &mut Ribs,
) -> (result: Result<Vec<LocalTypeId>, MontyError>)
    requires
        cx.wf(),
        old(type_map).wf(),
        old(ribs).wf(),
    ensures
        final(type_map).wf(),
        final(ribs).wf(),
        ({
            let (ts, after) = types_of_nodes(
                *cx,
                nodes@,
                bound,
                limit as int,
                TypeState { types: old(type_map)@, ribs: old(ribs)@ },
                nodes@.len() as int,
            );
            &&& after == TypeState { types: final(type_map)@, ribs: final(ribs)@ }
            &&& match result {
                Ok(found) => ts == Ok::<Seq<LocalTypeId>, MontyError>(found@),
                Err(e) => ts == Err::<Seq<LocalTypeId>, MontyError>(e),
            }
        }),
        result.is_ok() ==> result.unwrap()@.len() == nodes@.len(),
    decreases limit, 2 * bound, nodes@.len(),
{
    let ghost start = TypeState { types: old(type_map)@, ribs: old(ribs)@ };
    let mut found: Vec<LocalTypeId> = Vec::new();
    let mut i: usize = 0;
    while i < nodes.len()
        invariant
            cx.wf(),
            type_map.wf(),
            ribs.wf(),
            i <= nodes@.len(),
            found@.len() == i,
            start == (TypeState { types: old(type_map)@, ribs: old(ribs)@ }),
            types_of_nodes(*cx, nodes@, bound, limit as int, start, i as int) == (
                Ok::<Seq<LocalTypeId>, MontyError>(found@),
                TypeState { types: type_map@, ribs: ribs@ },
            ),
        decreases nodes@.len() - i,
    {
        let part = nodes[i];
        if part >= bound {
            proof {
                lemma_types_of_nodes_fail(*cx, nodes@, bound, limit as int, start, i as int + 1, nodes@.len() as int);
            }
            return Err(MontyError::InferenceFailure);
        }
        match typecheck(cx, part, limit, type_map, ribs) {
            Ok(Some(t)) => {
                found.push(t);
            },
            Ok(None) => {
                proof {
                    lemma_types_of_nodes_fail(*cx, nodes@, bound, limit as int, start, i as int + 1, nodes@.len() as int);
                }
                return Err(MontyError::InferenceFailure);
            },
            Err(e) => {
                proof {
                    lemma_types_of_nodes_fail(*cx, nodes@, bound, limit as int, start, i as int + 1, nodes@.len() as int);
                }
                return Err(e);
            },
        }
        i += 1;
    }
    Ok(found)
}

/// Once the evaluation of a list has failed, the nodes after the failure
/// are not evaluated: the error and the state stay.
pub proof fn lemma_types_of_nodes_fail(
    cx: TypeEvalContext,
    nodes: Seq<NodeId>,
    bound: NodeId,
    limit: int,
    state: TypeState,
    at: int,
    n: int,
)
    requires
        0 <= limit,
        0 < at <= n,
        types_of_nodes(cx, nodes, bound, limit, state, at).0.is_err(),
    ensures
        types_of_nodes(cx, nodes, bound, limit, state, n) == types_of_nodes(
            cx,
            nodes,
            bound,
            limit,
            state,
            at,
        ),
    decreases n - at,
{
    if at < n {
        lemma_types_of_nodes_fail(cx, nodes, bound, limit, state, at, n - 1);
    }
}

/// Gives the node `node` its type, as [`type_of_node`] defines it, and
/// brings the type universe and the rib to the state that the evaluation
/// leaves behind.
pub fn typecheck(
    cx: &TypeEvalContext,
    node: NodeId,
    limit: usize,
    type_map: &mut TypeMap,
    ribs: &mut Ribs,
) -> (result: Result<Option<LocalTypeId>, MontyError>)
    requires
        cx.wf(),
        old(type_map).wf(),
        old(ribs).wf(),
    ensures
        final(type_map).wf(),
        final(ribs).wf(),
        (result, TypeState { types: final(type_map)@, ribs: final(ribs)@ }) == type_of_node(
            *cx,
            node,
            limit as int,
            TypeState { types: old(type_map)@, ribs: old(ribs)@ },
        ),
    decreases limit, 2 * node + 1, 0int,
{
    if limit > cx.scope.nodes.len() {
        return Err(MontyError::InferenceFailure);
    }
    let spanned = match cx.ast.get(node) {
        Some(s) => s,
        None => {
            return Err(MontyError::InferenceFailure);
        },
    };
    match &spanned.inner {
        AstNode::Int(_) => Ok(Some(TypeMap::INTEGER)),
        AstNode::Str(_) => Ok(Some(TypeMap::STRING)),
        AstNode::Bool(_) => Ok(Some(TypeMap::BOOL)),
        AstNode::Float(_) => Ok(Some(TypeMap::FLOAT)),
        AstNode::NoneLiteral => Ok(Some(TypeMap::NONE_TYPE)),
        AstNode::Ellipsis => Ok(Some(TypeMap::ELLIPSIS)),
        AstNode::Pass | AstNode::Comment(_) | AstNode::Import(_) | AstNode::ClassDef(_)
        | AstNode::FuncDef(_) | AstNode::If(_) | AstNode::While(_) => Ok(None),
        AstNode::Name(n) => {
            match ribs.get(n.group()) {
                Some(entry) => {
                    if entry.type_id == TypeMap::UNKNOWN {
                        Err(MontyError::UnknownType { node })
                    } else {
                        Ok(Some(entry.type_id))
                    }
                },
                None => {
                    let found = cx.scope.lookup_before(cx.ast, *n, cx.builtins, limit);
                    if found.len() == 0 {
                        return match find_visible(cx, n.group()) {
                            Some((type_id, _)) => Ok(Some(type_id)),
                            None => Err(MontyError::UndefinedVariable { node }),
                        };
                    }
                    match found[0] {
                        Definition::Renamed(r) => Ok(Some(r.inner.type_id)),
                        Definition::Node(d) => {
                            match cx.scope.assignment_before(cx.ast, *n, limit) {
                                Some(at) => {
                                    let value = match cx.ast.get(cx.scope.nodes[at]) {
                                        Some(definition) => match &definition.inner {
                                            AstNode::Assign(a) => a.value,
                                            _ => {
                                                return Err(MontyError::InferenceFailure);
                                            },
                                        },
                                        None => {
                                            return Err(MontyError::InferenceFailure);
                                        },
                                    };
                                    match typecheck(cx, value, at, type_map, ribs) {
                                        Ok(Some(t)) => Ok(Some(t)),
                                        Ok(None) => Err(MontyError::InferenceFailure),
                                        Err(e) => Err(e),
                                    }
                                },
                                None => match cx.declarations.get(d) {
                                    Some(t) => Ok(Some(t)),
                                    None => Err(MontyError::InferenceFailure),
                                },
                            }
                        },
                    }
                },
            }
        },
        AstNode::Assign(_) | AstNode::Tuple(_) | AstNode::BinOp { .. } | AstNode::IfExpr { .. }
        | AstNode::Call { .. } | AstNode::Ret(_) => {
            let parts = operands_of(&spanned.inner);
            match typecheck_all(cx, &parts, node, limit, type_map, ribs) {
                Ok(ts) => apply_rule(cx, node, &ts, type_map, ribs),
                Err(e) => Err(e),
            }
        },
        _ => Err(MontyError::InferenceFailure),
    }
}

/// What checking the first `n` nodes of the scope gives, one after the
/// other, each at its own place: the type of every node, or the first
/// error, which stops the walk.
pub open spec fn checked_upto(cx: TypeEvalContext, state: TypeState, n: int) -> (
    Result<Seq<Option<LocalTypeId>>, MontyError>,
    TypeState,
)
    decreases n,
{
    if n <= 0 {
        (Ok(Seq::empty()), state)
    } else {
        let (before, mid) = checked_upto(cx, state, n - 1);
        match before {
            Err(e) => (Err(e), mid),
            Ok(types) => {
                let (value, after) = type_of_node(cx, cx.scope.nodes@[n - 1], n - 1, mid);
                match value {
                    Ok(t) => (Ok(types.push(t)), after),
                    Err(e) => (Err(e), after),
                }
            },
        }
    }
}

/// Whether a `return` stands among the first `n` nodes of the scope.
pub open spec fn has_return(ast: Seq<Spanned<AstNode>>, nodes: Seq<NodeId>, n: int) -> bool
    decreases n,
{
    if n <= 0 {
        false
    } else {
        (nodes[n - 1] < ast.len() && ast[nodes[n - 1] as int].inner is Ret) || has_return(
            ast,
            nodes,
            n - 1,
        )
    }
}

/// What checking a whole function body gives: the first error of its
/// nodes; or, where every node passes, an error for the missing `return`
/// if the function declares a return type other than that of `None` and no
/// `return` stands in its body; or else the types of the nodes of the
/// scope, in order.
pub open spec fn function_result(cx: TypeEvalContext, state: TypeState) -> (
    Result<Seq<Option<LocalTypeId>>, MontyError>,
    TypeState,
) {
    let n = cx.scope.nodes@.len() as int;
    let (walked, after) = checked_upto(cx, state, n);
    match walked {
        Err(e) => (Err(e), after),
        Ok(types) => if !has_return(cx.ast@, cx.scope.nodes@, n) && cx.expected_return_value
            != TypeMap::NONE_TYPE {
            (
                Err(
                    MontyError::MissingReturn {
                        expected: cx.expected_return_value,
                        actual: TypeMap::NONE_TYPE,
                        def_node: cx.function,
                    },
                ),
                after,
            )
        } else {
            (Ok(types), after)
        },
    }
}

proof fn lemma_checked_upto_fail(cx: TypeEvalContext, state: TypeState, at: int, n: int)
    requires
        0 < at <= n,
        checked_upto(cx, state, at).0.is_err(),
    ensures
        checked_upto(cx, state, n) == checked_upto(cx, state, at),
    decreases n - at,
{
    if at < n {
        lemma_checked_upto_fail(cx, state, at, n - 1);
    }
}

/// Checks every node of the scope in source order and then asks whether a
/// `return` is missing. Gives the types of the nodes of the scope.
pub fn check_function(cx: &TypeEvalContext, type_map: &mut TypeMap, ribs: &mut Ribs) -> (result:
    Result<Vec<Option<LocalTypeId>>, MontyError>)
    requires
        cx.wf(),
        old(type_map).wf(),
        old(ribs).wf(),
    ensures
        final(type_map).wf(),
        final(ribs).wf(),
        ({
            let (checked, after) = function_result(
                *cx,
                TypeState { types: old(type_map)@, ribs: old(ribs)@ },
            );
            &&& after == TypeState { types: final(type_map)@, ribs: final(ribs)@ }
            &&& match result {
                Ok(types) => checked == Ok::<Seq<Option<LocalTypeId>>, MontyError>(types@)
                    && types@.len() == cx.scope.nodes@.len(),
                Err(e) => checked == Err::<Seq<Option<LocalTypeId>>, MontyError>(e),
            }
        }),
{
    let ghost start = TypeState { types: old(type_map)@, ribs: old(ribs)@ };
    let mut types: Vec<Option<LocalTypeId>> = Vec::new();
    let mut implicit_return = true;
    let mut i: usize = 0;
    while i < cx.scope.nodes.len()
        invariant
            cx.wf(),
            type_map.wf(),
            ribs.wf(),
            i <= cx.scope.nodes@.len(),
            start == (TypeState { types: old(type_map)@, ribs: old(ribs)@ }),
            implicit_return == !has_return(cx.ast@, cx.scope.nodes@, i as int),
            types@.len() == i,
            checked_upto(*cx, start, i as int) == (
                Ok::<Seq<Option<LocalTypeId>>, MontyError>(types@),
                TypeState { types: type_map@, ribs: ribs@ },
            ),
        decreases cx.scope.nodes@.len() - i,
    {
        let node = cx.scope.nodes[i];
        match cx.ast.get(node) {
            Some(spanned) => match &spanned.inner {
                AstNode::Ret(_) => {
                    implicit_return = false;
                },
                _ => {},
            },
            None => {},
        }
        match typecheck(cx, node, i, type_map, ribs) {
            Ok(t) => {
                types.push(t);
            },
            Err(e) => {
                proof {
                    lemma_checked_upto_fail(*cx, start, i as int + 1, cx.scope.nodes@.len() as int);
                }
                return Err(e);
            },
        }
        i += 1;
    }
    if implicit_return && cx.expected_return_value != TypeMap::NONE_TYPE {
        Err(
            MontyError::MissingReturn {
                expected: cx.expected_return_value,
                actual: TypeMap::NONE_TYPE,
                def_node: cx.function,
            },
        )
    } else {
        Ok(types)
    }
}

/// The types of nodes by the number of the node.
pub struct NodeTypes {
    pub table: Vec<Option<LocalTypeId>>,
}

impl NodeTypes {
    /// A table for `len` nodes that knows no type yet.
    pub fn new(len: usize) -> (types: Self)
        ensures
            types.table@.len() == len,
            forall|i: int| 0 <= i < len ==> types.table@[i].is_none(),
    {
        let mut table: Vec<Option<LocalTypeId>> = Vec::new();
        let mut i: usize = 0;
        while i < len
            invariant
                i <= len,
                table@.len() == i,
                forall|k: int| 0 <= k < i ==> table@[k].is_none(),
            decreases len - i,
        {
            table.push(None);
            i += 1;
        }
        NodeTypes { table }
    }

    /// Notes the type of one node. A node beyond the table is left out.
    pub fn set(&mut self, node: NodeId, type_id: Option<LocalTypeId>)
        ensures
            node < old(self).table@.len() ==> final(self).table@ == old(self).table@.update(
                node as int,
                type_id,
            ),
            node >= old(self).table@.len() ==> final(self).table@ == old(self).table@,
    {
        if node < self.table.len() {
            self.table.set(node, type_id);
        }
    }

    /// The type noted for the node.
    pub fn get(&self, node: NodeId) -> (type_id: Option<LocalTypeId>)
        ensures
            type_id == if node < self.table@.len() {
                self.table@[node as int]
            } else {
                None
            },
    {
        if node < self.table.len() {
            self.table[node]
        } else {
            None
        }
    }

    /// The table after the types of the first `n` of `nodes` have been
    /// noted, one after the other.
    pub open spec fn recorded(
        table: Seq<Option<LocalTypeId>>,
        nodes: Seq<NodeId>,
        types: Seq<Option<LocalTypeId>>,
        n: int,
    ) -> Seq<Option<LocalTypeId>>
        decreases n,
    {
        if n <= 0 {
            table
        } else {
            let before = Self::recorded(table, nodes, types, n - 1);
            if nodes[n - 1] < before.len() {
                before.update(nodes[n - 1] as int, types[n - 1])
            } else {
                before
            }
        }
    }

    /// Notes the types of the nodes of a scope, as the check of the scope
    /// has found them.
    pub fn record(&mut self, nodes: &Vec<NodeId>, types: &Vec<Option<LocalTypeId>>)
        requires
            nodes@.len() == types@.len(),
        ensures
            final(self).table@ == Self::recorded(
                old(self).table@,
                nodes@,
                types@,
                nodes@.len() as int,
            ),
    {
        let mut i: usize = 0;
        while i < nodes.len()
            invariant
                i <= nodes@.len(),
                nodes@.len() == types@.len(),
                self.table@ == Self::recorded(old(self).table@, nodes@, types@, i as int),
            decreases nodes@.len() - i,
        {
            self.set(nodes[i], types[i]);
            i += 1;
        }
    }
}

/// A call of a function succeeds exactly when the types of the arguments
/// are the declared parameter types, one for one, and then has the
/// function's return type. Otherwise it fails with the declared type, the
/// supplied type and the index of the first argument that does not fit.
pub proof fn lemma_call_rule(
    cx: TypeEvalContext,
    node: NodeId,
    ts: Seq<LocalTypeId>,
    state: TypeState,
)
    requires
        node < cx.ast@.len(),
        cx.ast@[node as int].inner is Call,
        0 < ts.len() <= usize::MAX,
        ts[0] < state.types.len(),
        state.types[ts[0] as int] is Function,
    ensures
        ({
            let sig = state.types[ts[0] as int]->Function_0;
            let supplied = ts.skip(1);
            let (result, after) = rule(cx, node, ts, state);
            &&& after == state
            &&& sig.args == supplied ==> result == Ok::<Option<LocalTypeId>, MontyError>(
                Some(sig.ret),
            )
            &&& sig.args != supplied ==> (result matches Err(
                MontyError::BadArgumentType { expected, actual, index, .. },
            ) && index == first_mismatch(sig.args, supplied) && index <= sig.args.len() && index
                <= supplied.len() && (index < sig.args.len() ==> expected == sig.args[index as int])
                && (index < supplied.len() ==> actual == supplied[index as int]))
        }),
{
    let sig = state.types[ts[0] as int]->Function_0;
    crate::typing::lemma_first_mismatch(sig.args, ts.skip(1));
}

/// A `return` passes exactly when the type of its value, or the type of
/// `None` for a bare `return`, is the declared return type; otherwise it
/// fails with both types and both places.
pub proof fn lemma_return_rule(
    cx: TypeEvalContext,
    node: NodeId,
    ts: Seq<LocalTypeId>,
    state: TypeState,
)
    requires
        node < cx.ast@.len(),
        cx.ast@[node as int].inner is Ret,
    ensures
        ({
            let value = cx.ast@[node as int].inner->Ret_0.value;
            let actual = if value.is_some() {
                ts[0]
            } else {
                TypeMap::NONE_TYPE
            };
            let (result, after) = rule(cx, node, ts, state);
            &&& after == state
            &&& actual == cx.expected_return_value ==> result == Ok::<
                Option<LocalTypeId>,
                MontyError,
            >(None)
            &&& actual != cx.expected_return_value ==> result == Err::<
                Option<LocalTypeId>,
                MontyError,
            >(
                MontyError::BadReturnType {
                    expected: cx.expected_return_value,
                    actual,
                    ret_node: node,
                    def_node: cx.function,
                },
            )
        }),
{
}

/// A function whose nodes all pass, which declares a return type other
/// than that of `None`, and in whose body no `return` stands, is refused
/// for the missing return; with a `return` in its body, or declared to
/// return `None`, it passes.
pub proof fn lemma_missing_return(cx: TypeEvalContext, state: TypeState)
    requires
        checked_upto(cx, state, cx.scope.nodes@.len() as int).0.is_ok(),
    ensures
        ({
            let missing = !has_return(cx.ast@, cx.scope.nodes@, cx.scope.nodes@.len() as int)
                && cx.expected_return_value != TypeMap::NONE_TYPE;
            let result = function_result(cx, state).0;
            &&& missing ==> result == Err::<Seq<Option<LocalTypeId>>, MontyError>(
                MontyError::MissingReturn {
                    expected: cx.expected_return_value,
                    actual: TypeMap::NONE_TYPE,
                    def_node: cx.function,
                },
            )
            &&& !missing ==> result.is_ok()
        }),
{
}

/// The rule of a node only adds types: what the type universe held, it
/// holds afterwards at the same ids, and no type comes to stand twice.
pub proof fn lemma_rule_grows(cx: TypeEvalContext, node: NodeId, ts: Seq<LocalTypeId>, state: TypeState)
    requires
        TypeMap::no_duplicates(state.types),
    ensures
        state.types.is_prefix_of(rule(cx, node, ts, state).1.types),
        TypeMap::no_duplicates(rule(cx, node, ts, state).1.types),
{
    crate::typing::lemma_interned_grows(state.types, TypeShape::Tuple { members: ts });
    assert(state.types =~= state.types.subrange(0, state.types.len() as int));
}

/// Evaluating a node only adds types: what the type universe held, it
/// holds afterwards at the same ids, and no type comes to stand twice. So
/// an id that was given once stands for its type for good.
pub proof fn lemma_types_grow(cx: TypeEvalContext, node: NodeId, limit: int, state: TypeState)
    requires
        TypeMap::no_duplicates(state.types),
    ensures
        state.types.is_prefix_of(type_of_node(cx, node, limit, state).1.types),
        TypeMap::no_duplicates(type_of_node(cx, node, limit, state).1.types),
    decreases limit, 2 * node + 1, 0int,
{
    assert(state.types =~= state.types.subrange(0, state.types.len() as int));
    if !(node >= cx.ast@.len() || limit < 0 || limit > cx.scope.nodes@.len()) {
        match cx.ast@[node as int].inner {
            AstNode::Name(n) => {
                let group = n.spec_group();
                match nearest_assignment(cx.ast@, cx.scope.nodes@, group, limit) {
                    Some(at) => if 0 <= at < limit && cx.scope.nodes@[at] < cx.ast@.len() {
                        match cx.ast@[cx.scope.nodes@[at] as int].inner {
                            AstNode::Assign(a) => {
                                lemma_types_grow(cx, a.value, at, state);
                            },
                            _ => {},
                        }
                    },
                    None => {},
                }
            },
            AstNode::Assign(_) | AstNode::Tuple(_) | AstNode::BinOp { .. } | AstNode::IfExpr { .. }
            | AstNode::Call { .. } | AstNode::Ret(_) => {
                let parts = operands(cx.ast@[node as int].inner);
                lemma_types_grow_all(cx, parts, node, limit, state, parts.len() as int);
                let (ts, after) = types_of_nodes(cx, parts, node, limit, state, parts.len() as int);
                match ts {
                    Ok(found) => {
                        lemma_rule_grows(cx, node, found, after);
                        lemma_prefix_of_prefix(
                            state.types,
                            after.types,
                            rule(cx, node, found, after).1.types,
                        );
                    },
                    Err(_) => {},
                }
            },
            _ => {},
        }
    }
}

/// Evaluating nodes one after the other only adds types.
pub proof fn lemma_types_grow_all(
    cx: TypeEvalContext,
    nodes: Seq<NodeId>,
    bound: NodeId,
    limit: int,
    state: TypeState,
    n: int,
)
    requires
        TypeMap::no_duplicates(state.types),
    ensures
        state.types.is_prefix_of(types_of_nodes(cx, nodes, bound, limit, state, n).1.types),
        TypeMap::no_duplicates(types_of_nodes(cx, nodes, bound, limit, state, n).1.types),
    decreases limit, 2 * bound, n,
{
    assert(state.types =~= state.types.subrange(0, state.types.len() as int));
    if !(n <= 0 || limit < 0) {
        lemma_types_grow_all(cx, nodes, bound, limit, state, n - 1);
        let (before, mid) = types_of_nodes(cx, nodes, bound, limit, state, n - 1);
        if before.is_ok() && nodes[n - 1] < bound {
            lemma_types_grow(cx, nodes[n - 1], limit, mid);
            lemma_prefix_of_prefix(
                state.types,
                mid.types,
                type_of_node(cx, nodes[n - 1], limit, mid).1.types,
            );
        }
    }
}

proof fn lemma_prefix_of_prefix(a: Seq<TypeShape>, b: Seq<TypeShape>, c: Seq<TypeShape>)
    requires
        a.is_prefix_of(b),
        b.is_prefix_of(c),
    ensures
        a.is_prefix_of(c),
{
    assert forall|i: int| 0 <= i < a.len() implies a[i] == c[i] by {
        assert(a[i] == b.subrange(0, a.len() as int)[i]);
        assert(b[i] == c.subrange(0, b.len() as int)[i]);
    }
    assert(a =~= c.subrange(0, a.len() as int));
}

/// Tuples are typed by their members alone. Where the tuple at `a` is
/// evaluated and then the tuple at `b`, and the members of both have
/// types, both tuples have a type; the two types are the same exactly when
/// the members have the same types in the same order; and neither is the
/// id of a builtin type. The type of the first tuple still stands for the
/// same members after the second was evaluated. The type universe is one
/// that a machine can hold.
pub proof fn lemma_tuple_types(
    cx: TypeEvalContext,
    a: NodeId,
    b: NodeId,
    limit_a: int,
    limit_b: int,
    state: TypeState,
)
    requires
        TypeMap::builtins().is_prefix_of(state.types),
        TypeMap::no_duplicates(state.types),
        a < cx.ast@.len() && cx.ast@[a as int].inner is Tuple,
        b < cx.ast@.len() && cx.ast@[b as int].inner is Tuple,
        0 <= limit_a <= cx.scope.nodes@.len(),
        0 <= limit_b <= cx.scope.nodes@.len(),
        type_of_node(cx, b, limit_b, type_of_node(cx, a, limit_a, state).1).1.types.len()
            <= usize::MAX,
    ensures
        ({
            let parts_a = operands(cx.ast@[a as int].inner);
            let parts_b = operands(cx.ast@[b as int].inner);
            let (members_a, _) = types_of_nodes(cx, parts_a, a, limit_a, state, parts_a.len() as int);
            let (type_a, first) = type_of_node(cx, a, limit_a, state);
            let (members_b, _) = types_of_nodes(cx, parts_b, b, limit_b, first, parts_b.len() as int);
            let (type_b, second) = type_of_node(cx, b, limit_b, first);
            members_a.is_ok() && members_b.is_ok() ==> {
                &&& type_a matches Ok(Some(ta)) && type_b matches Ok(Some(tb)) && {
                    &&& ta < first.types.len() && tb < second.types.len()
                    &&& first.types[ta as int] == (TypeShape::Tuple { members: members_a.unwrap() })
                    &&& second.types[ta as int] == first.types[ta as int]
                    &&& second.types[tb as int] == (TypeShape::Tuple { members: members_b.unwrap() })
                    &&& (ta == tb <==> members_a.unwrap() == members_b.unwrap())
                    &&& ta >= TypeMap::builtins().len() && tb >= TypeMap::builtins().len()
                }
            }
        }),
{
    let parts_a = operands(cx.ast@[a as int].inner);
    let parts_b = operands(cx.ast@[b as int].inner);
    let (members_a, mid_a) = types_of_nodes(cx, parts_a, a, limit_a, state, parts_a.len() as int);
    let (type_a, first) = type_of_node(cx, a, limit_a, state);
    let (members_b, mid_b) = types_of_nodes(cx, parts_b, b, limit_b, first, parts_b.len() as int);
    let (type_b, second) = type_of_node(cx, b, limit_b, first);
    if members_a.is_ok() && members_b.is_ok() {
        let shape_a = TypeShape::Tuple { members: members_a.unwrap() };
        let shape_b = TypeShape::Tuple { members: members_b.unwrap() };
        lemma_types_grow_all(cx, parts_a, a, limit_a, state, parts_a.len() as int);
        crate::typing::lemma_interned_grows(mid_a.types, shape_a);
        lemma_types_grow(cx, a, limit_a, state);
        lemma_types_grow_all(cx, parts_b, b, limit_b, first, parts_b.len() as int);
        crate::typing::lemma_interned_grows(mid_b.types, shape_b);
        lemma_types_grow(cx, b, limit_b, first);
        lemma_prefix_of_prefix(first.types, mid_b.types, second.types);
        let ta = TypeMap::interned(mid_a.types, shape_a).0;
        let tb = TypeMap::interned(mid_b.types, shape_b).0;
        assert(first.types[ta] == shape_a);
        assert(second.types[tb] == shape_b);
        assert(second.types[ta] == second.types.subrange(0, first.types.len() as int)[ta]);
        assert(second.types[ta] == shape_a);
        lemma_prefix_of_prefix(TypeMap::builtins(), state.types, first.types);
        lemma_prefix_of_prefix(TypeMap::builtins(), first.types, second.types);
        assert forall|i: int| 0 <= i < TypeMap::builtins().len() implies second.types[i]
            is Simple by {
            assert(second.types.subrange(0, TypeMap::builtins().len() as int)[i]
                == TypeMap::builtins()[i]);
        }
        if ta < TypeMap::builtins().len() {
            assert(second.types[ta] is Simple);
        }
        if tb < TypeMap::builtins().len() {
            assert(second.types[tb] is Simple);
        }
        if ta != tb {
            if ta < tb {
                assert(second.types[ta] != second.types[tb]);
            } else {
                assert(second.types[tb] != second.types[ta]);
            }
        }
    }
}

/// The type that the call at `node` has whatever its arguments are: the
/// return type that the called function declares. Only the callee is
/// evaluated; the arguments are not looked at. A node that is no call, or
/// whose callee is no function, has no such type.
pub open spec fn call_type(cx: TypeEvalContext, node: NodeId, limit: int, state: TypeState) -> (
    Result<LocalTypeId, MontyError>,
    TypeState,
) {
    if node < cx.ast@.len() {
        match cx.ast@[node as int].inner {
            AstNode::Call { func, args } => if func < node {
                let (callee, after) = type_of_node(cx, func, limit, state);
                match callee {
                    Ok(Some(t)) => if t < after.types.len() && after.types[t as int] is Function {
                        (Ok(after.types[t as int]->Function_0.ret), after)
                    } else {
                        (Err(MontyError::InferenceFailure), after)
                    },
                    Ok(None) => (Err(MontyError::InferenceFailure), after),
                    Err(e) => (Err(e), after),
                }
            } else {
                (Err(MontyError::InferenceFailure), state)
            },
            _ => (Err(MontyError::InferenceFailure), state),
        }
    } else {
        (Err(MontyError::InferenceFailure), state)
    }
}

/// Infers the type of the call at `node` from the function that is called
/// alone: its declared return type, whatever the arguments are.
pub fn infer_call_type(
    cx: &TypeEvalContext,
    node: NodeId,
    limit: usize,
    type_map: &mut TypeMap,
    ribs: &mut Ribs,
) -> (result: Result<LocalTypeId, MontyError>)
    requires
        cx.wf(),
        old(type_map).wf(),
        old(ribs).wf(),
    ensures
        final(type_map).wf(),
        final(ribs).wf(),
        (result, TypeState { types: final(type_map)@, ribs: final(ribs)@ }) == call_type(
            *cx,
            node,
            limit as int,
            TypeState { types: old(type_map)@, ribs: old(ribs)@ },
        ),
{
    let func = match cx.ast.get(node) {
        Some(spanned) => match &spanned.inner {
            AstNode::Call { func, .. } => *func,
            _ => {
                return Err(MontyError::InferenceFailure);
            },
        },
        None => {
            return Err(MontyError::InferenceFailure);
        },
    };
    if func >= node {
        return Err(MontyError::InferenceFailure);
    }
    match typecheck(cx, func, limit, type_map, ribs) {
        Ok(Some(t)) => match type_map.get_function(t) {
            Some(f) => Ok(f.ret),
            None => Err(MontyError::InferenceFailure),
        },
        Ok(None) => Err(MontyError::InferenceFailure),
        Err(e) => Err(e),
    }
}

/// Where the operands have types, the first of these is the type of the
/// first operand, evaluated before all others.
pub proof fn lemma_first_operand(
    cx: TypeEvalContext,
    nodes: Seq<NodeId>,
    bound: NodeId,
    limit: int,
    state: TypeState,
    n: int,
)
    requires
        1 <= n,
        0 <= limit,
        types_of_nodes(cx, nodes, bound, limit, state, n).0.is_ok(),
    ensures
        ({
            let ts = types_of_nodes(cx, nodes, bound, limit, state, n).0.unwrap();
            &&& ts.len() == n
            &&& nodes[0] < bound
            &&& type_of_node(cx, nodes[0], limit, state).0 == Ok::<Option<LocalTypeId>, MontyError>(
                Some(ts[0]),
            )
        }),
    decreases n,
{
    if n > 1 {
        lemma_first_operand(cx, nodes, bound, limit, state, n - 1);
    } else {
        assert(types_of_nodes(cx, nodes, bound, limit, state, 0) == (
            Ok::<Seq<LocalTypeId>, MontyError>(Seq::empty()),
            state,
        ));
    }
}

/// The type inferred for a call from its callee alone is the type that
/// the call has where it passes the check: the arguments decide whether
/// the call is accepted, never what type it has. The callee's type is one
/// that the type universe holds.
pub proof fn lemma_call_type(cx: TypeEvalContext, node: NodeId, limit: int, state: TypeState)
    requires
        TypeMap::no_duplicates(state.types),
        node < cx.ast@.len(),
        cx.ast@[node as int].inner is Call,
        type_of_node(cx, node, limit, state).0 matches Ok(Some(_)),
        type_of_node(
            cx,
            cx.ast@[node as int].inner->Call_func,
            limit,
            state,
        ).0 matches Ok(Some(t)) && t < type_of_node(
            cx,
            cx.ast@[node as int].inner->Call_func,
            limit,
            state,
        ).1.types.len(),
    ensures
        call_type(cx, node, limit, state).0 == Ok::<LocalTypeId, MontyError>(
            type_of_node(cx, node, limit, state).0.unwrap().unwrap(),
        ),
{
    let func = cx.ast@[node as int].inner->Call_func;
    let parts = operands(cx.ast@[node as int].inner);
    assert(parts[0] == func);
    let (ts, mid) = types_of_nodes(cx, parts, node, limit, state, parts.len() as int);
    lemma_first_operand(cx, parts, node, limit, state, parts.len() as int);
    let (callee, after) = type_of_node(cx, func, limit, state);
    lemma_types_grow(cx, func, limit, state);
    lemma_types_from(cx, parts, node, limit, state, parts.len() as int);
    let t = ts.unwrap()[0];
    assert(mid.types[t as int] == mid.types.subrange(0, after.types.len() as int)[t as int]);
}

/// The types held after the first operand was evaluated are still held, at
/// their ids, after all operands were evaluated.
proof fn lemma_types_from(
    cx: TypeEvalContext,
    nodes: Seq<NodeId>,
    bound: NodeId,
    limit: int,
    state: TypeState,
    n: int,
)
    requires
        1 <= n,
        0 <= limit,
        TypeMap::no_duplicates(state.types),
    ensures
        type_of_node(cx, nodes[0], limit, state).1.types.is_prefix_of(
            types_of_nodes(cx, nodes, bound, limit, state, n).1.types,
        ) || !types_of_nodes(cx, nodes, bound, limit, state, n).0.is_ok(),
    decreases n,
{
    let first = type_of_node(cx, nodes[0], limit, state).1.types;
    if n == 1 {
        assert(types_of_nodes(cx, nodes, bound, limit, state, 0).1 == state);
        assert(first =~= first.subrange(0, first.len() as int));
    } else {
        lemma_types_from(cx, nodes, bound, limit, state, n - 1);
        let (before, mid) = types_of_nodes(cx, nodes, bound, limit, state, n - 1);
        if before.is_ok() && nodes[n - 1] < bound {
            lemma_types_grow_all(cx, nodes, bound, limit, state, n - 1);
            lemma_types_grow(cx, nodes[n - 1], limit, mid);
            lemma_prefix_of_prefix(first, mid.types, type_of_node(cx, nodes[n - 1], limit, mid).1.types);
        }
    }
}

} // verus!
