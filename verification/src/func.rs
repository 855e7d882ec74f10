//! Functions: from a definition to its signature, its scope and the check
//! of its body.

use crate::ast::{argument_kinds, optional, Argument, Ast, AstNode, NodeId};
use crate::error::MontyError;
use crate::interpreter::value_store::ValueStore;
use crate::ribs::{rib_add, RibEntry, Ribs};
use crate::scope::{subnodes, Builtins, LocalScope, OpaqueScope, ScopeRoot};
use crate::span::{Span, SpanInterner, SpanRef};
use crate::typechk::{
    check_function, function_result, module_of, typecheck_all, types_of_nodes, Declarations,
    TypeEvalContext,
    TypeState,
};
use crate::typing::{FunctionSig, FunctionType, LocalTypeId, TypeDescriptor, TypeMap, TypeShape};
use vstd::prelude::*;

verus! {

/// A function of the program: where it is defined, the scope of its body,
/// its type, and its parameters with their types.
#[derive(Debug)]
pub struct Function {
    pub def: NodeId,
    pub scope: LocalScope,
    pub kind: LocalTypeId,
    pub params: Vec<(SpanRef, LocalTypeId)>,
    pub ret: LocalTypeId,
}

/// The annotations that make up a signature: those of the parameters, then
/// that of the result if there is one.
pub open spec fn signature_parts(node: AstNode) -> Seq<NodeId> {
    match node {
        AstNode::FuncDef(f) => argument_kinds(f.args@) + optional(f.returns),
        _ => Seq::empty(),
    }
}

/// The signature that the annotation types `ts` give to the definition: a
/// function without a return annotation returns the type of `None`.
pub open spec fn signature_from(node: AstNode, ts: Seq<LocalTypeId>) -> FunctionSig {
    match node {
        AstNode::FuncDef(f) => FunctionSig {
            name: f.name.spec_group(),
            reciever: None,
            args: ts.subrange(0, f.args@.len() as int),
            ret: if f.returns.is_some() {
                ts[f.args@.len() as int]
            } else {
                TypeMap::NONE_TYPE
            },
        },
        _ => FunctionSig { name: 0, reciever: None, args: Seq::empty(), ret: TypeMap::NONE_TYPE },
    }
}

/// The parameters with the types `ts` of their annotations.
pub open spec fn parameters_from(args: Seq<Argument>, ts: Seq<LocalTypeId>) -> Seq<
    (SpanRef, LocalTypeId),
> {
    Seq::new(args.len(), |i: int| (args[i].name, ts[i]))
}

/// The rib after the first `n` of the parameters have been bound, each at
/// the place `span`. A parameter that repeats an earlier name keeps the
/// earlier type.
pub open spec fn bound_parameters(
    ribs: Map<usize, RibEntry>,
    params: Seq<(SpanRef, LocalTypeId)>,
    span: Span,
    n: int,
) -> Map<usize, RibEntry>
    decreases n,
{
    if n <= 0 {
        ribs
    } else {
        rib_add(
            bound_parameters(ribs, params, span, n - 1),
            params[n - 1].0.spec_group(),
            params[n - 1].1,
            span,
        ).0
    }
}

impl Function {
    /// Reads the signature of the function defined at `def` and builds the
    /// scope of its body.
    ///
    /// The annotations are evaluated at the place `cx.scope` gives to
    /// `limit`; the type of the function is interned. The scope of the body
    /// belongs to the module of `cx.scope`. A node that is not a
    /// function definition is refused.
    pub fn declare(cx: &TypeEvalContext, def: NodeId, limit: usize, type_map: &mut TypeMap, ribs: &mut Ribs) -> (result:
        Result<Function, MontyError>)
        requires
            cx.wf(),
            old(type_map).wf(),
            old(ribs).wf(),
        ensures
            final(type_map).wf(),
            final(ribs).wf(),
            !(def < cx.ast@.len() && cx.ast@[def as int].inner is FuncDef) ==> result == Err::<
                Function,
                MontyError,
            >(MontyError::InferenceFailure) && final(type_map)@ == old(type_map)@ && final(ribs)@
                == old(ribs)@,
            def < cx.ast@.len() && cx.ast@[def as int].inner is FuncDef ==> ({
                let node = cx.ast@[def as int].inner;
                let parts = signature_parts(node);
                let (ts, after) = types_of_nodes(
                    *cx,
                    parts,
                    def,
                    limit as int,
                    TypeState { types: old(type_map)@, ribs: old(ribs)@ },
                    parts.len() as int,
                );
                &&& final(ribs)@ == after.ribs
                &&& match result {
                    Err(e) => ts == Err::<Seq<LocalTypeId>, MontyError>(e) && final(type_map)@
                        == after.types,
                    Ok(function) => {
                        &&& ts.is_ok()
                        &&& (function.kind as int, final(type_map)@) == TypeMap::interned(
                            after.types,
                            TypeShape::Function(signature_from(node, ts.unwrap())),
                        )
                        &&& function.def == def
                        &&& function.ret == signature_from(node, ts.unwrap()).ret
                        &&& function.params@ == parameters_from(
                            node->FuncDef_0.args@,
                            ts.unwrap(),
                        )
                        &&& function.scope.inner.root == ScopeRoot::Func(def)
                        &&& module_of(&function.scope.inner) == module_of(cx.scope)
                        &&& function.scope.inner.nodes@ == subnodes(
                            cx.ast@,
                            node->FuncDef_0.body@,
                            def as int,
                        )
                    },
                }
            }),
    {
        let spanned = match cx.ast.get(def) {
            Some(s) => s,
            None => {
                return Err(MontyError::InferenceFailure);
            },
        };
        let f = match &spanned.inner {
            AstNode::FuncDef(f) => f,
            _ => {
                return Err(MontyError::InferenceFailure);
            },
        };
        let mut parts: Vec<NodeId> = Vec::new();
        let mut i: usize = 0;
        while i < f.args.len()
            invariant
                i <= f.args@.len(),
                parts@ == argument_kinds(f.args@).subrange(0, i as int),
            decreases f.args@.len() - i,
        {
            parts.push(f.args[i].kind);
            i += 1;
            assert(parts@ =~= argument_kinds(f.args@).subrange(0, i as int));
        }
        match f.returns {
            Some(r) => {
                parts.push(r);
            },
            None => {},
        }
        assert(parts@ =~= signature_parts(spanned.inner));
        let ts = match typecheck_all(cx, &parts, def, limit, type_map, ribs) {
            Ok(ts) => ts,
            Err(e) => {
                return Err(e);
            },
        };
        let mut args: Vec<LocalTypeId> = Vec::new();
        let mut params: Vec<(SpanRef, LocalTypeId)> = Vec::new();
        let mut k: usize = 0;
        while k < f.args.len()
            invariant
                k <= f.args@.len(),
                ts@.len() == parts@.len(),
                parts@.len() >= f.args@.len(),
                args@ == ts@.subrange(0, k as int),
                params@ == parameters_from(f.args@, ts@).subrange(0, k as int),
            decreases f.args@.len() - k,
        {
            args.push(ts[k]);
            params.push((f.args[k].name, ts[k]));
            k += 1;
            assert(args@ =~= ts@.subrange(0, k as int));
            assert(params@ =~= parameters_from(f.args@, ts@).subrange(0, k as int));
        }
        assert(params@ =~= parameters_from(f.args@, ts@));
        let ret = match f.returns {
            Some(_) => ts[f.args.len()],
            None => TypeMap::NONE_TYPE,
        };
        let signature = FunctionType { name: f.name, reciever: None, args, ret };
        let kind = type_map.intern(TypeDescriptor::Function(signature));
        let nodes = crate::scope::collect_subnodes(cx.ast, &f.body, def);
        let module_ref = match &cx.scope.module_ref {
            Some(m) => Some(m.duplicate()),
            None => None,
        };
        let scope = LocalScope {
            inner: OpaqueScope { root: ScopeRoot::Func(def), module_ref, nodes },
        };
        Ok(Function { def, scope, kind, params, ret })
    }

    /// The types of the first `n` annotations of the signature: those of
    /// the parameters, then that of the result.
    pub open spec fn annotation_types(&self, n: int) -> Seq<Option<LocalTypeId>> {
        Seq::new(
            n as nat,
            |i: int|
                if i < self.params@.len() {
                    Some(self.params@[i].1)
                } else {
                    Some(self.ret)
                },
        )
    }

    /// The annotations of the signature, and for each of them the type
    /// that the declaration found: so the types can be noted by node.
    pub fn annotations(&self, ast: &Ast) -> (result: (Vec<NodeId>, Vec<Option<LocalTypeId>>))
        ensures
            result.0@ == if self.def < ast@.len() {
                signature_parts(ast@[self.def as int].inner)
            } else {
                Seq::empty()
            },
            result.1@ == self.annotation_types(result.0@.len() as int),
    {
        let mut parts: Vec<NodeId> = Vec::new();
        let mut types: Vec<Option<LocalTypeId>> = Vec::new();
        let f = match ast.get(self.def) {
            Some(spanned) => match &spanned.inner {
                AstNode::FuncDef(f) => f,
                _ => {
                    assert(types@ =~= self.annotation_types(0));
                    return (parts, types);
                },
            },
            None => {
                assert(types@ =~= self.annotation_types(0));
                return (parts, types);
            },
        };
        let mut i: usize = 0;
        while i < f.args.len()
            invariant
                i <= f.args@.len(),
                parts@ == argument_kinds(f.args@).subrange(0, i as int),
                types@ == self.annotation_types(i as int),
            decreases f.args@.len() - i,
        {
            parts.push(f.args[i].kind);
            let found = if i < self.params.len() {
                Some(self.params[i].1)
            } else {
                Some(self.ret)
            };
            types.push(found);
            i += 1;
            assert(parts@ =~= argument_kinds(f.args@).subrange(0, i as int));
            assert(types@ =~= self.annotation_types(i as int));
        }
        match f.returns {
            Some(r) => {
                parts.push(r);
                let found = if i < self.params.len() {
                    Some(self.params[i].1)
                } else {
                    Some(self.ret)
                };
                types.push(found);
                assert(types@ =~= self.annotation_types(i + 1));
            },
            None => {},
        }
        assert(parts@ =~= signature_parts(ast@[self.def as int].inner));
        (parts, types)
    }

    /// Checks the body: binds the parameters in a new rib, checks every
    /// node of the scope in source order, and asks for the `return` that
    /// the signature promises. Hands back the rib of the function.
    pub fn typecheck(
        &self,
        ast: &Ast,
        builtins: &Builtins,
        declarations: &Declarations,
        store: &ValueStore,
        interner: &SpanInterner,
        type_map: &mut TypeMap,
    ) -> (result: Result<(Ribs, Vec<Option<LocalTypeId>>), MontyError>)
        requires
            ast.wf(),
            interner.wf(),
            store.graph.wf(),
            old(type_map).wf(),
            self.def < ast@.len(),
        ensures
            final(type_map).wf(),
            ({
                let cx = TypeEvalContext {
                    ast,
                    scope: &self.scope.inner,
                    builtins,
                    declarations,
                    store,
                    interner,
                    expected_return_value: self.ret,
                    function: Some(self.def),
                };
                let bound = bound_parameters(
                    Map::<usize, RibEntry>::empty(),
                    self.params@,
                    ast@[self.def as int].span,
                    self.params@.len() as int,
                );
                let (checked, after) = function_result(
                    cx,
                    TypeState { types: old(type_map)@, ribs: bound },
                );
                &&& final(type_map)@ == after.types
                &&& match result {
                    Ok((ribs, types)) => checked == Ok::<Seq<Option<LocalTypeId>>, MontyError>(
                        types@,
                    ) && ribs.wf() && ribs@ == after.ribs && types@.len()
                        == self.scope.inner.nodes@.len(),
                    Err(e) => checked == Err::<Seq<Option<LocalTypeId>>, MontyError>(e),
                }
            }),
    {
        let span = match ast.get(self.def) {
            Some(s) => s.span,
            None => Span { start: 0, end: 0 },
        };
        let mut ribs = Ribs::new();
        let mut i: usize = 0;
        while i < self.params.len()
            invariant
                i <= self.params@.len(),
                ribs.wf(),
                ribs@ == bound_parameters(
                    Map::<usize, RibEntry>::empty(),
                    self.params@,
                    span,
                    i as int,
                ),
            decreases self.params@.len() - i,
        {
            let (name, type_id) = self.params[i];
            let _ = ribs.add(name.group(), type_id, span);
            i += 1;
        }
        let cx = TypeEvalContext {
            ast,
            scope: &self.scope.inner,
            builtins,
            declarations,
            store,
            interner,
            expected_return_value: self.ret,
            function: Some(self.def),
        };
        match check_function(&cx, type_map, &mut ribs) {
            Ok(types) => Ok((ribs, types)),
            Err(e) => Err(e),
        }
    }
}

} // verus!
