//! The walk over a module: which of its statements define functions, and
//! the check of one of them.

use crate::ast::{Ast, AstNode, Import, NodeId, Spanned};
use crate::context::global::GlobalContext;
use crate::context::ModuleRef;
use crate::parser::comb::basic::ParseError;
use crate::parser::comb::stmt::parsed_module;
use crate::parser::tree::forest_of;
use crate::parser::{parse, Token};
use crate::error::MontyError;
use crate::interpreter::dict::{IdPair, PyDictRaw};
use crate::interpreter::object_graph::{ObjectGraphIndex, Value};
use crate::func::{bound_parameters, parameters_from, signature_from, signature_parts, Function};
use crate::ribs::{RibEntry, Ribs};
use crate::scope::{position_from, subnodes, ScopeRoot};
use crate::span::{SpanInterner, SpanRef};
use crate::ast::InfixOp;
use crate::context::global::method_ready;
use crate::typechk::{
    checked_upto, declared_with, function_result, has_return, module_of, operands, type_of_node,
    types_of_nodes, NamedView, TypeEvalContext, TypeState,
};
use crate::typing::{LocalTypeId, TypeMap, TypeShape};
use vstd::prelude::*;

verus! {

/// Those of the first `n` nodes of `body` that are function definitions,
/// in their order.
pub open spec fn function_definitions(ast: Seq<Spanned<AstNode>>, body: Seq<NodeId>, n: int) -> Seq<
    NodeId,
>
    decreases n,
{
    if n <= 0 || n > body.len() {
        Seq::empty()
    } else if body[n - 1] < ast.len() && ast[body[n - 1] as int].inner is FuncDef {
        function_definitions(ast, body, n - 1).push(body[n - 1])
    } else {
        function_definitions(ast, body, n - 1)
    }
}

/// The texts of the first `n` of the names, or `None` if the interner does
/// not know one of them.
pub open spec fn texts_of(interner: &SpanInterner, names: Seq<SpanRef>, n: int) -> Option<
    Seq<Seq<u8>>,
>
    decreases n,
{
    if n <= 0 {
        Some(Seq::empty())
    } else {
        match texts_of(interner, names, n - 1) {
            Some(texts) => if interner.knows(names[n - 1]) {
                Some(texts.push(interner.text_of(names[n - 1])))
            } else {
                None
            },
            None => None,
        }
    }
}

/// The dotted names of the modules that the first `n` names of an import
/// ask for, each as the texts of its parts: the name itself for a plain
/// import, the name behind that of the module for a `from` import.
pub open spec fn import_targets(
    ast: Seq<Spanned<AstNode>>,
    interner: &SpanInterner,
    import: Import,
    n: int,
) -> Option<Seq<Seq<Seq<u8>>>>
    decreases n,
{
    if n <= 0 {
        Some(Seq::empty())
    } else {
        let prefix = match import.module {
            Some(m) => Ast::spec_components(ast, m as int),
            None => Some(Seq::empty()),
        };
        match (
            import_targets(ast, interner, import, n - 1),
            prefix,
            Ast::spec_components(ast, import.names@[n - 1] as int),
        ) {
            (Some(before), Some(base), Some(path)) => match texts_of(
                interner,
                base + path,
                (base + path).len() as int,
            ) {
                Some(texts) => Some(before.push(texts)),
                None => None,
            },
            _ => None,
        }
    }
}

/// The texts as sequences.
pub open spec fn parts_view(parts: Seq<Vec<u8>>) -> Seq<Seq<u8>> {
    Seq::new(parts.len(), |i: int| parts[i]@)
}

/// The dotted names as sequences.
pub open spec fn targets_view(targets: Seq<Vec<Vec<u8>>>) -> Seq<Seq<Seq<u8>>> {
    Seq::new(targets.len(), |i: int| parts_view(targets[i]@))
}

proof fn lemma_import_targets_fail(
    ast: Seq<Spanned<AstNode>>,
    interner: &SpanInterner,
    import: Import,
    at: int,
    n: int,
)
    requires
        0 < at <= n,
        import_targets(ast, interner, import, at).is_none(),
    ensures
        import_targets(ast, interner, import, n).is_none(),
    decreases n - at,
{
    if at < n {
        lemma_import_targets_fail(ast, interner, import, at, n - 1);
    }
}

proof fn lemma_texts_of_fail(interner: &SpanInterner, names: Seq<SpanRef>, at: int, n: int)
    requires
        0 < at <= n,
        texts_of(interner, names, at).is_none(),
    ensures
        texts_of(interner, names, n).is_none(),
    decreases n - at,
{
    if at < n {
        lemma_texts_of_fail(interner, names, at, n - 1);
    }
}

fn copy_text(text: &[u8]) -> (copy: Vec<u8>)
    ensures
        copy@ == text@,
{
    let mut copy: Vec<u8> = Vec::new();
    let mut i: usize = 0;
    while i < text.len()
        invariant
            i <= text@.len(),
            copy@ == text@.subrange(0, i as int),
        decreases text@.len() - i,
    {
        copy.push(text[i]);
        i += 1;
        assert(copy@ =~= text@.subrange(0, i as int));
    }
    assert(copy@ =~= text@);
    copy
}

/// The texts of the names.
fn resolve_all(interner: &SpanInterner, names: &Vec<SpanRef>) -> (texts: Option<Vec<Vec<u8>>>)
    requires
        interner.wf(),
    ensures
        match texts {
            Some(found) => texts_of(interner, names@, names@.len() as int) == Some(
                parts_view(found@),
            ),
            None => texts_of(interner, names@, names@.len() as int).is_none(),
        },
{
    let mut found: Vec<Vec<u8>> = Vec::new();
    assert(parts_view(found@) =~= Seq::<Seq<u8>>::empty());
    let mut i: usize = 0;
    while i < names.len()
        invariant
            interner.wf(),
            i <= names@.len(),
            texts_of(interner, names@, i as int) == Some(parts_view(found@)),
        decreases names@.len() - i,
    {
        match interner.resolve_ref(names[i]) {
            Some(text) => {
                let ghost before = parts_view(found@);
                let copy = copy_text(text);
                found.push(copy);
                assert(parts_view(found@) =~= before.push(interner.text_of(names@[i as int])));
            },
            None => {
                proof {
                    lemma_texts_of_fail(interner, names@, i as int + 1, names@.len() as int);
                }
                return None;
            },
        }
        i += 1;
    }
    Some(found)
}

/// Whether `value` is a function value that carries the name `text` and
/// nothing else.
pub open spec fn plain_function(value: Value, text: Seq<u8>) -> bool {
    match value {
        Value::Function { name, properties, annotations, defsite, parent } => {
            &&& name@ == text
            &&& properties@ == Map::<u64, IdPair>::empty()
            &&& annotations@ == Map::<u64, IdPair>::empty()
            &&& defsite.is_none()
            &&& parent.is_none()
        },
        _ => false,
    }
}

impl GlobalContext {
    /// The dotted names of the modules that the import at `node` asks for,
    /// each as the texts of its parts. `None` for a node that is no
    /// import, and for an import whose names are not dotted names that the
    /// interner knows.
    pub fn import_targets(&self, node: NodeId) -> (targets: Option<Vec<Vec<Vec<u8>>>>)
        requires
            self.wf(),
        ensures
            ({
                let expected = if node < self.ast@.len() {
                    match self.ast@[node as int].inner {
                        AstNode::Import(i) => import_targets(
                            self.ast@,
                            &self.interner,
                            i,
                            i.names@.len() as int,
                        ),
                        _ => None,
                    }
                } else {
                    None
                };
                match targets {
                    Some(found) => expected == Some(targets_view(found@)),
                    None => expected.is_none(),
                }
            }),
    {
        let import = match self.ast.get(node) {
            Some(spanned) => match &spanned.inner {
                AstNode::Import(i) => i,
                _ => {
                    return None;
                },
            },
            None => {
                return None;
            },
        };
        let mut targets: Vec<Vec<Vec<u8>>> = Vec::new();
        assert(targets_view(targets@) =~= Seq::<Seq<Seq<u8>>>::empty());
        let mut i: usize = 0;
        while i < import.names.len()
            invariant
                self.wf(),
                i <= import.names@.len(),
                node < self.ast@.len(),
                self.ast@[node as int].inner == AstNode::Import(*import),
                import_targets(self.ast@, &self.interner, *import, i as int) == Some(
                    targets_view(targets@),
                ),
            decreases import.names@.len() - i,
        {
            let prefix = match import.module {
                Some(m) => self.ast.components(m),
                None => Some(Vec::new()),
            };
            let path = self.ast.components(import.names[i]);
            let texts = match (prefix, path) {
                (Some(mut full), Some(mut path)) => {
                    let ghost base = full@;
                    let ghost rest = path@;
                    full.append(&mut path);
                    assert(full@ =~= base + rest);
                    resolve_all(&self.interner, &full)
                },
                _ => None,
            };
            match texts {
                Some(found) => {
                    let ghost before = targets_view(targets@);
                    let ghost added = parts_view(found@);
                    targets.push(found);
                    assert(targets_view(targets@) =~= before.push(added));
                },
                None => {
                    proof {
                        lemma_import_targets_fail(
                            self.ast@,
                            &self.interner,
                            *import,
                            i as int + 1,
                            import.names@.len() as int,
                        );
                    }
                    return None;
                },
            }
            i += 1;
        }
        Some(targets)
    }

    /// Parses the tokens of the module with the key `path` and enters the
    /// module into the registry, and gives its place there. A module that is
    /// registered under that key already is not read again: its place comes
    /// back and nothing changes. Nothing changes either where the tokens
    /// are no module.
    pub fn parse_and_register_module(
        &mut self,
        stream: &[Token],
        path: ModuleRef,
        source: Vec<u8>,
    ) -> (result: Result<usize, ParseError>)
        requires
            old(self).wf(),
        ensures
            final(self).wf(),
            old(self).ast@.is_prefix_of(final(self).ast@),
            final(self).type_map@ == old(self).type_map@,
            final(self).builtins.entries@ == old(self).builtins.entries@,
            match Self::registered_at(old(self).modules@, path@, 0) {
                Some(i) => {
                    &&& result == Ok::<usize, ParseError>(i as usize)
                    &&& final(self).modules@ == old(self).modules@
                    &&& final(self).ast@ == old(self).ast@
                },
                None => match parsed_module(stream@) {
                    None => {
                        &&& result.is_err()
                        &&& final(self).modules@ == old(self).modules@
                        &&& final(self).ast@ == old(self).ast@
                    },
                    Some(forest) => {
                        let added = final(self).modules@.last();
                        &&& result == Ok::<usize, ParseError>(old(self).modules@.len() as usize)
                        &&& final(self).modules@.len() == old(self).modules@.len() + 1
                        &&& forall|i: int|
                            0 <= i < old(self).modules@.len() ==> final(self).modules@[i] == old(
                                self,
                            ).modules@[i]
                        &&& added.path@ == path@
                        &&& added.source@ == source@
                        &&& forest_of(
                            final(self).ast@,
                            added.module.body@,
                            final(self).ast@.len() as int,
                            0,
                        ) == Some(forest)
                        &&& added.scope.root == ScopeRoot::Module
                        &&& module_of(&added.scope) == Some(path@)
                        &&& added.scope.nodes@ == subnodes(
                            final(self).ast@,
                            added.module.body@,
                            final(self).ast@.len() as int,
                        )
                    },
                },
            },
    {
        match self.module_index(&path) {
            Some(index) => {
                return Ok(index);
            },
            None => {},
        }
        let module = match parse(stream, &mut self.ast) {
            Ok(module) => module,
            Err(e) => {
                return Err(e);
            },
        };
        let index = self.modules.len();
        let _ = self.register_module(module, path, source);
        Ok(index)
    }

    /// Gives the function at the place `at` among the checked functions a
    /// value in the object graph, so that code can refer to it: a function
    /// value that carries the name of the function and nothing else, with
    /// the type of the function recorded for it. The group of the name and
    /// the node of the value come back.
    ///
    /// `None`, and nothing changes, where there is no such function, the
    /// interner does not know its name, or the graph is full.
    pub fn function_value(&mut self, at: usize) -> (global: Option<(usize, ObjectGraphIndex)>)
        requires
            old(self).wf(),
        ensures
            final(self).wf(),
            final(self).ast@ == old(self).ast@,
            final(self).modules@ == old(self).modules@,
            final(self).functions@ == old(self).functions@,
            final(self).type_map@ == old(self).type_map@,
            final(self).builtins == old(self).builtins,
            final(self).interner == old(self).interner,
            final(self).store.graph.strings() == old(self).store.graph.strings(),
            final(self).store.graph.allocs() == old(self).store.graph.allocs(),
            final(self).store.class_nodes() == old(self).store.class_nodes(),
            ({
                let named = if at < old(self).functions@.len() && old(self).functions@[at as int].def
                    < old(self).ast@.len() {
                    match old(self).ast@[old(self).functions@[at as int].def as int].inner {
                        AstNode::FuncDef(f) => if old(self).interner.knows(f.name) {
                            Some(f.name)
                        } else {
                            None
                        },
                        _ => None,
                    }
                } else {
                    None
                };
                match global {
                    Some((group, node)) => {
                        &&& named.is_some()
                        &&& named.unwrap().spec_group() == group
                        &&& plain_function(
                            final(self).store.graph.nodes().last(),
                            old(self).interner.text_of(named.unwrap()),
                        )
                        &&& old(self).store.graph.has_room()
                        &&& node == old(self).store.graph.nodes().len()
                        &&& final(self).store.graph.nodes().len() == node + 1
                        &&& final(self).store.graph.nodes().subrange(0, node as int) == old(
                            self,
                        ).store.graph.nodes()
                        &&& final(self).store.value_types() == old(self).store.value_types().insert(
                            node,
                            old(self).functions@[at as int].kind as u64,
                        )
                    },
                    None => {
                        &&& named.is_none() || !old(self).store.graph.has_room()
                        &&& final(self).store.graph.nodes() == old(self).store.graph.nodes()
                        &&& final(self).store.value_types() == old(self).store.value_types()
                    },
                }
            }),
    {
        if at >= self.functions.len() {
            return None;
        }
        let kind = self.functions[at].kind;
        let name = match self.ast.get(self.functions[at].def) {
            Some(spanned) => match &spanned.inner {
                AstNode::FuncDef(f) => f.name,
                _ => {
                    return None;
                },
            },
            None => {
                return None;
            },
        };
        let text = match self.interner.resolve_ref(name) {
            Some(text) => copy_text(text),
            None => {
                return None;
            },
        };
        if !self.store.graph.can_grow() {
            return None;
        }
        let ghost before = self.store.graph.nodes();
        let node = self.store.graph.add_node(
            Value::Function {
                name: text,
                properties: PyDictRaw::new(),
                annotations: PyDictRaw::new(),
                defsite: None,
                parent: None,
            },
        );
        self.store.set_type(node, kind);
        assert(self.store.graph.nodes().subrange(0, node as int) =~= before);
        Some((name.group(), node))
    }

    /// The functions that the top level of the module at `index` defines,
    /// in source order.
    pub fn walk(&self, index: usize) -> (definitions: Vec<NodeId>)
        requires
            index < self.modules@.len(),
        ensures
            definitions@ == function_definitions(
                self.ast@,
                self.modules@[index as int].module.body@,
                self.modules@[index as int].module.body@.len() as int,
            ),
    {
        let body = &self.modules[index].module.body;
        let mut definitions: Vec<NodeId> = Vec::new();
        let mut i: usize = 0;
        while i < body.len()
            invariant
                i <= body@.len(),
                definitions@ == function_definitions(self.ast@, body@, i as int),
            decreases body@.len() - i,
        {
            let is_definition = match self.ast.get(body[i]) {
                Some(spanned) => match &spanned.inner {
                    AstNode::FuncDef(_) => true,
                    _ => false,
                },
                None => false,
            };
            if is_definition {
                definitions.push(body[i]);
            }
            i += 1;
        }
        definitions
    }

    /// Declares the function that the node `def` of the module at `index`
    /// defines, and checks its body.
    ///
    /// The annotations of the signature are evaluated at the place of the
    /// definition in the scope of the module. The type of the function is
    /// interned and entered into the declarations, under the node and, for
    /// the module, under the name of the function, so that the body and
    /// every function of the module that is checked later can call it. Then the body is checked, and
    /// the function is kept in the list of functions, whether its body
    /// passes or not. The rib of the function and the types of the nodes of
    /// its scope come back.
    ///
    /// A node that is not a function definition is refused, and nothing
    /// changes.
    pub fn check_function(&mut self, index: usize, def: NodeId) -> (result: Result<
        (Ribs, Vec<Option<LocalTypeId>>),
        MontyError,
    >)
        requires
            old(self).wf(),
            index < old(self).modules@.len(),
        ensures
            final(self).wf(),
            final(self).ast@ == old(self).ast@,
            final(self).modules@ == old(self).modules@,
            final(self).builtins == old(self).builtins,
            final(self).store == old(self).store,
            final(self).interner == old(self).interner,
            !(def < old(self).ast@.len() && old(self).ast@[def as int].inner is FuncDef) ==> {
                &&& result == Err::<(Ribs, Vec<Option<LocalTypeId>>), MontyError>(
                    MontyError::InferenceFailure,
                )
                &&& final(self).type_map@ == old(self).type_map@
                &&& final(self).declarations@ == old(self).declarations@
                    && final(self).declarations.names() == old(self).declarations.names()
                &&& final(self).functions@ == old(self).functions@
            },
            def < old(self).ast@.len() && old(self).ast@[def as int].inner is FuncDef ==> ({
                let node = old(self).ast@[def as int].inner;
                let scope = &old(self).modules@[index as int].scope;
                let parts = signature_parts(node);
                let outer = TypeEvalContext {
                    ast: &old(self).ast,
                    scope,
                    builtins: &old(self).builtins,
                    declarations: &old(self).declarations,
                    store: &old(self).store,
                    interner: &old(self).interner,
                    expected_return_value: TypeMap::NONE_TYPE,
                    function: None,
                };
                let (ts, declared) = types_of_nodes(
                    outer,
                    parts,
                    def,
                    position_from(scope.nodes@, def, 0),
                    TypeState { types: old(self).type_map@, ribs: Map::empty() },
                    parts.len() as int,
                );
                match ts {
                    Err(e) => {
                        &&& result == Err::<(Ribs, Vec<Option<LocalTypeId>>), MontyError>(e)
                        &&& final(self).type_map@ == declared.types
                        &&& final(self).declarations@ == old(self).declarations@
                    && final(self).declarations.names() == old(self).declarations.names()
                        &&& final(self).functions@ == old(self).functions@
                    },
                    Ok(types) => {
                        let signature = signature_from(node, types);
                        let (kind, interned) = TypeMap::interned(
                            declared.types,
                            TypeShape::Function(signature),
                        );
                        let function = final(self).functions@.last();
                        let inner = TypeEvalContext {
                            ast: &old(self).ast,
                            scope: &function.scope.inner,
                            builtins: &old(self).builtins,
                            declarations: &final(self).declarations,
                            store: &old(self).store,
                            interner: &old(self).interner,
                            expected_return_value: signature.ret,
                            function: Some(def),
                        };
                        let bound = bound_parameters(
                            Map::<usize, RibEntry>::empty(),
                            function.params@,
                            old(self).ast@[def as int].span,
                            function.params@.len() as int,
                        );
                        let (checked, after) = function_result(
                            inner,
                            TypeState { types: interned, ribs: bound },
                        );
                        &&& final(self).declarations@ == declared_with(
                            old(self).declarations@,
                            def,
                            kind as usize,
                        )
                        &&& final(self).declarations.names() == match module_of(scope) {
                            Some(module) => old(self).declarations.names().push(
                                NamedView {
                                    module,
                                    name: node->FuncDef_0.name,
                                    type_id: kind as usize,
                                    def,
                                },
                            ),
                            None => old(self).declarations.names(),
                        }
                        &&& module_of(&function.scope.inner) == module_of(scope)
                        &&& final(self).functions@.len() == old(self).functions@.len() + 1
                        &&& final(self).functions@.subrange(0, old(self).functions@.len() as int)
                            == old(self).functions@
                        &&& function.def == def
                        &&& function.kind == kind
                        &&& function.ret == signature.ret
                        &&& function.params@ == parameters_from(node->FuncDef_0.args@, types)
                        &&& function.scope.inner.root == ScopeRoot::Func(def)
                        &&& function.scope.inner.nodes@ == subnodes(
                            old(self).ast@,
                            node->FuncDef_0.body@,
                            def as int,
                        )
                        &&& final(self).type_map@ == after.types
                        &&& match result {
                            Ok((ribs, found)) => checked == Ok::<
                                Seq<Option<LocalTypeId>>,
                                MontyError,
                            >(found@) && ribs.wf() && ribs@ == after.ribs && found@.len()
                                == function.scope.inner.nodes@.len(),
                            Err(e) => checked == Err::<Seq<Option<LocalTypeId>>, MontyError>(e),
                        }
                    },
                }
            }),
    {
        let limit = self.modules[index].scope.position_of(def);
        let mut annotations = Ribs::new();
        let cx = TypeEvalContext {
            ast: &self.ast,
            scope: &self.modules[index].scope,
            builtins: &self.builtins,
            declarations: &self.declarations,
            store: &self.store,
            interner: &self.interner,
            expected_return_value: TypeMap::NONE_TYPE,
            function: None,
        };
        let function = match Function::declare(
            &cx,
            def,
            limit,
            &mut self.type_map,
            &mut annotations,
        ) {
            Ok(f) => f,
            Err(e) => {
                return Err(e);
            },
        };
        let name = match self.ast.get(def) {
            Some(spanned) => match &spanned.inner {
                AstNode::FuncDef(f) => Some(f.name),
                _ => None,
            },
            None => None,
        };
        match (&self.modules[index].scope.module_ref, name) {
            (Some(module), Some(name)) => {
                self.declarations.declare_function(module.duplicate(), name, def, function.kind);
            },
            _ => {
                self.declarations.declare(def, function.kind);
            },
        }
        let result = function.typecheck(
            &self.ast,
            &self.builtins,
            &self.declarations,
            &self.store,
            &self.interner,
            &mut self.type_map,
        );
        self.functions.push(function);
        assert(self.functions@.subrange(0, old(self).functions@.len() as int) =~= old(
            self,
        ).functions@);
        result
    }
}

/// Whether the node `sum` is `a + b` for two names that the rib binds to
/// the integers.
pub open spec fn sum_of_integers(cx: TypeEvalContext, sum: NodeId, state: TypeState) -> bool {
    &&& sum < cx.ast@.len()
    &&& cx.ast@[sum as int].inner matches AstNode::BinOp { left, op, right } && {
        &&& op == InfixOp::Add
        &&& left < sum && right < sum
        &&& cx.ast@[left as int].inner matches AstNode::Name(a) && state.ribs.contains_key(
            a.spec_group(),
        ) && state.ribs[a.spec_group()].type_id == TypeMap::INTEGER
        &&& cx.ast@[right as int].inner matches AstNode::Name(b) && state.ribs.contains_key(
            b.spec_group(),
        ) && state.ribs[b.spec_group()].type_id == TypeMap::INTEGER
    }
}

/// The sum of two names that are bound to integers is an integer wherever
/// the class of the integers implements addition, as it does once the
/// builtin classes are preloaded. The type is the return type that
/// `__add__` declares; nothing is added to the types or to the rib.
pub proof fn lemma_sum_of_integers(cx: TypeEvalContext, sum: NodeId, limit: int, state: TypeState)
    requires
        sum_of_integers(cx, sum, state),
        0 <= limit <= cx.scope.nodes@.len(),
        method_ready(
            cx.store,
            cx.interner,
            state.types,
            TypeMap::INTEGER,
            InfixOp::Add,
            TypeMap::INTEGER,
            TypeMap::INTEGER,
        ),
    ensures
        type_of_node(cx, sum, limit, state) == (
            Ok::<Option<LocalTypeId>, MontyError>(Some(TypeMap::INTEGER)),
            state,
        ),
{
    let parts = operands(cx.ast@[sum as int].inner);
    assert(parts.len() == 2);
    assert(types_of_nodes(cx, parts, sum, limit, state, 0) == (
        Ok::<Seq<LocalTypeId>, MontyError>(Seq::empty()),
        state,
    ));
    let whole = TypeMap::INTEGER;
    let left = cx.ast@[sum as int].inner->BinOp_left;
    let right = cx.ast@[sum as int].inner->BinOp_right;
    assert(parts =~= seq![left, right]);
    assert(type_of_node(cx, left, limit, state) == (
        Ok::<Option<LocalTypeId>, MontyError>(Some(whole)),
        state,
    ));
    assert(type_of_node(cx, right, limit, state) == (
        Ok::<Option<LocalTypeId>, MontyError>(Some(whole)),
        state,
    ));
    assert(types_of_nodes(cx, parts, sum, limit, state, 1) == (
        Ok::<Seq<LocalTypeId>, MontyError>(Seq::<LocalTypeId>::empty().push(whole)),
        state,
    ));
    assert(types_of_nodes(cx, parts, sum, limit, state, 2) == (
        Ok::<Seq<LocalTypeId>, MontyError>(Seq::<LocalTypeId>::empty().push(whole).push(whole)),
        state,
    ));
}

/// A function that takes two integers and returns their sum passes the
/// check. Its scope holds the `return`, the sum and the two names, in that
/// order; the names are bound to integers, as the parameters of the
/// function are; the function declares to return an integer; and the class
/// of the integers implements addition. Then no error is reported: the
/// sum and the names are integers, the `return` has no type, and nothing
/// is added to the types or to the rib.
pub proof fn lemma_sum_is_returned(cx: TypeEvalContext, state: TypeState)
    requires
        cx.scope.nodes@.len() == 4,
        cx.expected_return_value == TypeMap::INTEGER,
        ({
            let ret = cx.scope.nodes@[0];
            let sum = cx.scope.nodes@[1];
            &&& ret < cx.ast@.len()
            &&& cx.ast@[ret as int].inner matches AstNode::Ret(r) && r.value == Some(sum) && sum
                < ret
            &&& sum_of_integers(cx, sum, state)
            &&& cx.ast@[sum as int].inner matches AstNode::BinOp { left, op, right }
                && cx.scope.nodes@[2] == left && cx.scope.nodes@[3] == right
        }),
        method_ready(
            cx.store,
            cx.interner,
            state.types,
            TypeMap::INTEGER,
            InfixOp::Add,
            TypeMap::INTEGER,
            TypeMap::INTEGER,
        ),
    ensures
        function_result(cx, state) == (
            Ok::<Seq<Option<LocalTypeId>>, MontyError>(
                seq![
                    None,
                    Some(TypeMap::INTEGER),
                    Some(TypeMap::INTEGER),
                    Some(TypeMap::INTEGER),
                ],
            ),
            state,
        ),
{
    let nodes = cx.scope.nodes@;
    let ret = nodes[0];
    let sum = nodes[1];
    let typed = Some(TypeMap::INTEGER);
    lemma_sum_of_integers(cx, sum, 0, state);
    lemma_sum_of_integers(cx, sum, 1, state);
    let parts = operands(cx.ast@[ret as int].inner);
    assert(parts =~= seq![sum]);
    assert(types_of_nodes(cx, parts, ret, 0, state, 0) == (
        Ok::<Seq<LocalTypeId>, MontyError>(Seq::empty()),
        state,
    ));
    assert(types_of_nodes(cx, parts, ret, 0, state, 1) == (
        Ok::<Seq<LocalTypeId>, MontyError>(Seq::<LocalTypeId>::empty().push(TypeMap::INTEGER)),
        state,
    ));
    assert(type_of_node(cx, ret, 0, state) == (Ok::<Option<LocalTypeId>, MontyError>(None), state));
    let none: Seq<Option<LocalTypeId>> = Seq::empty();
    assert(checked_upto(cx, state, 0) == (
        Ok::<Seq<Option<LocalTypeId>>, MontyError>(none),
        state,
    ));
    assert(checked_upto(cx, state, 1) == (
        Ok::<Seq<Option<LocalTypeId>>, MontyError>(none.push(None)),
        state,
    ));
    assert(checked_upto(cx, state, 2) == (
        Ok::<Seq<Option<LocalTypeId>>, MontyError>(none.push(None).push(typed)),
        state,
    ));
    assert(type_of_node(cx, nodes[2], 2, state) == (Ok::<Option<LocalTypeId>, MontyError>(typed), state));
    assert(checked_upto(cx, state, 3) == (
        Ok::<Seq<Option<LocalTypeId>>, MontyError>(none.push(None).push(typed).push(typed)),
        state,
    ));
    assert(type_of_node(cx, nodes[3], 3, state) == (Ok::<Option<LocalTypeId>, MontyError>(typed), state));
    assert(checked_upto(cx, state, 4) == (
        Ok::<Seq<Option<LocalTypeId>>, MontyError>(none.push(None).push(typed).push(typed).push(typed)),
        state,
    ));
    assert(none.push(None).push(typed).push(typed).push(typed) =~= seq![None, typed, typed, typed]);
    assert(has_return(cx.ast@, nodes, 1));
    assert(has_return(cx.ast@, nodes, 2));
    assert(has_return(cx.ast@, nodes, 3));
    assert(has_return(cx.ast@, nodes, 4));
}

} // verus!
