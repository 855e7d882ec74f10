//! The state of one compilation and how it is set up: the registry of
//! modules and the builtin classes.

use crate::ast::{Ast, AstNode, ClassDef, Module, NodeId, Spanned};
use crate::class::{names_once, Class};
use crate::context::ModuleRef;
use crate::error::MontyError;
use crate::func::Function;
use crate::interpreter::dict::{IdPair, PyDictRaw};
use crate::interpreter::object_graph::Value;
use crate::interpreter::value_store::ValueStore;
use crate::ribs::Ribs;
use crate::scope::{
    subnodes, types_once, with_builtin, with_builtins, Builtin, Builtins, LocalScope, OpaqueScope,
    ScopeRoot,
};
use crate::span::{bytes_eq, Span, SpanInterner, SpanRef};
use crate::typechk::{
    check_function, dunder_name, dunder_of, function_result, operator_method, Declarations,
    TypeEvalContext, TypeState,
};
use crate::ast::InfixOp;
use crate::typing::{FunctionSig, FunctionType, LocalTypeId, TypeDescriptor, TypeMap, TypeShape};
use vstd::prelude::*;

verus! {

/// What is known of one module.
pub struct ModuleContext {
    pub path: ModuleRef,
    pub module: Module,
    pub scope: OpaqueScope,
    pub source: Vec<u8>,
}

/// Why the builtin classes could not be set up. These are faults of the
/// installation, not of the program under compilation.
#[derive(Clone, Copy, Debug, PartialEq, Eq, Structural)]
pub enum BootstrapError {
    /// A class carries more than one decorator.
    MultipleDecorators { class: NodeId },
    /// A class carries a decorator other than the one that marks a class
    /// as provided by the compiler.
    UnsupportedDecorator { class: NodeId },
    /// A class that is marked as provided by the compiler has a name that
    /// the compiler does not know.
    UnknownBuiltin { class: NodeId },
    /// The object graph cannot hold more values.
    GraphFull,
}

/// The state of one compilation.
pub struct GlobalContext {
    pub ast: Ast,
    pub modules: Vec<ModuleContext>,
    pub functions: Vec<Function>,
    pub interner: SpanInterner,
    pub type_map: TypeMap,
    pub builtins: Builtins,
    pub classes: Vec<Class>,
    pub store: ValueStore,
    pub declarations: Declarations,
    pub libstd: Vec<u8>,
}

/// The name of the decorator that marks a class as provided by the
/// compiler.
pub open spec fn provided_marker() -> Seq<u8> {
    seq![101u8, 120u8, 116u8, 101u8, 114u8, 110u8]
}

/// The builtin type that a class name stands for: `int`, `float`, `str`
/// and `bool` are known.
pub open spec fn builtin_named(name: Seq<u8>) -> Option<LocalTypeId> {
    if name == seq![105u8, 110u8, 116u8] {
        Some(TypeMap::INTEGER)
    } else if name == seq![102u8, 108u8, 111u8, 97u8, 116u8] {
        Some(TypeMap::FLOAT)
    } else if name == seq![115u8, 116u8, 114u8] {
        Some(TypeMap::STRING)
    } else if name == seq![98u8, 111u8, 111u8, 108u8] {
        Some(TypeMap::BOOL)
    } else {
        None
    }
}

/// The text of a ref, if the interner knows the ref.
pub open spec fn text_if_known(interner: &SpanInterner, sref: SpanRef) -> Option<Seq<u8>> {
    if interner.knows(sref) {
        Some(interner.text_of(sref))
    } else {
        None
    }
}

/// What the class at `node` is to the compiler: nothing special if it has
/// no decorator; a builtin type if its one decorator is the marker and its
/// name is known; a fault otherwise.
pub open spec fn classified(
    ast: Seq<Spanned<AstNode>>,
    interner: &SpanInterner,
    node: NodeId,
    class: ClassDef,
) -> Result<Option<LocalTypeId>, BootstrapError> {
    if class.decorator_list@.len() == 0 {
        Ok(None)
    } else if class.decorator_list@.len() > 1 {
        Err(BootstrapError::MultipleDecorators { class: node })
    } else {
        let decorator = class.decorator_list@[0];
        let marked = decorator < ast.len() && (ast[decorator as int].inner matches AstNode::Name(n)
            && text_if_known(interner, n) == Some(provided_marker()));
        if !marked {
            Err(BootstrapError::UnsupportedDecorator { class: node })
        } else {
            match text_if_known(interner, class.name) {
                Some(name) => match builtin_named(name) {
                    Some(t) => Ok(Some(t)),
                    None => Err(BootstrapError::UnknownBuiltin { class: node }),
                },
                None => Err(BootstrapError::UnknownBuiltin { class: node }),
            }
        }
    }
}

/// The builtin classes among the first `n` of `nodes`, in order, or the
/// first fault.
pub open spec fn provided_classes(
    ast: Seq<Spanned<AstNode>>,
    interner: &SpanInterner,
    nodes: Seq<NodeId>,
    n: int,
) -> Result<Seq<Builtin>, BootstrapError>
    decreases n,
{
    if n <= 0 {
        Ok(Seq::empty())
    } else {
        match provided_classes(ast, interner, nodes, n - 1) {
            Err(e) => Err(e),
            Ok(found) => {
                let node = nodes[n - 1];
                if node < ast.len() {
                    match ast[node as int].inner {
                        AstNode::ClassDef(c) => match classified(ast, interner, node, c) {
                            Err(e) => Err(e),
                            Ok(Some(t)) => Ok(
                                found.push(Builtin { type_id: t, name: c.name, class: node }),
                            ),
                            Ok(None) => Ok(found),
                        },
                        _ => Ok(found),
                    }
                } else {
                    Ok(found)
                }
            },
        }
    }
}

/// The imports among the first `n` of `nodes`, in order.
pub open spec fn import_nodes(ast: Seq<Spanned<AstNode>>, nodes: Seq<NodeId>, n: int) -> Seq<NodeId>
    decreases n,
{
    if n <= 0 {
        Seq::empty()
    } else if nodes[n - 1] < ast.len() && ast[nodes[n - 1] as int].inner is Import {
        import_nodes(ast, nodes, n - 1).push(nodes[n - 1])
    } else {
        import_nodes(ast, nodes, n - 1)
    }
}

proof fn lemma_provided_classes_fail(
    ast: Seq<Spanned<AstNode>>,
    interner: &SpanInterner,
    nodes: Seq<NodeId>,
    at: int,
    n: int,
)
    requires
        0 < at <= n,
        provided_classes(ast, interner, nodes, at).is_err(),
    ensures
        provided_classes(ast, interner, nodes, n) == provided_classes(ast, interner, nodes, at),
    decreases n - at,
{
    if at < n {
        lemma_provided_classes_fail(ast, interner, nodes, at, n - 1);
    }
}

fn known_text<'a>(interner: &'a SpanInterner, sref: SpanRef) -> (text: Option<&'a [u8]>)
    requires
        interner.wf(),
    ensures
        match text {
            Some(t) => text_if_known(interner, sref) == Some(t@),
            None => text_if_known(interner, sref).is_none(),
        },
{
    interner.resolve_ref(sref)
}

fn builtin_for(name: &[u8]) -> (t: Option<LocalTypeId>)
    ensures
        t == builtin_named(name@),
{
    let int_name: [u8; 3] = [105u8, 110u8, 116u8];
    let float_name: [u8; 5] = [102u8, 108u8, 111u8, 97u8, 116u8];
    let str_name: [u8; 3] = [115u8, 116u8, 114u8];
    let bool_name: [u8; 4] = [98u8, 111u8, 111u8, 108u8];
    assert(int_name@ =~= seq![105u8, 110u8, 116u8]);
    assert(float_name@ =~= seq![102u8, 108u8, 111u8, 97u8, 116u8]);
    assert(str_name@ =~= seq![115u8, 116u8, 114u8]);
    assert(bool_name@ =~= seq![98u8, 111u8, 111u8, 108u8]);
    if bytes_eq(name, int_name.as_slice()) {
        Some(TypeMap::INTEGER)
    } else if bytes_eq(name, float_name.as_slice()) {
        Some(TypeMap::FLOAT)
    } else if bytes_eq(name, str_name.as_slice()) {
        Some(TypeMap::STRING)
    } else if bytes_eq(name, bool_name.as_slice()) {
        Some(TypeMap::BOOL)
    } else {
        None
    }
}

/// Says what the class at `node` is to the compiler.
pub fn classify(ast: &Ast, interner: &SpanInterner, node: NodeId, class: &ClassDef) -> (result:
    Result<Option<LocalTypeId>, BootstrapError>)
    requires
        interner.wf(),
    ensures
        result == classified(ast@, interner, node, *class),
{
    if class.decorator_list.len() == 0 {
        return Ok(None);
    }
    if class.decorator_list.len() > 1 {
        return Err(BootstrapError::MultipleDecorators { class: node });
    }
    let marker: [u8; 6] = [101u8, 120u8, 116u8, 101u8, 114u8, 110u8];
    assert(marker@ =~= provided_marker());
    let marked = match ast.get(class.decorator_list[0]) {
        Some(spanned) => match &spanned.inner {
            AstNode::Name(n) => match known_text(interner, *n) {
                Some(text) => bytes_eq(text, marker.as_slice()),
                None => false,
            },
            _ => false,
        },
        None => false,
    };
    if !marked {
        return Err(BootstrapError::UnsupportedDecorator { class: node });
    }
    match known_text(interner, class.name) {
        Some(name) => match builtin_for(name) {
            Some(t) => Ok(Some(t)),
            None => Err(BootstrapError::UnknownBuiltin { class: node }),
        },
        None => Err(BootstrapError::UnknownBuiltin { class: node }),
    }
}

/// Finds the builtin classes and the imports among the nodes of a scope.
pub fn survey(ast: &Ast, interner: &SpanInterner, nodes: &Vec<NodeId>) -> (result: Result<
    (Vec<Builtin>, Vec<NodeId>),
    BootstrapError,
>)
    requires
        interner.wf(),
    ensures
        match result {
            Ok((classes, imports)) => provided_classes(
                ast@,
                interner,
                nodes@,
                nodes@.len() as int,
            ) == Ok::<Seq<Builtin>, BootstrapError>(classes@) && imports@ == import_nodes(
                ast@,
                nodes@,
                nodes@.len() as int,
            ),
            Err(e) => provided_classes(ast@, interner, nodes@, nodes@.len() as int) == Err::<
                Seq<Builtin>,
                BootstrapError,
            >(e),
        },
{
    let mut classes: Vec<Builtin> = Vec::new();
    let mut imports: Vec<NodeId> = Vec::new();
    let mut i: usize = 0;
    while i < nodes.len()
        invariant
            interner.wf(),
            i <= nodes@.len(),
            provided_classes(ast@, interner, nodes@, i as int) == Ok::<
                Seq<Builtin>,
                BootstrapError,
            >(classes@),
            imports@ == import_nodes(ast@, nodes@, i as int),
        decreases nodes@.len() - i,
    {
        let node = nodes[i];
        match ast.get(node) {
            Some(spanned) => match &spanned.inner {
                AstNode::ClassDef(c) => match classify(ast, interner, node, c) {
                    Ok(Some(t)) => {
                        classes.push(Builtin { type_id: t, name: c.name, class: node });
                    },
                    Ok(None) => {},
                    Err(e) => {
                        proof {
                            lemma_provided_classes_fail(
                                ast@,
                                interner,
                                nodes@,
                                i as int + 1,
                                nodes@.len() as int,
                            );
                        }
                        return Err(e);
                    },
                },
                AstNode::Import(_) => {
                    imports.push(node);
                },
                _ => {},
            },
            None => {},
        }
        i += 1;
    }
    Ok((classes, imports))
}

/// Whether the class of the type `class_type` implements `op` for an
/// argument of type `arg` with a result of type `ret`: the class holds a
/// function value under the operator's method name, and the type recorded
/// for that value is the signature of such a method.
pub open spec fn method_ready(
    store: &ValueStore,
    interner: &SpanInterner,
    types: Seq<TypeShape>,
    class_type: LocalTypeId,
    op: InfixOp,
    arg: LocalTypeId,
    ret: LocalTypeId,
) -> bool {
    match (operator_method(store, interner, class_type, op), interner.group_of(dunder_name(op))) {
        (Some(m), Some(g)) => match store.spec_type_of(m) {
            Some(t) => t < types.len() && types[t as int] == TypeShape::Function(
                FunctionSig { name: g, reciever: Some(class_type), args: seq![arg], ret },
            ),
            None => false,
        },
        _ => false,
    }
}

/// Whether the attributes `properties` of a class of the type `reciever`
/// implement `op` for an argument of type `arg` with a result of type
/// `ret`: a function value stands under the operator's method name, and the
/// type recorded for that value is the signature of such a method.
pub open spec fn member_ready(
    footing: (&ValueStore, &SpanInterner, Seq<TypeShape>),
    properties: Map<u64, IdPair>,
    reciever: LocalTypeId,
    op: InfixOp,
    arg: LocalTypeId,
    ret: LocalTypeId,
) -> bool {
    let nodes = footing.0.graph.nodes();
    match footing.1.group_of(dunder_name(op)) {
        Some(g) => properties.contains_key(g as u64) && {
            let m = properties[g as u64].1;
            &&& m < nodes.len()
            &&& nodes[m as int] is Function
            &&& match footing.0.spec_type_of(m) {
                Some(t) => t < footing.2.len() && footing.2[t as int] == TypeShape::Function(
                    FunctionSig { name: g, reciever: Some(reciever), args: seq![arg], ret },
                ),
                None => false,
            }
        },
        None => false,
    }
}

/// The compilation state has only grown: the texts, the types and the
/// values that were there are still there, and the types recorded for the
/// values that were there are the same.
pub open spec fn grown(
    before: (&ValueStore, &SpanInterner, Seq<TypeShape>),
    after: (&ValueStore, &SpanInterner, Seq<TypeShape>),
) -> bool {
    &&& before.1.wf() && after.1.wf()
    &&& before.0.graph.wf() && after.0.graph.wf()
    &&& before.1.texts().is_prefix_of(after.1.texts())
    &&& before.2.is_prefix_of(after.2)
    &&& before.0.graph.nodes().is_prefix_of(after.0.graph.nodes())
    &&& forall|node: u64|
        node < before.0.graph.nodes().len() ==> after.0.spec_type_of(node)
            == before.0.spec_type_of(node)
}

/// What has to stay for an implemented operator to stay implemented: the
/// state has only grown, and the class of the type is the same.
pub open spec fn grown_from(
    before: (&ValueStore, &SpanInterner, Seq<TypeShape>),
    after: (&ValueStore, &SpanInterner, Seq<TypeShape>),
    class_type: LocalTypeId,
) -> bool {
    &&& grown(before, after)
    &&& after.0.spec_class_of(class_type) == before.0.spec_class_of(class_type)
}

/// An attribute that implements an operator keeps doing so while the state
/// only grows and the attribute stays.
pub proof fn lemma_member_ready_stable(
    before: (&ValueStore, &SpanInterner, Seq<TypeShape>),
    after: (&ValueStore, &SpanInterner, Seq<TypeShape>),
    properties: Map<u64, IdPair>,
    kept: Map<u64, IdPair>,
    reciever: LocalTypeId,
    op: InfixOp,
    arg: LocalTypeId,
    ret: LocalTypeId,
)
    requires
        grown(before, after),
        member_ready(before, properties, reciever, op, arg, ret),
        ({
            let g = before.1.group_of(dunder_name(op)).unwrap() as u64;
            kept.contains_key(g) && kept[g] == properties[g]
        }),
    ensures
        member_ready(after, kept, reciever, op, arg, ret),
{
    crate::span::lemma_group_stable(*before.1, *after.1, dunder_name(op));
    let g = before.1.group_of(dunder_name(op)).unwrap();
    let m = properties[g as u64].1;
    assert(after.0.graph.nodes()[m as int] == before.0.graph.nodes()[m as int]);
    let t = before.0.spec_type_of(m).unwrap();
    assert(after.2[t as int] == before.2[t as int]);
}

/// An operator that a class implements stays implemented while the
/// compilation state only grows around the class.
pub proof fn lemma_method_ready_stable(
    before: (&ValueStore, &SpanInterner, Seq<TypeShape>),
    after: (&ValueStore, &SpanInterner, Seq<TypeShape>),
    class_type: LocalTypeId,
    op: InfixOp,
    arg: LocalTypeId,
    ret: LocalTypeId,
)
    requires
        grown_from(before, after, class_type),
        method_ready(before.0, before.1, before.2, class_type, op, arg, ret),
    ensures
        method_ready(after.0, after.1, after.2, class_type, op, arg, ret),
{
    crate::span::lemma_group_stable(*before.1, *after.1, dunder_name(op));
    let m = operator_method(before.0, before.1, class_type, op).unwrap();
    let class = before.0.spec_class_of(class_type).unwrap();
    assert(after.0.graph.nodes()[class as int] == before.0.graph.nodes()[class as int]);
    assert(after.0.graph.nodes()[m as int] == before.0.graph.nodes()[m as int]);
    let t = before.0.spec_type_of(m).unwrap();
    assert(after.2[t as int] == before.2[t as int]);
}

/// Where the class value of a type holds attributes that implement an
/// operator, the class implements the operator.
pub proof fn lemma_class_ready(
    footing: (&ValueStore, &SpanInterner, Seq<TypeShape>),
    class_type: LocalTypeId,
    properties: Map<u64, IdPair>,
    op: InfixOp,
    arg: LocalTypeId,
    ret: LocalTypeId,
)
    requires
        member_ready(footing, properties, class_type, op, arg, ret),
        footing.0.spec_class_of(class_type).is_some(),
        footing.0.spec_class_of(class_type).unwrap() < footing.0.graph.nodes().len(),
        footing.0.graph.nodes()[footing.0.spec_class_of(class_type).unwrap() as int] matches Value::Class {
            name,
            properties: held,
        } && held@ == properties,
    ensures
        method_ready(footing.0, footing.1, footing.2, class_type, op, arg, ret),
{
}

impl GlobalContext {
    /// The parts of the state are well formed.
    pub open spec fn wf(&self) -> bool {
        &&& self.ast.wf()
        &&& self.interner.wf()
        &&& self.type_map.wf()
        &&& self.store.graph.wf()
        &&& Self::registered_once(self.modules@)
        &&& types_once(self.builtins.entries@)
        &&& forall|i: int| 0 <= i < self.classes@.len() ==> (#[trigger] self.classes@[i]).wf()
    }

    /// No path is registered twice: the registry is a map from the key of
    /// a module to what is known of it.
    pub open spec fn registered_once(modules: Seq<ModuleContext>) -> bool {
        forall|i: int, j: int| 0 <= i < j < modules.len() ==> modules[i].path@ != modules[j].path@
    }

    /// The state before anything is read: no node, no module, no function,
    /// no class and no declaration; the interner holds no text; the type
    /// universe holds the builtin types and nothing else; no builtin class
    /// is installed; the object graph is empty, no value has a type and no
    /// type has a class; the path of the standard library is empty.
    pub fn new() -> (ctx: Self)
        ensures
            ctx.wf(),
            ctx.ast@.len() == 0,
            ctx.modules@.len() == 0,
            ctx.functions@.len() == 0,
            ctx.classes@.len() == 0,
            ctx.declarations@ == Map::<u64, u64>::empty(),
            ctx.declarations.names().len() == 0,
            ctx.interner.texts().len() == 0,
            ctx.interner.occurrences().len() == 0,
            ctx.type_map@ == TypeMap::builtins(),
            ctx.builtins.entries@.len() == 0,
            ctx.builtins.mref.is_none(),
            ctx.store.graph.nodes().len() == 0,
            ctx.store.graph.strings() == Map::<u64, u64>::empty(),
            ctx.store.graph.allocs() == Map::<u64, u64>::empty(),
            ctx.store.value_types() == Map::<u64, u64>::empty(),
            ctx.store.class_nodes() == Map::<u64, u64>::empty(),
            ctx.libstd@.len() == 0,
    {
        GlobalContext {
            ast: Ast::new(),
            modules: Vec::new(),
            functions: Vec::new(),
            interner: SpanInterner::new(),
            type_map: TypeMap::new(),
            builtins: Builtins { entries: Vec::new(), mref: None },
            classes: Vec::new(),
            store: ValueStore::new(),
            declarations: Declarations::new(),
            libstd: Vec::new(),
        }
    }

    /// The place of the module with the key `mref` in the registry: that of
    /// the first module, from the place `from` on, with that key.
    pub open spec fn registered_at(modules: Seq<ModuleContext>, mref: Seq<char>, from: int) -> Option<
        int,
    >
        decreases modules.len() - from,
    {
        if from < 0 || from >= modules.len() {
            None
        } else if modules[from].path@ == mref {
            Some(from)
        } else {
            Self::registered_at(modules, mref, from + 1)
        }
    }

    /// The place of the module with the key `mref` in the registry.
    pub fn module_index(&self, mref: &ModuleRef) -> (index: Option<usize>)
        ensures
            match index {
                Some(i) => Self::registered_at(self.modules@, mref@, 0) == Some(i as int) && i
                    < self.modules@.len(),
                None => Self::registered_at(self.modules@, mref@, 0).is_none(),
            },
    {
        let mut i: usize = 0;
        while i < self.modules.len()
            invariant
                i <= self.modules@.len(),
                Self::registered_at(self.modules@, mref@, 0) == Self::registered_at(
                    self.modules@,
                    mref@,
                    i as int,
                ),
            decreases self.modules@.len() - i,
        {
            if self.modules[i].path.same_as(mref) {
                return Some(i);
            }
            i += 1;
        }
        None
    }

    /// Enters a module into the registry under the key of its path and
    /// builds the scope of its top level. A path is registered once: the
    /// caller asks [`GlobalContext::module_index`] first.
    pub fn register_module(&mut self, module: Module, path: ModuleRef, source: Vec<u8>) -> (key:
        ModuleRef)
        requires
            old(self).wf(),
            Self::registered_at(old(self).modules@, path@, 0).is_none(),
        ensures
            final(self).wf(),
            key@ == path@,
            final(self).modules@.len() == old(self).modules@.len() + 1,
            forall|i: int|
                0 <= i < old(self).modules@.len() ==> final(self).modules@[i] == old(
                    self,
                ).modules@[i],
            final(self).modules@.last().path@ == path@,
            final(self).modules@.last().source@ == source@,
            final(self).modules@.last().module.body@ == module.body@,
            final(self).modules@.last().scope.root == ScopeRoot::Module,
            final(self).modules@.last().scope.module_ref matches Some(key_of_scope)
                && key_of_scope@ == path@,
            final(self).modules@.last().scope.nodes@ == subnodes(
                old(self).ast@,
                module.body@,
                old(self).ast@.len() as int,
            ),
            final(self).ast@ == old(self).ast@,
            final(self).type_map@ == old(self).type_map@,
            final(self).builtins.entries@ == old(self).builtins.entries@,
    {
        let key = path.duplicate();
        let scope = OpaqueScope::from_module(&self.ast, &module, path.duplicate());
        proof {
            Self::lemma_not_registered(self.modules@, path@, 0);
        }
        self.modules.push(ModuleContext { path, module, scope, source });
        key
    }

    /// A key that is registered nowhere from `from` on is the key of none
    /// of the modules from there on.
    pub proof fn lemma_not_registered(modules: Seq<ModuleContext>, mref: Seq<char>, from: int)
        requires
            0 <= from,
            Self::registered_at(modules, mref, from).is_none(),
        ensures
            forall|i: int| from <= i < modules.len() ==> (#[trigger] modules[i]).path@ != mref,
        decreases modules.len() - from,
    {
        if from < modules.len() {
            Self::lemma_not_registered(modules, mref, from + 1);
        }
    }

    /// The builtin type whose class has the name `name`: names count by
    /// their text.
    pub open spec fn builtin_with_name(entries: Seq<Builtin>, name: SpanRef, from: int) -> Option<
        LocalTypeId,
    >
        decreases entries.len() - from,
    {
        if from < 0 || from >= entries.len() {
            None
        } else if entries[from].name.spec_group() == name.spec_group() {
            Some(entries[from].type_id)
        } else {
            Self::builtin_with_name(entries, name, from + 1)
        }
    }

    /// The builtin type that the name stands for, if it stands for one.
    pub fn is_builtin(&self, name: SpanRef) -> (type_id: Option<LocalTypeId>)
        ensures
            type_id == Self::builtin_with_name(self.builtins.entries@, name, 0),
    {
        let mut i: usize = 0;
        while i < self.builtins.entries.len()
            invariant
                i <= self.builtins.entries@.len(),
                Self::builtin_with_name(self.builtins.entries@, name, 0) == Self::builtin_with_name(
                    self.builtins.entries@,
                    name,
                    i as int,
                ),
            decreases self.builtins.entries@.len() - i,
        {
            if self.builtins.entries[i].name.group() == name.group() {
                return Some(self.builtins.entries[i].type_id);
            }
            i += 1;
        }
        None
    }

    /// The first class, from the place `from` on, that the nodes define
    /// under the name `name`.
    pub open spec fn class_named(
        ast: Seq<Spanned<AstNode>>,
        nodes: Seq<NodeId>,
        name: SpanRef,
        from: int,
    ) -> Option<NodeId>
        decreases nodes.len() - from,
    {
        if from < 0 || from >= nodes.len() {
            None
        } else if nodes[from] < ast.len() && (ast[nodes[from] as int].inner matches AstNode::ClassDef(
            c,
        ) && c.name.spec_group() == name.spec_group()) {
            Some(nodes[from])
        } else {
            Self::class_named(ast, nodes, name, from + 1)
        }
    }

    /// The node at which the module `mref` defines the class `name`.
    pub fn get_class_from_module(&self, mref: &ModuleRef, name: SpanRef) -> (class: Option<NodeId>)
        ensures
            class == match Self::registered_at(self.modules@, mref@, 0) {
                Some(m) => Self::class_named(self.ast@, self.modules@[m].scope.nodes@, name, 0),
                None => None,
            },
    {
        let m = match self.module_index(mref) {
            Some(m) => m,
            None => {
                return None;
            },
        };
        let nodes = &self.modules[m].scope.nodes;
        let mut i: usize = 0;
        while i < nodes.len()
            invariant
                i <= nodes@.len(),
                m < self.modules@.len(),
                Self::registered_at(self.modules@, mref@, 0) == Some(m as int),
                nodes@ == self.modules@[m as int].scope.nodes@,
                Self::class_named(self.ast@, nodes@, name, 0) == Self::class_named(
                    self.ast@,
                    nodes@,
                    name,
                    i as int,
                ),
            decreases nodes@.len() - i,
        {
            let node = nodes[i];
            let hit = match self.ast.get(node) {
                Some(spanned) => match &spanned.inner {
                    AstNode::ClassDef(c) => c.name.group() == name.group(),
                    _ => false,
                },
                None => false,
            };
            if hit {
                return Some(node);
            }
            i += 1;
        }
        None
    }

    /// Checks every node of the top level of the module at `index`, in
    /// source order, and hands back the rib of the top level.
    pub fn check_module(&mut self, index: usize) -> (result: Result<
        (Ribs, Vec<Option<LocalTypeId>>),
        MontyError,
    >)
        requires
            old(self).wf(),
            index < old(self).modules@.len(),
        ensures
            final(self).wf(),
            final(self).ast@ == old(self).ast@,
            ({
                let cx = TypeEvalContext {
                    ast: &old(self).ast,
                    scope: &old(self).modules@[index as int].scope,
                    builtins: &old(self).builtins,
                    declarations: &old(self).declarations,
                    store: &old(self).store,
                    interner: &old(self).interner,
                    expected_return_value: TypeMap::NONE_TYPE,
                    function: None,
                };
                let (checked, after) = function_result(
                    cx,
                    TypeState { types: old(self).type_map@, ribs: Map::empty() },
                );
                &&& final(self).type_map@ == after.types
                &&& match result {
                    Ok((ribs, types)) => checked == Ok::<Seq<Option<LocalTypeId>>, MontyError>(
                        types@,
                    ) && ribs.wf() && ribs@ == after.ribs,
                    Err(e) => checked == Err::<Seq<Option<LocalTypeId>>, MontyError>(e),
                }
            }),
    {
        let mut ribs = Ribs::new();
        let cx = TypeEvalContext {
            ast: &self.ast,
            scope: &self.modules[index].scope,
            builtins: &self.builtins,
            declarations: &self.declarations,
            store: &self.store,
            interner: &self.interner,
            expected_return_value: TypeMap::NONE_TYPE,
            function: None,
        };
        match check_function(&cx, &mut self.type_map, &mut ribs) {
            Ok(types) => Ok((ribs, types)),
            Err(e) => Err(e),
        }
    }
}

/// The three distinct names of the operator methods of the integers, and
/// the two of the strings, are different texts.
proof fn lemma_dunder_names_differ()
    ensures
        dunder_name(InfixOp::Add) != dunder_name(InfixOp::Sub),
        dunder_name(InfixOp::Add) != dunder_name(InfixOp::Mult),
        dunder_name(InfixOp::Sub) != dunder_name(InfixOp::Mult),
{
    assert(dunder_name(InfixOp::Add)[2] == 97u8);
    assert(dunder_name(InfixOp::Sub)[2] == 115u8);
    assert(dunder_name(InfixOp::Mult)[2] == 109u8);
}

/// What installing one operator method has established.
pub struct InstalledMethod {
    /// The name of the method.
    pub name: SpanRef,
    /// The group of the method's name, which is its key in the class.
    pub key: usize,
    /// The function value.
    pub method: u64,
    /// The type recorded for the function value.
    pub type_id: LocalTypeId,
}

impl GlobalContext {
    /// Whether the object graph can take `n` more values.
    pub open spec fn has_room_for(&self, n: nat) -> bool {
        self.store.graph.nodes().len() + n <= u32::MAX
    }

    /// The store, the interner and the types, as the three things that an
    /// implemented operator rests on.
    pub open spec fn footing(&self) -> (&ValueStore, &SpanInterner, Seq<TypeShape>) {
        (&self.store, &self.interner, self.type_map@)
    }

    /// Installs the method that implements `op` for the class whose
    /// attributes are gathered in `properties`: the name is interned, the
    /// signature is interned as a type, a function value and a string value
    /// for the name are added to the graph, the type is recorded for the
    /// function value, and the attribute is entered under the name.
    fn install_method(
        &mut self,
        properties: &mut PyDictRaw,
        op: InfixOp,
        reciever: LocalTypeId,
        arg: LocalTypeId,
        ret: LocalTypeId,
    ) -> (installed: InstalledMethod)
        requires
            old(self).wf(),
            old(self).has_room_for(2),
        ensures
            final(self).wf(),
            final(self).ast@ == old(self).ast@,
            final(self).modules@ == old(self).modules@,
            final(self).builtins == old(self).builtins,
            final(self).classes == old(self).classes,
            final(self).store.class_nodes() == old(self).store.class_nodes(),
            grown(old(self).footing(), final(self).footing()),
            forall|r: SpanRef|
                old(self).interner.knows(r) ==> final(self).interner.knows(r) && final(self).interner.text_of(r) == old(self).interner.text_of(r),
            final(self).store.graph.nodes().len() <= old(self).store.graph.nodes().len() + 2,
            final(self).interner.group_of(dunder_name(op)) == Some(installed.key),
            installed.name.spec_group() == installed.key,
            member_ready(final(self).footing(), final(properties)@, reciever, op, arg, ret),
            final(properties)@.contains_key(installed.key as u64),
            forall|k: u64|
                k != installed.key as u64 && old(properties)@.contains_key(k) ==> final(properties)@.contains_key(k) && final(properties)@[k] == old(properties)@[k],
    {
        let text = dunder_of(op);
        let name = self.interner.str_to_spanref(text.as_slice());
        let args = vec![arg];
        assert(args@ =~= seq![arg]);
        let signature = FunctionType { name, reciever: Some(reciever), args, ret };
        let type_id = self.type_map.intern(TypeDescriptor::Function(signature));
        let method = self.store.graph.add_node(
            Value::Function {
                name: dunder_of(op),
                properties: PyDictRaw::new(),
                annotations: PyDictRaw::new(),
                defsite: None,
                parent: None,
            },
        );
        let label = self.store.graph.add_string_node(name.group() as u64, Value::String(text));
        self.store.set_type(method, type_id);
        let _ = properties.insert(name.group() as u64, (label, method));
        InstalledMethod { name, key: name.group(), method, type_id }
    }

    /// Whether the attributes implement the operators of the builtin type
    /// `type_id`: the integers add, subtract and multiply among themselves;
    /// strings are joined to strings and repeated by integers.
    pub open spec fn members_ready(&self, properties: Map<u64, IdPair>, type_id: LocalTypeId) -> bool {
        let f = self.footing();
        &&& type_id == TypeMap::INTEGER ==> {
            &&& member_ready(f, properties, type_id, InfixOp::Add, TypeMap::INTEGER, TypeMap::INTEGER)
            &&& member_ready(f, properties, type_id, InfixOp::Sub, TypeMap::INTEGER, TypeMap::INTEGER)
            &&& member_ready(f, properties, type_id, InfixOp::Mult, TypeMap::INTEGER, TypeMap::INTEGER)
        }
        &&& type_id == TypeMap::STRING ==> {
            &&& member_ready(f, properties, type_id, InfixOp::Add, TypeMap::STRING, TypeMap::STRING)
            &&& member_ready(f, properties, type_id, InfixOp::Mult, TypeMap::INTEGER, TypeMap::STRING)
        }
    }

    /// The operators that the class of the type `type_id` implements once
    /// it is installed.
    pub open spec fn operators_ready(&self, type_id: LocalTypeId) -> bool {
        let store = &self.store;
        let interner = &self.interner;
        let types = self.type_map@;
        &&& type_id == TypeMap::INTEGER ==> {
            &&& method_ready(store, interner, types, type_id, InfixOp::Add, TypeMap::INTEGER, TypeMap::INTEGER)
            &&& method_ready(store, interner, types, type_id, InfixOp::Sub, TypeMap::INTEGER, TypeMap::INTEGER)
            &&& method_ready(store, interner, types, type_id, InfixOp::Mult, TypeMap::INTEGER, TypeMap::INTEGER)
        }
        &&& type_id == TypeMap::STRING ==> {
            &&& method_ready(store, interner, types, type_id, InfixOp::Add, TypeMap::STRING, TypeMap::STRING)
            &&& method_ready(store, interner, types, type_id, InfixOp::Mult, TypeMap::INTEGER, TypeMap::STRING)
        }
    }

    fn install_integer(&mut self, properties: &mut PyDictRaw) -> (members: Vec<
        (SpanRef, LocalTypeId),
    >)
        requires
            old(self).wf(),
            old(self).has_room_for(6),
        ensures
            final(self).wf(),
            final(self).ast@ == old(self).ast@,
            final(self).modules@ == old(self).modules@,
            final(self).builtins == old(self).builtins,
            final(self).classes == old(self).classes,
            final(self).store.class_nodes() == old(self).store.class_nodes(),
            grown(old(self).footing(), final(self).footing()),
            forall|r: SpanRef|
                old(self).interner.knows(r) ==> final(self).interner.knows(r) && final(self).interner.text_of(r) == old(self).interner.text_of(r),
            final(self).store.graph.nodes().len() <= old(self).store.graph.nodes().len() + 6,
            final(self).members_ready(final(properties)@, TypeMap::INTEGER),
            names_once(members@),
    {
        let t = TypeMap::INTEGER;
        let add = self.install_method(properties, InfixOp::Add, t, t, t);
        let ghost f1 = self.footing();
        let ghost p1 = properties@;
        let sub = self.install_method(properties, InfixOp::Sub, t, t, t);
        let ghost f2 = self.footing();
        let ghost p2 = properties@;
        proof {
            lemma_dunder_names_differ();
            crate::span::lemma_group_stable(*f1.1, *f2.1, dunder_name(InfixOp::Add));
            crate::span::lemma_group_text(*f2.1, dunder_name(InfixOp::Add));
            crate::span::lemma_group_text(*f2.1, dunder_name(InfixOp::Sub));
            lemma_member_ready_stable(f1, f2, p1, p2, t, InfixOp::Add, t, t);
        }
        let mul = self.install_method(properties, InfixOp::Mult, t, t, t);
        proof {
            let f3 = self.footing();
            let p3 = properties@;
            crate::span::lemma_group_stable(*f2.1, *f3.1, dunder_name(InfixOp::Add));
            crate::span::lemma_group_stable(*f2.1, *f3.1, dunder_name(InfixOp::Sub));
            crate::span::lemma_group_text(*f3.1, dunder_name(InfixOp::Add));
            crate::span::lemma_group_text(*f3.1, dunder_name(InfixOp::Sub));
            crate::span::lemma_group_text(*f3.1, dunder_name(InfixOp::Mult));
            lemma_member_ready_stable(f2, f3, p2, p3, t, InfixOp::Add, t, t);
            lemma_member_ready_stable(f2, f3, p2, p3, t, InfixOp::Sub, t, t);
            assert(add.key != sub.key && add.key != mul.key && sub.key != mul.key);
        }
        let mut members: Vec<(SpanRef, LocalTypeId)> = Vec::new();
        members.push((add.name, add.type_id));
        members.push((sub.name, sub.type_id));
        members.push((mul.name, mul.type_id));
        members
    }

    fn install_string(&mut self, properties: &mut PyDictRaw) -> (members: Vec<
        (SpanRef, LocalTypeId),
    >)
        requires
            old(self).wf(),
            old(self).has_room_for(4),
        ensures
            final(self).wf(),
            final(self).ast@ == old(self).ast@,
            final(self).modules@ == old(self).modules@,
            final(self).builtins == old(self).builtins,
            final(self).classes == old(self).classes,
            final(self).store.class_nodes() == old(self).store.class_nodes(),
            grown(old(self).footing(), final(self).footing()),
            forall|r: SpanRef|
                old(self).interner.knows(r) ==> final(self).interner.knows(r) && final(self).interner.text_of(r) == old(self).interner.text_of(r),
            final(self).store.graph.nodes().len() <= old(self).store.graph.nodes().len() + 4,
            final(self).members_ready(final(properties)@, TypeMap::STRING),
            names_once(members@),
    {
        let t = TypeMap::STRING;
        let add = self.install_method(properties, InfixOp::Add, t, t, t);
        let ghost f1 = self.footing();
        let ghost p1 = properties@;
        let mul = self.install_method(properties, InfixOp::Mult, t, TypeMap::INTEGER, t);
        proof {
            let f2 = self.footing();
            let p2 = properties@;
            lemma_dunder_names_differ();
            crate::span::lemma_group_stable(*f1.1, *f2.1, dunder_name(InfixOp::Add));
            crate::span::lemma_group_text(*f2.1, dunder_name(InfixOp::Add));
            crate::span::lemma_group_text(*f2.1, dunder_name(InfixOp::Mult));
            lemma_member_ready_stable(f1, f2, p1, p2, t, InfixOp::Add, t, t);
            assert(add.key != mul.key);
        }
        let mut members: Vec<(SpanRef, LocalTypeId)> = Vec::new();
        members.push((add.name, add.type_id));
        members.push((mul.name, mul.type_id));
        members
    }

    /// Installs a builtin class: its operator methods, its class value in
    /// the object graph, and its entry among the builtins.
    ///
    /// Nothing is installed, and nothing changes, unless the graph has room
    /// for seven more values.
    pub fn install_class(&mut self, builtin: Builtin) -> (result: Result<(), BootstrapError>)
        requires
            old(self).wf(),
        ensures
            final(self).wf(),
            final(self).ast@ == old(self).ast@,
            final(self).modules@ == old(self).modules@,
            result.is_ok() <==> old(self).has_room_for(7),
            match result {
                Err(e) => {
                    &&& e == BootstrapError::GraphFull
                    &&& final(self).builtins == old(self).builtins
                    &&& final(self).type_map@ == old(self).type_map@
                    &&& final(self).store == old(self).store
                    &&& final(self).interner == old(self).interner
                },
                Ok(()) => {
                    &&& final(self).builtins.entries@ == with_builtin(
                        old(self).builtins.entries@,
                        builtin,
                    )
                    &&& final(self).store.graph.nodes().len() <= old(self).store.graph.nodes().len()
                        + 7
                    &&& final(self).operators_ready(builtin.type_id)
                    &&& grown(old(self).footing(), final(self).footing())
                    &&& forall|r: SpanRef|
                        old(self).interner.knows(r) ==> final(self).interner.knows(r) && final(self).interner.text_of(r) == old(self).interner.text_of(r)
                    &&& forall|other: LocalTypeId|
                        other != builtin.type_id ==> final(self).store.spec_class_of(other) == old(
                            self,
                        ).store.spec_class_of(other)
                },
            },
    {
        if self.store.graph.node_count() > u32::MAX as usize - 7 {
            return Err(BootstrapError::GraphFull);
        }
        let type_id = builtin.type_id;
        let mut properties = PyDictRaw::new();
        let members = if type_id == TypeMap::INTEGER {
            self.install_integer(&mut properties)
        } else if type_id == TypeMap::STRING {
            self.install_string(&mut properties)
        } else {
            Vec::new()
        };
        let ghost f1 = self.footing();
        let ghost held = properties@;
        let name = match self.interner.resolve_ref(builtin.name) {
            Some(text) => {
                let mut copy: Vec<u8> = Vec::new();
                let mut i: usize = 0;
                while i < text.len()
                    invariant
                        i <= text@.len(),
                    decreases text@.len() - i,
                {
                    copy.push(text[i]);
                    i += 1;
                }
                copy
            },
            None => Vec::new(),
        };
        let class = self.store.graph.add_node(Value::Class { name, properties });
        self.store.set_class(type_id, class);
        self.builtins.insert(builtin);
        let scope = LocalScope { inner: OpaqueScope::from_root(&self.ast, builtin.class) };
        self.classes.push(Class { scope, kind: type_id, properties: members });
        proof {
            let f2 = self.footing();
            assert(grown(f1, f2));
            assert(grown(old(self).footing(), f2));
            if type_id == TypeMap::INTEGER {
                let t = TypeMap::INTEGER;
                lemma_member_ready_stable(f1, f2, held, held, t, InfixOp::Add, t, t);
                lemma_member_ready_stable(f1, f2, held, held, t, InfixOp::Sub, t, t);
                lemma_member_ready_stable(f1, f2, held, held, t, InfixOp::Mult, t, t);
                lemma_class_ready(f2, t, held, InfixOp::Add, t, t);
                lemma_class_ready(f2, t, held, InfixOp::Sub, t, t);
                lemma_class_ready(f2, t, held, InfixOp::Mult, t, t);
            }
            if type_id == TypeMap::STRING {
                let t = TypeMap::STRING;
                lemma_member_ready_stable(f1, f2, held, held, t, InfixOp::Add, t, t);
                lemma_member_ready_stable(f1, f2, held, held, t, InfixOp::Mult, TypeMap::INTEGER, t);
                lemma_class_ready(f2, t, held, InfixOp::Add, t, t);
                lemma_class_ready(f2, t, held, InfixOp::Mult, TypeMap::INTEGER, t);
            }
        }
        Ok(())
    }
}

/// Whether one of the first `n` builtins has the type `type_id`.
pub open spec fn provides(list: Seq<Builtin>, n: int, type_id: LocalTypeId) -> bool {
    exists|j: int| 0 <= j < n && #[trigger] list[j].type_id == type_id
}

impl GlobalContext {
    proof fn lemma_operators_stay(before: &GlobalContext, after: &GlobalContext, type_id: LocalTypeId)
        requires
            grown_from(before.footing(), after.footing(), type_id),
            before.operators_ready(type_id),
        ensures
            after.operators_ready(type_id),
    {
        let b = before.footing();
        let a = after.footing();
        if type_id == TypeMap::INTEGER {
            let t = TypeMap::INTEGER;
            lemma_method_ready_stable(b, a, t, InfixOp::Add, t, t);
            lemma_method_ready_stable(b, a, t, InfixOp::Sub, t, t);
            lemma_method_ready_stable(b, a, t, InfixOp::Mult, t, t);
        }
        if type_id == TypeMap::STRING {
            let t = TypeMap::STRING;
            lemma_method_ready_stable(b, a, t, InfixOp::Add, t, t);
            lemma_method_ready_stable(b, a, t, InfixOp::Mult, TypeMap::INTEGER, t);
        }
    }

    /// Sets up the builtin classes that the module at `index` declares, and
    /// hands back the imports of that module for the caller to resolve.
    ///
    /// The classes of the module are surveyed first. A class with more
    /// than one decorator, with a decorator other than the marker, or
    /// marked but of an unknown name is a fault: nothing is installed then.
    /// Otherwise every marked class is installed, in source order, as
    /// [`GlobalContext::install_class`] does it; this fails only where the
    /// graph lacks room for seven more values for each of them. Where the
    /// room runs out, the classes before the one that found no room stay
    /// installed, with their operators, and the others are not entered.
    pub fn preload(&mut self, index: usize) -> (result: Result<Vec<NodeId>, BootstrapError>)
        requires
            old(self).wf(),
            index < old(self).modules@.len(),
        ensures
            final(self).wf(),
            final(self).ast@ == old(self).ast@,
            final(self).modules@ == old(self).modules@,
            ({
                let nodes = old(self).modules@[index as int].scope.nodes@;
                let surveyed = provided_classes(
                    old(self).ast@,
                    &old(self).interner,
                    nodes,
                    nodes.len() as int,
                );
                match result {
                    Ok(imports) => {
                        &&& surveyed.is_ok()
                        &&& imports@ == import_nodes(old(self).ast@, nodes, nodes.len() as int)
                        &&& final(self).builtins.entries@ == with_builtins(
                            old(self).builtins.entries@,
                            surveyed.unwrap(),
                            surveyed.unwrap().len() as int,
                        )
                        &&& forall|i: int|
                            0 <= i < surveyed.unwrap().len() ==> final(self).operators_ready(
                                (#[trigger] surveyed.unwrap()[i]).type_id,
                            )
                        &&& forall|r: SpanRef|
                            old(self).interner.knows(r) ==> final(self).interner.knows(r)
                                && final(self).interner.text_of(r) == old(self).interner.text_of(
                                r,
                            )
                    },
                    Err(e) => {
                        ||| {
                            &&& e == BootstrapError::GraphFull
                            &&& surveyed.is_ok()
                            &&& !old(self).has_room_for(7 * surveyed.unwrap().len())
                            &&& !final(self).has_room_for(7)
                            &&& exists|k: int|
                                0 <= k < surveyed.unwrap().len() && #[trigger] with_builtins(
                                    old(self).builtins.entries@,
                                    surveyed.unwrap(),
                                    k,
                                ) == final(self).builtins.entries@ && forall|i: int|
                                    0 <= i < k ==> final(self).operators_ready(
                                        (#[trigger] surveyed.unwrap()[i]).type_id,
                                    )
                        }
                        ||| {
                            &&& surveyed == Err::<Seq<Builtin>, BootstrapError>(e)
                            &&& final(self).builtins == old(self).builtins
                            &&& final(self).type_map@ == old(self).type_map@
                            &&& final(self).store == old(self).store
                            &&& final(self).interner == old(self).interner
                        }
                    },
                }
            }),
    {
        let (classes, imports) = match survey(
            &self.ast,
            &self.interner,
            &self.modules[index].scope.nodes,
        ) {
            Ok(found) => found,
            Err(e) => {
                return Err(e);
            },
        };
        let mut k: usize = 0;
        while k < classes.len()
            invariant
                self.wf(),
                k <= classes@.len(),
                index < old(self).modules@.len(),
                provided_classes(
                    old(self).ast@,
                    &old(self).interner,
                    old(self).modules@[index as int].scope.nodes@,
                    old(self).modules@[index as int].scope.nodes@.len() as int,
                ) == Ok::<Seq<Builtin>, BootstrapError>(classes@),
                self.ast@ == old(self).ast@,
                self.modules@ == old(self).modules@,
                self.builtins.entries@ == with_builtins(
                    old(self).builtins.entries@,
                    classes@,
                    k as int,
                ),
                self.store.graph.nodes().len() <= old(self).store.graph.nodes().len() + 7 * k,
                provides(classes@, k as int, TypeMap::INTEGER) ==> self.operators_ready(
                    TypeMap::INTEGER,
                ),
                provides(classes@, k as int, TypeMap::STRING) ==> self.operators_ready(
                    TypeMap::STRING,
                ),
                forall|r: SpanRef|
                    old(self).interner.knows(r) ==> self.interner.knows(r) && self.interner.text_of(
                        r,
                    ) == old(self).interner.text_of(r),
            decreases classes@.len() - k,
        {
            let ghost before = *self;
            let builtin = classes[k];
            match self.install_class(builtin) {
                Ok(()) => {},
                Err(e) => {
                    proof {
                        assert(self.builtins.entries@ == with_builtins(
                            old(self).builtins.entries@,
                            classes@,
                            k as int,
                        ));
                        assert forall|i: int| 0 <= i < k implies self.operators_ready(
                            (#[trigger] classes@[i]).type_id,
                        ) by {
                            let t = classes@[i].type_id;
                            if t == TypeMap::INTEGER {
                                assert(provides(classes@, k as int, TypeMap::INTEGER));
                            }
                            if t == TypeMap::STRING {
                                assert(provides(classes@, k as int, TypeMap::STRING));
                            }
                        }
                    }
                    return Err(e);
                },
            }
            proof {
                let t = builtin.type_id;
                if provides(classes@, k as int + 1, TypeMap::INTEGER) {
                    if t != TypeMap::INTEGER {
                        let j = choose|j: int|
                            0 <= j < k + 1 && #[trigger] classes@[j].type_id == TypeMap::INTEGER;
                        assert(provides(classes@, k as int, TypeMap::INTEGER));
                        Self::lemma_operators_stay(&before, self, TypeMap::INTEGER);
                    }
                }
                if provides(classes@, k as int + 1, TypeMap::STRING) {
                    if t != TypeMap::STRING {
                        let j = choose|j: int|
                            0 <= j < k + 1 && #[trigger] classes@[j].type_id == TypeMap::STRING;
                        assert(provides(classes@, k as int, TypeMap::STRING));
                        Self::lemma_operators_stay(&before, self, TypeMap::STRING);
                    }
                }
            }
            k += 1;
        }
        proof {
            assert(classes@.subrange(0, classes@.len() as int) =~= classes@);
            assert forall|i: int| 0 <= i < classes@.len() implies self.operators_ready(
                (#[trigger] classes@[i]).type_id,
            ) by {
                let t = classes@[i].type_id;
                if t == TypeMap::INTEGER {
                    assert(provides(classes@, classes@.len() as int, TypeMap::INTEGER));
                }
                if t == TypeMap::STRING {
                    assert(provides(classes@, classes@.len() as int, TypeMap::STRING));
                }
            }
        }
        Ok(imports)
    }
}

} // verus!
