//! Scopes and the lookup of names.
//!
//! A scope is the linear list of the nodes that stand in a module, a
//! function or a class, in source order. A name is looked up among the
//! nodes of the scope and among the builtins. In control-flow-sensitive
//! mode an assignment only counts when it stands before the node that asks,
//! and of several such assignments only the nearest.

use crate::ast::{Ast, AstNode, LookupTarget, Module, NodeId, Spanned};
use crate::context::ModuleRef;
use crate::span::SpanRef;
use crate::typing::LocalTypeId;
use vstd::prelude::*;

verus! {

/// What a scope was made from.
#[derive(Clone, Copy, Debug, PartialEq, Eq, Structural)]
pub enum ScopeRoot {
    /// The top level of a module.
    Module,
    /// Any other node.
    AstObject(NodeId),
    /// The function defined at the node.
    Func(NodeId),
    /// The class defined at the node.
    Class(NodeId),
}

/// How the place of the asking node counts in a lookup.
#[derive(Clone, Copy, Debug, PartialEq, Eq, Structural)]
pub enum LookupOrder {
    /// It does not: every definition of the name is a candidate.
    Unspecified,
    /// An assignment is a candidate only if it stands before the given node
    /// in the scope, and then only the nearest one.
    ControlFlowSensitive(NodeId),
}

/// A builtin type: its id, the name of its class and the node at which the
/// class is declared.
#[derive(Clone, Copy, Debug, PartialEq, Eq, Structural)]
pub struct Builtin {
    pub type_id: LocalTypeId,
    pub name: SpanRef,
    pub class: NodeId,
}

/// A builtin that was found under the name written in another module. Its
/// type is that of the builtin; its name is the one that was looked up.
#[derive(Clone, Copy, Debug, PartialEq, Eq, Structural)]
pub struct Renamed {
    pub inner: Builtin,
    pub name: SpanRef,
}

impl LookupTarget for Renamed {
    open spec fn spec_name(&self) -> Option<SpanRef> {
        Some(self.name)
    }

    fn is_named(&self, target: SpanRef) -> (named: bool) {
        self.name.group() == target.group()
    }

    fn name(&self) -> (name: Option<SpanRef>) {
        Some(self.name)
    }
}

/// What a lookup finds: a node of the scope or a builtin.
#[derive(Clone, Copy, Debug, PartialEq, Eq, Structural)]
pub enum Definition {
    Node(NodeId),
    Renamed(Renamed),
}

/// The nodes that stand in the scope of a node with the parts `parts`: each
/// part, followed by what stands below it. The body of a function defined
/// there is a scope of its own and is left out. Only parts numbered below
/// `bound` are entered.
pub open spec fn subnodes(ast: Seq<Spanned<AstNode>>, parts: Seq<NodeId>, bound: int) -> Seq<NodeId>
    decreases bound, parts.len(),
{
    if parts.len() == 0 {
        Seq::empty()
    } else {
        let part = parts[0];
        let below = if part < bound && part < ast.len() && !(ast[part as int].inner is FuncDef) {
            subnodes(ast, ast[part as int].inner.scoped_parts(), part as int)
        } else {
            Seq::empty()
        };
        seq![part] + below + subnodes(ast, parts.drop_first(), bound)
    }
}

/// Whether the node `node` carries the name with the given group.
pub open spec fn node_named(ast: Seq<Spanned<AstNode>>, node: NodeId, group: usize) -> bool {
    node < ast.len() && match ast[node as int].inner.spec_name() {
        Some(n) => n.spec_group() == group,
        None => false,
    }
}

/// Whether the node `node` is an assignment to the name.
pub open spec fn assigns(ast: Seq<Spanned<AstNode>>, node: NodeId, group: usize) -> bool {
    node_named(ast, node, group) && ast[node as int].inner is Assign
}

/// Whether the node `node` defines the name as a function or a class.
pub open spec fn declares(ast: Seq<Spanned<AstNode>>, node: NodeId, group: usize) -> bool {
    node_named(ast, node, group) && (ast[node as int].inner is FuncDef
        || ast[node as int].inner is ClassDef)
}

/// The nodes among the first `n` of `nodes` that carry the name.
pub open spec fn named_nodes(
    ast: Seq<Spanned<AstNode>>,
    nodes: Seq<NodeId>,
    group: usize,
    n: int,
) -> Seq<Definition>
    decreases n,
{
    if n <= 0 {
        Seq::empty()
    } else if node_named(ast, nodes[n - 1], group) {
        named_nodes(ast, nodes, group, n - 1).push(Definition::Node(nodes[n - 1]))
    } else {
        named_nodes(ast, nodes, group, n - 1)
    }
}

/// The nodes among the first `n` of `nodes` that define the name: by
/// assignment if `with_assignments`, and as a function or class.
pub open spec fn defining_nodes(
    ast: Seq<Spanned<AstNode>>,
    nodes: Seq<NodeId>,
    group: usize,
    with_assignments: bool,
    n: int,
) -> Seq<Definition>
    decreases n,
{
    if n <= 0 {
        Seq::empty()
    } else if declares(ast, nodes[n - 1], group) || (with_assignments && assigns(
        ast,
        nodes[n - 1],
        group,
    )) {
        defining_nodes(ast, nodes, group, with_assignments, n - 1).push(
            Definition::Node(nodes[n - 1]),
        )
    } else {
        defining_nodes(ast, nodes, group, with_assignments, n - 1)
    }
}

/// The builtins among the first `n` whose name has the text of `target`,
/// each under the name `target`.
pub open spec fn renamed_builtins(builtins: Seq<Builtin>, target: SpanRef, n: int) -> Seq<
    Definition,
>
    decreases n,
{
    if n <= 0 {
        Seq::empty()
    } else if builtins[n - 1].name.spec_group() == target.spec_group() {
        renamed_builtins(builtins, target, n - 1).push(
            Definition::Renamed(Renamed { inner: builtins[n - 1], name: target }),
        )
    } else {
        renamed_builtins(builtins, target, n - 1)
    }
}

/// The first place at or after `from` at which `node` stands in `nodes`, or
/// the length of `nodes`.
pub open spec fn position_from(nodes: Seq<NodeId>, node: NodeId, from: int) -> int
    decreases nodes.len() - from,
{
    if from < 0 || from >= nodes.len() {
        nodes.len() as int
    } else if nodes[from] == node {
        from
    } else {
        position_from(nodes, node, from + 1)
    }
}

/// The last place before `limit` at which an assignment to the name stands.
pub open spec fn nearest_assignment(
    ast: Seq<Spanned<AstNode>>,
    nodes: Seq<NodeId>,
    group: usize,
    limit: int,
) -> Option<int>
    decreases limit,
{
    if limit <= 0 {
        None
    } else if assigns(ast, nodes[limit - 1], group) {
        Some(limit - 1)
    } else {
        nearest_assignment(ast, nodes, group, limit - 1)
    }
}

/// The definitions that a control-flow-sensitive lookup finds among the
/// nodes when only the places before `limit` count for assignments: the
/// nearest assignment first, then the functions and classes.
pub open spec fn visible_definitions(
    ast: Seq<Spanned<AstNode>>,
    nodes: Seq<NodeId>,
    group: usize,
    limit: int,
) -> Seq<Definition> {
    let declared = defining_nodes(ast, nodes, group, false, nodes.len() as int);
    match nearest_assignment(ast, nodes, group, limit) {
        Some(at) => seq![Definition::Node(nodes[at])] + declared,
        None => declared,
    }
}

/// The builtin types that a lookup may fall back on: a map from the type
/// to the class that stands for it, kept in the order in which the types
/// were first entered.
pub struct Builtins {
    pub entries: Vec<Builtin>,
    pub mref: Option<ModuleRef>,
}

/// The first place, from `from` on, at which the type `type_id` stands.
pub open spec fn place_of_type(entries: Seq<Builtin>, type_id: LocalTypeId, from: int) -> Option<int>
    decreases entries.len() - from,
{
    if from < 0 || from >= entries.len() {
        None
    } else if entries[from].type_id == type_id {
        Some(from)
    } else {
        place_of_type(entries, type_id, from + 1)
    }
}

/// The entries after `builtin` was entered: it takes the place of the
/// entry that stood for its type, or comes last if the type is new.
pub open spec fn with_builtin(entries: Seq<Builtin>, builtin: Builtin) -> Seq<Builtin> {
    match place_of_type(entries, builtin.type_id, 0) {
        Some(i) => entries.update(i, builtin),
        None => entries.push(builtin),
    }
}

/// The entries after the first `n` of `list` were entered, one after the
/// other.
pub open spec fn with_builtins(entries: Seq<Builtin>, list: Seq<Builtin>, n: int) -> Seq<Builtin>
    decreases n,
{
    if n <= 0 {
        entries
    } else {
        with_builtin(with_builtins(entries, list, n - 1), list[n - 1])
    }
}

/// No type stands twice.
pub open spec fn types_once(entries: Seq<Builtin>) -> bool {
    forall|i: int, j: int| 0 <= i < j < entries.len() ==> entries[i].type_id != entries[j].type_id
}

/// Where a type stands first, it stands; where it stands nowhere from
/// `from` on, no entry from there on is of that type.
pub proof fn lemma_place_of_type(entries: Seq<Builtin>, type_id: LocalTypeId, from: int)
    requires
        0 <= from,
    ensures
        match place_of_type(entries, type_id, from) {
            Some(i) => from <= i < entries.len() && entries[i].type_id == type_id,
            None => forall|k: int| from <= k < entries.len() ==> entries[k].type_id != type_id,
        },
    decreases entries.len() - from,
{
    if from < entries.len() && entries[from].type_id != type_id {
        lemma_place_of_type(entries, type_id, from + 1);
    }
}

/// Entering a builtin keeps every type standing once.
pub proof fn lemma_with_builtin_once(entries: Seq<Builtin>, builtin: Builtin)
    requires
        types_once(entries),
    ensures
        types_once(with_builtin(entries, builtin)),
{
    lemma_place_of_type(entries, builtin.type_id, 0);
    let after = with_builtin(entries, builtin);
    match place_of_type(entries, builtin.type_id, 0) {
        Some(p) => {
            assert forall|i: int, j: int| 0 <= i < j < after.len() implies after[i].type_id
                != after[j].type_id by {
                assert(entries[i].type_id != entries[j].type_id);
            }
        },
        None => {
            assert forall|i: int, j: int| 0 <= i < j < after.len() implies after[i].type_id
                != after[j].type_id by {
                if j < entries.len() {
                    assert(entries[i].type_id != entries[j].type_id);
                }
            }
        },
    }
}

impl Builtins {
    /// Enters a builtin: it takes the place of the entry that stood for
    /// its type, or comes last if the type is new.
    pub fn insert(&mut self, builtin: Builtin)
        ensures
            final(self).entries@ == with_builtin(old(self).entries@, builtin),
            final(self).mref == old(self).mref,
            types_once(old(self).entries@) ==> types_once(final(self).entries@),
    {
        proof {
            if types_once(self.entries@) {
                lemma_with_builtin_once(self.entries@, builtin);
            }
        }
        let mut i: usize = 0;
        while i < self.entries.len()
            invariant
                i <= self.entries@.len(),
                self.entries@ == old(self).entries@,
                self.mref == old(self).mref,
                place_of_type(self.entries@, builtin.type_id, 0) == place_of_type(
                    self.entries@,
                    builtin.type_id,
                    i as int,
                ),
            decreases self.entries@.len() - i,
        {
            if self.entries[i].type_id == builtin.type_id {
                self.entries.set(i, builtin);
                return ;
            }
            i += 1;
        }
        self.entries.push(builtin);
    }
}

/// A scope: its root and its nodes in source order.
#[derive(Clone, Debug)]
pub struct OpaqueScope {
    pub root: ScopeRoot,
    pub module_ref: Option<ModuleRef>,
    pub nodes: Vec<NodeId>,
}

/// A scope together with the function or class whose body it is.
#[derive(Clone, Debug)]
pub struct LocalScope {
    pub inner: OpaqueScope,
}

fn append(into: &mut Vec<NodeId>, from: &Vec<NodeId>)
    ensures
        final(into)@ == old(into)@ + from@,
{
    let mut i: usize = 0;
    while i < from.len()
        invariant
            i <= from@.len(),
            into@ == old(into)@ + from@.subrange(0, i as int),
        decreases from@.len() - i,
    {
        into.push(from[i]);
        i += 1;
        assert(into@ =~= old(into)@ + from@.subrange(0, i as int));
    }
    assert(from@.subrange(0, from@.len() as int) =~= from@);
}

proof fn lemma_subnodes_split(ast: Seq<Spanned<AstNode>>, parts: Seq<NodeId>, bound: int, i: int)
    requires
        0 <= i < parts.len(),
    ensures
        subnodes(ast, parts.skip(i), bound) == seq![parts[i]] + (if parts[i] < bound && parts[i]
            < ast.len() && !(ast[parts[i] as int].inner is FuncDef) {
            subnodes(ast, ast[parts[i] as int].inner.scoped_parts(), parts[i] as int)
        } else {
            Seq::empty()
        }) + subnodes(ast, parts.skip(i + 1), bound),
{
    assert(parts.skip(i)[0] == parts[i]);
    assert(parts.skip(i).drop_first() =~= parts.skip(i + 1));
}

/// Collects the nodes that stand in the scope of a node with the given
/// parts.
pub fn collect_subnodes(ast: &Ast, parts: &Vec<NodeId>, bound: usize) -> (nodes: Vec<NodeId>)
    requires
        ast.wf(),
    ensures
        nodes@ == subnodes(ast@, parts@, bound as int),
    decreases bound,
{
    let mut nodes: Vec<NodeId> = Vec::new();
    let mut i: usize = 0;
    assert(parts@.skip(0) =~= parts@);
    while i < parts.len()
        invariant
            ast.wf(),
            i <= parts@.len(),
            nodes@ + subnodes(ast@, parts@.skip(i as int), bound as int) == subnodes(
                ast@,
                parts@,
                bound as int,
            ),
        decreases parts@.len() - i,
    {
        let part = parts[i];
        proof {
            lemma_subnodes_split(ast@, parts@, bound as int, i as int);
        }
        let ghost before = nodes@;
        nodes.push(part);
        if part < bound {
            match ast.get(part) {
                Some(spanned) => {
                    let is_function = match &spanned.inner {
                        AstNode::FuncDef(_) => true,
                        _ => false,
                    };
                    if !is_function {
                        let inner = spanned.inner.walk();
                        let below = collect_subnodes(ast, &inner, part);
                        append(&mut nodes, &below);
                    }
                },
                None => {},
            }
        }
        i += 1;
        proof {
            let rest = subnodes(ast@, parts@.skip(i as int), bound as int);
            let below = if part < bound && part < ast@.len() && !(ast@[part as int].inner
                is FuncDef) {
                subnodes(ast@, ast@[part as int].inner.scoped_parts(), part as int)
            } else {
                Seq::empty()
            };
            assert(nodes@ =~= before + seq![part] + below);
            assert(nodes@ + rest =~= before + (seq![part] + below + rest));
        }
    }
    assert(nodes@ =~= nodes@ + subnodes(ast@, parts@.skip(i as int), bound as int));
    nodes
}

impl OpaqueScope {
    /// The scope of the node `root`: everything that stands below it.
    pub fn from_root(ast: &Ast, root: NodeId) -> (scope: OpaqueScope)
        requires
            ast.wf(),
        ensures
            scope.root == ScopeRoot::AstObject(root),
            scope.module_ref.is_none(),
            root < ast@.len() ==> scope.nodes@ == subnodes(
                ast@,
                ast@[root as int].inner.scoped_parts(),
                root as int,
            ),
            root >= ast@.len() ==> scope.nodes@.len() == 0,
    {
        let nodes = match ast.get(root) {
            Some(spanned) => {
                let parts = spanned.inner.walk();
                collect_subnodes(ast, &parts, root)
            },
            None => Vec::new(),
        };
        OpaqueScope { root: ScopeRoot::AstObject(root), module_ref: None, nodes }
    }

    /// The scope of the top level of a module.
    pub fn from_module(ast: &Ast, module: &Module, module_ref: ModuleRef) -> (scope: OpaqueScope)
        requires
            ast.wf(),
        ensures
            scope.root == ScopeRoot::Module,
            scope.module_ref == Some(module_ref),
            scope.nodes@ == subnodes(ast@, module.body@, ast@.len() as int),
    {
        let nodes = collect_subnodes(ast, &module.body, ast.len());
        OpaqueScope { root: ScopeRoot::Module, module_ref: Some(module_ref), nodes }
    }

    /// What the scope was made from.
    pub fn root(&self) -> (root: ScopeRoot)
        ensures
            root == self.root,
    {
        self.root
    }

    /// Whether annotations without a value may stand here: in the body of a
    /// class and at the top level of a module.
    pub fn may_contain_annotations(&self, ast: &Ast) -> (may: bool)
        ensures
            may == match self.root {
                ScopeRoot::Module => true,
                ScopeRoot::Class(_) => true,
                ScopeRoot::AstObject(n) => n < ast@.len() && ast@[n as int].inner is ClassDef,
                ScopeRoot::Func(_) => false,
            },
    {
        match self.root {
            ScopeRoot::Module => true,
            ScopeRoot::Class(_) => true,
            ScopeRoot::AstObject(n) => match ast.get(n) {
                Some(spanned) => match &spanned.inner {
                    AstNode::ClassDef(_) => true,
                    _ => false,
                },
                None => false,
            },
            ScopeRoot::Func(_) => false,
        }
    }

    /// The place of `node` in the scope, or the number of nodes if it does
    /// not stand there.
    pub fn position_of(&self, node: NodeId) -> (at: usize)
        ensures
            at == position_from(self.nodes@, node, 0),
            at <= self.nodes@.len(),
    {
        let mut i: usize = 0;
        while i < self.nodes.len()
            invariant
                i <= self.nodes@.len(),
                position_from(self.nodes@, node, 0) == position_from(self.nodes@, node, i as int),
            decreases self.nodes@.len() - i,
        {
            if self.nodes[i] == node {
                return i;
            }
            i += 1;
        }
        i
    }

    fn renamed(builtins: &Builtins, target: SpanRef, found: &mut Vec<Definition>)
        ensures
            final(found)@ == old(found)@ + renamed_builtins(
                builtins.entries@,
                target,
                builtins.entries@.len() as int,
            ),
    {
        let mut i: usize = 0;
        while i < builtins.entries.len()
            invariant
                i <= builtins.entries@.len(),
                found@ == old(found)@ + renamed_builtins(builtins.entries@, target, i as int),
            decreases builtins.entries@.len() - i,
        {
            let b = builtins.entries[i];
            if b.name.group() == target.group() {
                found.push(Definition::Renamed(Renamed { inner: b, name: target }));
            }
            i += 1;
            assert(found@ =~= old(found)@ + renamed_builtins(builtins.entries@, target, i as int));
        }
    }

    /// Every node of the scope that carries the name `target`, in source
    /// order, followed by every builtin of that name.
    pub fn lookup_any(&self, ast: &Ast, target: SpanRef, builtins: &Builtins) -> (found: Vec<
        Definition,
    >)
        ensures
            found@ == named_nodes(
                ast@,
                self.nodes@,
                target.spec_group(),
                self.nodes@.len() as int,
            ) + renamed_builtins(builtins.entries@, target, builtins.entries@.len() as int),
    {
        let mut found: Vec<Definition> = Vec::new();
        let mut i: usize = 0;
        while i < self.nodes.len()
            invariant
                i <= self.nodes@.len(),
                found@ == named_nodes(ast@, self.nodes@, target.spec_group(), i as int),
            decreases self.nodes@.len() - i,
        {
            let node = self.nodes[i];
            let named = match ast.get(node) {
                Some(spanned) => spanned.inner.is_named(target),
                None => false,
            };
            if named {
                found.push(Definition::Node(node));
            }
            i += 1;
        }
        Self::renamed(builtins, target, &mut found);
        found
    }

    fn defining(&self, ast: &Ast, target: SpanRef, with_assignments: bool) -> (found: Vec<
        Definition,
    >)
        ensures
            found@ == defining_nodes(
                ast@,
                self.nodes@,
                target.spec_group(),
                with_assignments,
                self.nodes@.len() as int,
            ),
    {
        let mut found: Vec<Definition> = Vec::new();
        let mut i: usize = 0;
        while i < self.nodes.len()
            invariant
                i <= self.nodes@.len(),
                found@ == defining_nodes(
                    ast@,
                    self.nodes@,
                    target.spec_group(),
                    with_assignments,
                    i as int,
                ),
            decreases self.nodes@.len() - i,
        {
            let node = self.nodes[i];
            let defines = match ast.get(node) {
                Some(spanned) => match &spanned.inner {
                    AstNode::FuncDef(f) => f.name.group() == target.group(),
                    AstNode::ClassDef(c) => c.name.group() == target.group(),
                    AstNode::Assign(a) => with_assignments && a.name.group() == target.group(),
                    _ => false,
                },
                None => false,
            };
            if defines {
                found.push(Definition::Node(node));
            }
            i += 1;
        }
        found
    }

    /// The place `limit`, or the end of the scope if `limit` lies beyond
    /// it.
    pub open spec fn within(&self, limit: usize) -> int {
        if limit <= self.nodes@.len() {
            limit as int
        } else {
            self.nodes@.len() as int
        }
    }

    /// The last assignment to `target` that stands before the place
    /// `limit`; a limit beyond the scope counts as its end.
    pub fn assignment_before(&self, ast: &Ast, target: SpanRef, limit: usize) -> (at: Option<usize>)
        ensures
            match at {
                Some(a) => nearest_assignment(
                    ast@,
                    self.nodes@,
                    target.spec_group(),
                    self.within(limit),
                ) == Some(a as int) && a < self.within(limit),
                None => nearest_assignment(
                    ast@,
                    self.nodes@,
                    target.spec_group(),
                    self.within(limit),
                ).is_none(),
            },
    {
        let end = if limit <= self.nodes.len() {
            limit
        } else {
            self.nodes.len()
        };
        let mut i: usize = end;
        while i > 0
            invariant
                i <= end,
                end == self.within(limit),
                nearest_assignment(ast@, self.nodes@, target.spec_group(), end as int)
                    == nearest_assignment(ast@, self.nodes@, target.spec_group(), i as int),
            decreases i,
        {
            let node = self.nodes[i - 1];
            let hit = match ast.get(node) {
                Some(spanned) => match &spanned.inner {
                    AstNode::Assign(a) => a.name.group() == target.group(),
                    _ => false,
                },
                None => false,
            };
            if hit {
                return Some(i - 1);
            }
            i -= 1;
        }
        None
    }

    /// The definitions of `target` that count before the place `limit`, the
    /// nearest assignment first, followed by the builtins of that name. A
    /// limit beyond the scope counts as its end.
    pub fn lookup_before(&self, ast: &Ast, target: SpanRef, builtins: &Builtins, limit: usize) -> (found:
        Vec<Definition>)
        ensures
            found@ == visible_definitions(
                ast@,
                self.nodes@,
                target.spec_group(),
                self.within(limit),
            ) + renamed_builtins(builtins.entries@, target, builtins.entries@.len() as int),
    {
        let mut found: Vec<Definition> = Vec::new();
        match self.assignment_before(ast, target, limit) {
            Some(at) => {
                found.push(Definition::Node(self.nodes[at]));
            },
            None => {},
        }
        let ghost first = found@;
        let declared = self.defining(ast, target, false);
        let mut i: usize = 0;
        while i < declared.len()
            invariant
                i <= declared@.len(),
                found@ == first + declared@.subrange(0, i as int),
            decreases declared@.len() - i,
        {
            found.push(declared[i]);
            i += 1;
            assert(found@ =~= first + declared@.subrange(0, i as int));
        }
        assert(declared@.subrange(0, declared@.len() as int) =~= declared@);
        assert(found@ =~= visible_definitions(
            ast@,
            self.nodes@,
            target.spec_group(),
            self.within(limit),
        ));
        Self::renamed(builtins, target, &mut found);
        found
    }

    /// The definitions of the name `target`.
    ///
    /// Without an order these are all the assignments, functions and
    /// classes of that name in the scope, in source order. With
    /// [`LookupOrder::ControlFlowSensitive`] the only assignment that counts
    /// is the nearest one before the asking node, and it comes first; no
    /// assignment counts when the asking node does not stand in the scope.
    /// The builtins of that name follow in both cases.
    pub fn lookup_def(&self, ast: &Ast, target: SpanRef, builtins: &Builtins, order: LookupOrder) -> (found:
        Vec<Definition>)
        ensures
            found@ == (match order {
                LookupOrder::Unspecified => defining_nodes(
                    ast@,
                    self.nodes@,
                    target.spec_group(),
                    true,
                    self.nodes@.len() as int,
                ),
                LookupOrder::ControlFlowSensitive(node) => visible_definitions(
                    ast@,
                    self.nodes@,
                    target.spec_group(),
                    if position_from(self.nodes@, node, 0) < self.nodes@.len() {
                        position_from(self.nodes@, node, 0)
                    } else {
                        0
                    },
                ),
            }) + renamed_builtins(builtins.entries@, target, builtins.entries@.len() as int),
    {
        match order {
            LookupOrder::Unspecified => {
                let mut found = self.defining(ast, target, true);
                Self::renamed(builtins, target, &mut found);
                found
            },
            LookupOrder::ControlFlowSensitive(node) => {
                let at = self.position_of(node);
                let limit = if at < self.nodes.len() {
                    at
                } else {
                    0
                };
                self.lookup_before(ast, target, builtins, limit)
            },
        }
    }
}

/// An assignment that a control-flow-sensitive lookup finds stands before
/// the asking place, assigns to the name that was asked for, and no other
/// assignment to that name stands between the two.
pub proof fn lemma_nearest_assignment(
    ast: Seq<Spanned<AstNode>>,
    nodes: Seq<NodeId>,
    group: usize,
    limit: int,
)
    requires
        0 <= limit <= nodes.len(),
    ensures
        match nearest_assignment(ast, nodes, group, limit) {
            Some(at) => {
                &&& 0 <= at < limit
                &&& assigns(ast, nodes[at], group)
                &&& forall|k: int| at < k < limit ==> !assigns(ast, #[trigger] nodes[k], group)
            },
            None => forall|k: int| 0 <= k < limit ==> !assigns(ast, #[trigger] nodes[k], group),
        },
    decreases limit,
{
    if limit > 0 && !assigns(ast, nodes[limit - 1], group) {
        lemma_nearest_assignment(ast, nodes, group, limit - 1);
    }
}

} // verus!
