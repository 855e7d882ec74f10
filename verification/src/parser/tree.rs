//! The syntax tree as the parser builds it: a value of its own, before its
//! nodes are entered into the arena.

use crate::ast::{
    Argument, Assign, Ast, AstNode, ClassDef, FloatLiteral, FunctionDef, IfChain, Import, InfixOp,
    NodeId, Return, Spanned, While,
};
use crate::span::{Span, SpanRef};
use vstd::prelude::*;

verus! {

/// A piece of syntax and the place where it stands.
#[derive(Debug, PartialEq, Eq)]
pub struct Tree {
    pub span: Span,
    pub kind: Kind,
}

/// What a piece of syntax is.
#[derive(Debug, PartialEq, Eq)]
pub enum Kind {
    Int(i64),
    Float(FloatLiteral),
    Str(SpanRef),
    Bool(bool),
    NoneLiteral,
    Ellipsis,
    Name(SpanRef),
    Comment(SpanRef),
    Tuple(Forest),
    BinOp { left: Box<Tree>, op: InfixOp, right: Box<Tree> },
    IfExpr { test: Box<Tree>, body: Box<Tree>, orelse: Box<Tree> },
    Call { func: Box<Tree>, args: Forest },
    Attr { left: Box<Tree>, attr: SpanRef },
    Pass,
    Ret(Option<Box<Tree>>),
    Assign { name: SpanRef, kind: Option<Box<Tree>>, value: Box<Tree> },
    Import { module: Option<Box<Tree>>, names: Forest },
    FuncDef {
        name: SpanRef,
        reciever: Option<SpanRef>,
        args: Params,
        returns: Option<Box<Tree>>,
        body: Forest,
        decorator_list: Forest,
    },
    ClassDef { name: SpanRef, decorator_list: Forest, body: Forest },
    If { test: Box<Tree>, body: Forest, orelse: Forest },
    While { test: Box<Tree>, body: Forest },
}

/// A list of pieces of syntax.
#[derive(Debug, PartialEq, Eq)]
pub enum Forest {
    Nil,
    Cons(Box<Tree>, Box<Forest>),
}

/// The parameters of a function: each with its name and its annotation.
#[derive(Debug, PartialEq, Eq)]
pub enum Params {
    Nil,
    Cons(SpanRef, Box<Tree>, Box<Params>),
}

/// The tree below an optional node.
#[verifier::opaque]
pub open spec fn optional_tree(nodes: Seq<Spanned<AstNode>>, node: Option<NodeId>, bound: int) -> Option<
    Option<Box<Tree>>,
>
    decreases 2 * bound, 0int,
{
    match node {
        None => Some(None),
        Some(n) => if n < bound {
            match tree_of(nodes, n as int) {
                Some(t) => Some(Some(Box::new(t))),
                None => None,
            }
        } else {
            None
        },
    }
}

/// The tree that the node `node` of the arena stands for; `None` for a
/// node that is not there, that names a part which does not stand before
/// it, or that the parser never builds.
#[verifier::opaque]
pub open spec fn tree_of(nodes: Seq<Spanned<AstNode>>, node: int) -> Option<Tree>
    decreases 2 * node + 1, 0int,
{
    if node < 0 || node >= nodes.len() {
        None
    } else {
        let span = nodes[node].span;
        match nodes[node].inner {
            AstNode::Int(n) => Some(Tree { span, kind: Kind::Int(n) }),
            AstNode::Float(f) => Some(Tree { span, kind: Kind::Float(f) }),
            AstNode::Str(s) => Some(Tree { span, kind: Kind::Str(s) }),
            AstNode::Bool(b) => Some(Tree { span, kind: Kind::Bool(b) }),
            AstNode::NoneLiteral => Some(Tree { span, kind: Kind::NoneLiteral }),
            AstNode::Ellipsis => Some(Tree { span, kind: Kind::Ellipsis }),
            AstNode::Name(n) => Some(Tree { span, kind: Kind::Name(n) }),
            AstNode::Comment(c) => Some(Tree { span, kind: Kind::Comment(c) }),
            AstNode::Pass => Some(Tree { span, kind: Kind::Pass }),
            AstNode::Tuple(elements) => match forest_of(nodes, elements@, node, 0) {
                Some(f) => Some(Tree { span, kind: Kind::Tuple(f) }),
                None => None,
            },
            AstNode::BinOp { left, op, right } => if left < node && right < node {
                match (tree_of(nodes, left as int), tree_of(nodes, right as int)) {
                    (Some(l), Some(r)) => Some(
                        Tree {
                            span,
                            kind: Kind::BinOp { left: Box::new(l), op, right: Box::new(r) },
                        },
                    ),
                    _ => None,
                }
            } else {
                None
            },
            AstNode::IfExpr { test, body, orelse } => if test < node && body < node && orelse
                < node {
                match (
                    tree_of(nodes, test as int),
                    tree_of(nodes, body as int),
                    tree_of(nodes, orelse as int),
                ) {
                    (Some(t), Some(b), Some(o)) => Some(
                        Tree {
                            span,
                            kind: Kind::IfExpr {
                                test: Box::new(t),
                                body: Box::new(b),
                                orelse: Box::new(o),
                            },
                        },
                    ),
                    _ => None,
                }
            } else {
                None
            },
            AstNode::Call { func, args } => if func < node {
                match (tree_of(nodes, func as int), forest_of(nodes, args@, node, 0)) {
                    (Some(f), Some(a)) => Some(
                        Tree { span, kind: Kind::Call { func: Box::new(f), args: a } },
                    ),
                    _ => None,
                }
            } else {
                None
            },
            AstNode::Attr { left, attr } => if left < node {
                match tree_of(nodes, left as int) {
                    Some(l) => Some(Tree { span, kind: Kind::Attr { left: Box::new(l), attr } }),
                    None => None,
                }
            } else {
                None
            },
            AstNode::Ret(r) => match optional_tree(nodes, r.value, node) {
                Some(v) => Some(Tree { span, kind: Kind::Ret(v) }),
                None => None,
            },
            AstNode::Assign(a) => if a.value < node {
                match (tree_of(nodes, a.value as int), optional_tree(nodes, a.kind, node)) {
                    (Some(v), Some(k)) => Some(
                        Tree {
                            span,
                            kind: Kind::Assign { name: a.name, kind: k, value: Box::new(v) },
                        },
                    ),
                    _ => None,
                }
            } else {
                None
            },
            AstNode::Import(i) => match (
                optional_tree(nodes, i.module, node),
                forest_of(nodes, i.names@, node, 0),
            ) {
                (Some(m), Some(n)) => Some(Tree { span, kind: Kind::Import { module: m, names: n } }),
                _ => None,
            },
            AstNode::FuncDef(f) => match (
                params_of(nodes, f.args@, node, 0),
                optional_tree(nodes, f.returns, node),
                forest_of(nodes, f.body@, node, 0),
                forest_of(nodes, f.decorator_list@, node, 0),
            ) {
                (Some(args), Some(annotation), Some(body), Some(decorator_list)) => Some(
                    Tree {
                        span,
                        kind: Kind::FuncDef {
                            name: f.name,
                            reciever: f.reciever,
                            args,
                            returns: annotation,
                            body,
                            decorator_list,
                        },
                    },
                ),
                _ => None,
            },
            AstNode::ClassDef(c) => match (
                forest_of(nodes, c.decorator_list@, node, 0),
                forest_of(nodes, c.body@, node, 0),
            ) {
                (Some(decorator_list), Some(body)) => Some(
                    Tree { span, kind: Kind::ClassDef { name: c.name, decorator_list, body } },
                ),
                _ => None,
            },
            AstNode::If(i) => if i.test < node {
                match (
                    tree_of(nodes, i.test as int),
                    forest_of(nodes, i.body@, node, 0),
                    forest_of(nodes, i.orelse@, node, 0),
                ) {
                    (Some(t), Some(body), Some(orelse)) => Some(
                        Tree { span, kind: Kind::If { test: Box::new(t), body, orelse } },
                    ),
                    _ => None,
                }
            } else {
                None
            },
            AstNode::While(w) => if w.test < node {
                match (tree_of(nodes, w.test as int), forest_of(nodes, w.body@, node, 0)) {
                    (Some(t), Some(body)) => Some(
                        Tree { span, kind: Kind::While { test: Box::new(t), body } },
                    ),
                    _ => None,
                }
            } else {
                None
            },
            _ => None,
        }
    }
}

/// The trees that the nodes `ids`, from the place `k` on, stand for.
#[verifier::opaque]
pub open spec fn forest_of(nodes: Seq<Spanned<AstNode>>, ids: Seq<NodeId>, bound: int, k: int) -> Option<
    Forest,
>
    decreases 2 * bound, ids.len() - k,
{
    if k < 0 || k >= ids.len() {
        Some(Forest::Nil)
    } else if ids[k] >= bound {
        None
    } else {
        match (tree_of(nodes, ids[k] as int), forest_of(nodes, ids, bound, k + 1)) {
            (Some(t), Some(f)) => Some(Forest::Cons(Box::new(t), Box::new(f))),
            _ => None,
        }
    }
}

/// The parameters that the arguments `args`, from the place `k` on, stand
/// for.
#[verifier::opaque]
pub open spec fn params_of(nodes: Seq<Spanned<AstNode>>, args: Seq<Argument>, bound: int, k: int) -> Option<
    Params,
>
    decreases 2 * bound, args.len() - k,
{
    if k < 0 || k >= args.len() {
        Some(Params::Nil)
    } else if args[k].kind >= bound {
        None
    } else {
        match (tree_of(nodes, args[k].kind as int), params_of(nodes, args, bound, k + 1)) {
            (Some(t), Some(p)) => Some(Params::Cons(args[k].name, Box::new(t), Box::new(p))),
            _ => None,
        }
    }
}

/// Whether the piece of syntax has no parts.
pub open spec fn is_leaf(kind: Kind) -> bool {
    kind is Int || kind is Float || kind is Str || kind is Bool || kind is NoneLiteral
        || kind is Ellipsis || kind is Name || kind is Comment || kind is Pass
}

/// A node stands for the same tree after more nodes have been added.
pub proof fn lemma_tree_stable(a: Seq<Spanned<AstNode>>, b: Seq<Spanned<AstNode>>, node: int)
    requires
        a.is_prefix_of(b),
        0 <= node < a.len(),
    ensures
        tree_of(b, node) == tree_of(a, node),
    decreases 2 * node + 1, 0int,
{
    reveal(tree_of);
    reveal(forest_of);
    reveal(params_of);
    reveal(optional_tree);
    assert(b[node] == a[node]);
    match a[node].inner {
        AstNode::Tuple(elements) => {
            lemma_forest_stable(a, b, elements@, node, 0);
        },
        AstNode::BinOp { left, op, right } => {
            if left < node && right < node {
                lemma_tree_stable(a, b, left as int);
                lemma_tree_stable(a, b, right as int);
            }
        },
        AstNode::IfExpr { test, body, orelse } => {
            if test < node && body < node && orelse < node {
                lemma_tree_stable(a, b, test as int);
                lemma_tree_stable(a, b, body as int);
                lemma_tree_stable(a, b, orelse as int);
            }
        },
        AstNode::Call { func, args } => {
            if func < node {
                lemma_tree_stable(a, b, func as int);
                lemma_forest_stable(a, b, args@, node, 0);
            }
        },
        AstNode::Attr { left, attr } => {
            if left < node {
                lemma_tree_stable(a, b, left as int);
            }
        },
        AstNode::Ret(r) => {
            lemma_optional_stable(a, b, r.value, node);
        },
        AstNode::Assign(x) => {
            if x.value < node {
                lemma_tree_stable(a, b, x.value as int);
                lemma_optional_stable(a, b, x.kind, node);
            }
        },
        AstNode::Import(i) => {
            lemma_optional_stable(a, b, i.module, node);
            lemma_forest_stable(a, b, i.names@, node, 0);
        },
        AstNode::FuncDef(f) => {
            lemma_params_stable(a, b, f.args@, node, 0);
            lemma_optional_stable(a, b, f.returns, node);
            lemma_forest_stable(a, b, f.body@, node, 0);
            lemma_forest_stable(a, b, f.decorator_list@, node, 0);
        },
        AstNode::ClassDef(c) => {
            lemma_forest_stable(a, b, c.decorator_list@, node, 0);
            lemma_forest_stable(a, b, c.body@, node, 0);
        },
        AstNode::If(i) => {
            if i.test < node {
                lemma_tree_stable(a, b, i.test as int);
                lemma_forest_stable(a, b, i.body@, node, 0);
                lemma_forest_stable(a, b, i.orelse@, node, 0);
            }
        },
        AstNode::While(w) => {
            if w.test < node {
                lemma_tree_stable(a, b, w.test as int);
                lemma_forest_stable(a, b, w.body@, node, 0);
            }
        },
        _ => {},
    }
}

proof fn lemma_optional_stable(
    a: Seq<Spanned<AstNode>>,
    b: Seq<Spanned<AstNode>>,
    node: Option<NodeId>,
    bound: int,
)
    requires
        a.is_prefix_of(b),
        0 <= bound <= a.len(),
    ensures
        optional_tree(b, node, bound) == optional_tree(a, node, bound),
    decreases 2 * bound, 0int,
{
    reveal(tree_of);
    reveal(forest_of);
    reveal(params_of);
    reveal(optional_tree);
    match node {
        Some(n) => {
            if n < bound {
                lemma_tree_stable(a, b, n as int);
            }
        },
        None => {},
    }
}

proof fn lemma_forest_stable(
    a: Seq<Spanned<AstNode>>,
    b: Seq<Spanned<AstNode>>,
    ids: Seq<NodeId>,
    bound: int,
    k: int,
)
    requires
        a.is_prefix_of(b),
        0 <= bound <= a.len(),
    ensures
        forest_of(b, ids, bound, k) == forest_of(a, ids, bound, k),
    decreases 2 * bound, ids.len() - k,
{
    reveal(tree_of);
    reveal(forest_of);
    reveal(params_of);
    reveal(optional_tree);
    if 0 <= k < ids.len() && ids[k] < bound {
        lemma_tree_stable(a, b, ids[k] as int);
        lemma_forest_stable(a, b, ids, bound, k + 1);
    }
}

proof fn lemma_params_stable(
    a: Seq<Spanned<AstNode>>,
    b: Seq<Spanned<AstNode>>,
    args: Seq<Argument>,
    bound: int,
    k: int,
)
    requires
        a.is_prefix_of(b),
        0 <= bound <= a.len(),
    ensures
        params_of(b, args, bound, k) == params_of(a, args, bound, k),
    decreases 2 * bound, args.len() - k,
{
    reveal(tree_of);
    reveal(forest_of);
    reveal(params_of);
    reveal(optional_tree);
    if 0 <= k < args.len() && args[k].kind < bound {
        lemma_tree_stable(a, b, args[k].kind as int);
        lemma_params_stable(a, b, args, bound, k + 1);
    }
}

proof fn lemma_optional_bound(nodes: Seq<Spanned<AstNode>>, node: Option<NodeId>, one: int, other: int)
    requires
        node.is_some() ==> node.unwrap() < one && node.unwrap() < other,
    ensures
        optional_tree(nodes, node, one) == optional_tree(nodes, node, other),
{
    reveal(optional_tree);
}

proof fn lemma_forest_bound(
    nodes: Seq<Spanned<AstNode>>,
    ids: Seq<NodeId>,
    one: int,
    other: int,
    k: int,
)
    requires
        forall|i: int| 0 <= i < ids.len() ==> ids[i] < one && ids[i] < other,
    ensures
        forest_of(nodes, ids, one, k) == forest_of(nodes, ids, other, k),
    decreases ids.len() - k,
{
    reveal(tree_of);
    reveal(forest_of);
    reveal(params_of);
    reveal(optional_tree);
    if 0 <= k < ids.len() {
        lemma_forest_bound(nodes, ids, one, other, k + 1);
    }
}

proof fn lemma_params_bound(
    nodes: Seq<Spanned<AstNode>>,
    args: Seq<Argument>,
    one: int,
    other: int,
    k: int,
)
    requires
        forall|i: int| 0 <= i < args.len() ==> args[i].kind < one && args[i].kind < other,
    ensures
        params_of(nodes, args, one, k) == params_of(nodes, args, other, k),
    decreases args.len() - k,
{
    reveal(tree_of);
    reveal(forest_of);
    reveal(params_of);
    reveal(optional_tree);
    if 0 <= k < args.len() {
        lemma_params_bound(nodes, args, one, other, k + 1);
    }
}

proof fn lemma_forest_shift(
    nodes: Seq<Spanned<AstNode>>,
    first: NodeId,
    rest: Seq<NodeId>,
    bound: int,
    k: int,
)
    requires
        0 <= k,
    ensures
        forest_of(nodes, seq![first] + rest, bound, k + 1) == forest_of(nodes, rest, bound, k),
    decreases rest.len() - k,
{
    reveal(tree_of);
    reveal(forest_of);
    reveal(params_of);
    reveal(optional_tree);
    let ids = seq![first] + rest;
    if k < rest.len() {
        assert(ids[k + 1] == rest[k]);
        lemma_forest_shift(nodes, first, rest, bound, k + 1);
    }
}

proof fn lemma_params_shift(
    nodes: Seq<Spanned<AstNode>>,
    first: Argument,
    rest: Seq<Argument>,
    bound: int,
    k: int,
)
    requires
        0 <= k,
    ensures
        params_of(nodes, seq![first] + rest, bound, k + 1) == params_of(nodes, rest, bound, k),
    decreases rest.len() - k,
{
    reveal(tree_of);
    reveal(forest_of);
    reveal(params_of);
    reveal(optional_tree);
    let args = seq![first] + rest;
    if k < rest.len() {
        assert(args[k + 1] == rest[k]);
        lemma_params_shift(nodes, first, rest, bound, k + 1);
    }
}

/// The span that reaches from the start of one span to the end of another.
pub fn cover(from: Span, to: Span) -> (span: Span)
    ensures
        span == (Span { start: from.start, end: to.end }),
{
    Span { start: from.start, end: to.end }
}

impl Ast {
    fn push_node(&mut self, node: AstNode, span: Span) -> (id: NodeId)
        requires
            old(self).wf(),
            node.children_below(old(self)@.len() as int),
        ensures
            final(self).wf(),
            id == old(self)@.len(),
            final(self)@ == old(self)@.push(Spanned { span, inner: node }),
            old(self)@.is_prefix_of(final(self)@),
    {
        let length = self.len();
        match self.add(node, span) {
            Some(id) => id,
            None => {
                proof {
                    assert(false);
                }
                0
            },
        }
    }

    /// Enters the trees of a list into the arena, one after the other, and
    /// gives the numbers of their nodes.
    pub fn add_forest(&mut self, forest: &Forest) -> (ids: Vec<NodeId>)
        requires
            old(self).wf(),
        ensures
            final(self).wf(),
            old(self)@.is_prefix_of(final(self)@),
            forall|i: int| 0 <= i < ids@.len() ==> ids@[i] < final(self)@.len(),
            forest_of(final(self)@, ids@, final(self)@.len() as int, 0) == Some(*forest),
        decreases forest,
    {
        match forest {
            Forest::Nil => {
                proof {
                    reveal(forest_of);
                }
                Vec::new()
            },
            Forest::Cons(first, rest) => {
                let id = self.add_tree(first);
                let ghost middle = self@;
                let mut ids = self.add_forest(rest);
                let ghost others = ids@;
                ids.insert(0, id);
                proof {
                    reveal(forest_of);
                    let nodes = self@;
                    let bound = nodes.len() as int;
                    assert(ids@ =~= seq![id] + others);
                    lemma_tree_stable(middle, nodes, id as int);
                    lemma_forest_shift(nodes, id, others, bound, 0);
                    assert(ids@[0] == id);
                    assert(tree_of(nodes, id as int) == Some(**first));
                    assert(forest_of(nodes, ids@, bound, 1) == Some(**rest));
                    assert(forest_of(nodes, ids@, bound, 0) == Some(
                        Forest::Cons(Box::new(**first), Box::new(**rest)),
                    )) by {
                        reveal(forest_of);
                        reveal(tree_of);
                    }
                }
                ids
            },
        }
    }

    fn add_params(&mut self, params: &Params) -> (args: Vec<Argument>)
        requires
            old(self).wf(),
        ensures
            final(self).wf(),
            old(self)@.is_prefix_of(final(self)@),
            forall|i: int| 0 <= i < args@.len() ==> args@[i].kind < final(self)@.len(),
            params_of(final(self)@, args@, final(self)@.len() as int, 0) == Some(*params),
        decreases params,
    {
        match params {
            Params::Nil => {
                proof {
                    reveal(params_of);
                }
                Vec::new()
            },
            Params::Cons(name, kind, rest) => {
                let id = self.add_tree(kind);
                let ghost middle = self@;
                let mut args = self.add_params(rest);
                let ghost others = args@;
                let first = Argument { name: *name, kind: id };
                args.insert(0, first);
                proof {
                    reveal(params_of);
                    let nodes = self@;
                    let bound = nodes.len() as int;
                    assert(args@ =~= seq![first] + others);
                    lemma_tree_stable(middle, nodes, id as int);
                    lemma_params_shift(nodes, first, others, bound, 0);
                    assert(args@[0] == first);
                    assert(tree_of(nodes, id as int) == Some(**kind));
                    assert(params_of(nodes, args@, bound, 1) == Some(**rest));
                    assert(params_of(nodes, args@, bound, 0) == Some(
                        Params::Cons(*name, Box::new(**kind), Box::new(**rest)),
                    )) by {
                        reveal(params_of);
                        reveal(tree_of);
                    }
                }
                args
            },
        }
    }

    fn add_optional(&mut self, tree: &Option<Box<Tree>>) -> (id: Option<NodeId>)
        requires
            old(self).wf(),
        ensures
            final(self).wf(),
            old(self)@.is_prefix_of(final(self)@),
            id.is_some() ==> id.unwrap() < final(self)@.len(),
            optional_tree(final(self)@, id, final(self)@.len() as int) == Some(*tree),
        decreases tree,
    {
        match tree {
            Some(t) => {
                let id = self.add_tree(t);
                proof {
                    assert(tree_of(self@, id as int) == Some(**t));
                    assert(optional_tree(self@, Some(id), self@.len() as int) == Some(
                        Some(Box::new(**t)),
                    )) by {
                        reveal(optional_tree);
                        reveal(tree_of);
                    }
                }
                Some(id)
            },
            None => {
                proof {
                    reveal(optional_tree);
                }
                None
            },
        }
    }

    fn add_leaf(&mut self, span: Span, kind: &Kind) -> (id: NodeId)
        requires
            old(self).wf(),
            is_leaf(*kind),
        ensures
            final(self).wf(),
            old(self)@.is_prefix_of(final(self)@),
            id == old(self)@.len(),
            final(self)@.len() == old(self)@.len() + 1,
            tree_of(final(self)@, id as int) == Some(Tree { span, kind: *kind }),
    {
        proof {
            reveal(tree_of);
        }
        match kind {
            Kind::Int(n) => self.push_node(AstNode::Int(*n), span),
            Kind::Float(f) => self.push_node(AstNode::Float(*f), span),
            Kind::Str(s) => self.push_node(AstNode::Str(*s), span),
            Kind::Bool(b) => self.push_node(AstNode::Bool(*b), span),
            Kind::NoneLiteral => self.push_node(AstNode::NoneLiteral, span),
            Kind::Ellipsis => self.push_node(AstNode::Ellipsis, span),
            Kind::Name(n) => self.push_node(AstNode::Name(*n), span),
            Kind::Comment(c) => self.push_node(AstNode::Comment(*c), span),
            _ => self.push_node(AstNode::Pass, span),
        }
    }

    fn finish_tuple(&mut self, span: Span, ids: Vec<NodeId>) -> (id: NodeId)
        requires
            old(self).wf(),
            forall|i: int| 0 <= i < ids@.len() ==> ids@[i] < old(self)@.len(),
            forest_of(old(self)@, ids@, old(self)@.len() as int, 0).is_some(),
        ensures
            final(self).wf(),
            old(self)@.is_prefix_of(final(self)@),
            id == old(self)@.len(),
            final(self)@.len() == old(self)@.len() + 1,
            tree_of(final(self)@, id as int) == Some(
                Tree {
                    span,
                    kind: Kind::Tuple(
                        forest_of(old(self)@, ids@, old(self)@.len() as int, 0).unwrap(),
                    ),
                },
            ),
    {
        let ghost before = self@;
        let ghost elements = ids@;
        let id = self.push_node(AstNode::Tuple(ids), span);
        proof {
            reveal(tree_of);
            reveal(forest_of);
            reveal(params_of);
            reveal(optional_tree);
            lemma_forest_stable(before, self@, elements, before.len() as int, 0);
        }
        id
    }

    fn finish_binop(&mut self, span: Span, left: NodeId, op: InfixOp, right: NodeId) -> (id: NodeId)
        requires
            old(self).wf(),
            left < old(self)@.len(),
            right < old(self)@.len(),
            tree_of(old(self)@, left as int).is_some(),
            tree_of(old(self)@, right as int).is_some(),
        ensures
            final(self).wf(),
            old(self)@.is_prefix_of(final(self)@),
            id == old(self)@.len(),
            final(self)@.len() == old(self)@.len() + 1,
            tree_of(final(self)@, id as int) == Some(
                Tree {
                    span,
                    kind: Kind::BinOp {
                        left: Box::new(tree_of(old(self)@, left as int).unwrap()),
                        op,
                        right: Box::new(tree_of(old(self)@, right as int).unwrap()),
                    },
                },
            ),
    {
        let ghost before = self@;
        let id = self.push_node(AstNode::BinOp { left, op, right }, span);
        proof {
            reveal(tree_of);
            reveal(forest_of);
            reveal(params_of);
            reveal(optional_tree);
            lemma_tree_stable(before, self@, left as int);
            lemma_tree_stable(before, self@, right as int);
        }
        id
    }

    fn finish_ifexpr(&mut self, span: Span, test: NodeId, body: NodeId, orelse: NodeId) -> (id:
        NodeId)
        requires
            old(self).wf(),
            test < old(self)@.len(),
            body < old(self)@.len(),
            orelse < old(self)@.len(),
            tree_of(old(self)@, test as int).is_some(),
            tree_of(old(self)@, body as int).is_some(),
            tree_of(old(self)@, orelse as int).is_some(),
        ensures
            final(self).wf(),
            old(self)@.is_prefix_of(final(self)@),
            id == old(self)@.len(),
            final(self)@.len() == old(self)@.len() + 1,
            tree_of(final(self)@, id as int) == Some(
                Tree {
                    span,
                    kind: Kind::IfExpr {
                        test: Box::new(tree_of(old(self)@, test as int).unwrap()),
                        body: Box::new(tree_of(old(self)@, body as int).unwrap()),
                        orelse: Box::new(tree_of(old(self)@, orelse as int).unwrap()),
                    },
                },
            ),
    {
        let ghost before = self@;
        let id = self.push_node(AstNode::IfExpr { test, body, orelse }, span);
        proof {
            reveal(tree_of);
            reveal(forest_of);
            reveal(params_of);
            reveal(optional_tree);
            lemma_tree_stable(before, self@, test as int);
            lemma_tree_stable(before, self@, body as int);
            lemma_tree_stable(before, self@, orelse as int);
        }
        id
    }

    fn finish_call(&mut self, span: Span, func: NodeId, args: Vec<NodeId>) -> (id: NodeId)
        requires
            old(self).wf(),
            func < old(self)@.len(),
            tree_of(old(self)@, func as int).is_some(),
            forall|i: int| 0 <= i < args@.len() ==> args@[i] < old(self)@.len(),
            forest_of(old(self)@, args@, old(self)@.len() as int, 0).is_some(),
        ensures
            final(self).wf(),
            old(self)@.is_prefix_of(final(self)@),
            id == old(self)@.len(),
            final(self)@.len() == old(self)@.len() + 1,
            tree_of(final(self)@, id as int) == Some(
                Tree {
                    span,
                    kind: Kind::Call {
                        func: Box::new(tree_of(old(self)@, func as int).unwrap()),
                        args: forest_of(old(self)@, args@, old(self)@.len() as int, 0).unwrap(),
                    },
                },
            ),
    {
        let ghost before = self@;
        let ghost ids = args@;
        let id = self.push_node(AstNode::Call { func, args }, span);
        proof {
            reveal(tree_of);
            reveal(forest_of);
            reveal(params_of);
            reveal(optional_tree);
            lemma_tree_stable(before, self@, func as int);
            lemma_forest_stable(before, self@, ids, before.len() as int, 0);
        }
        id
    }

    fn finish_attr(&mut self, span: Span, left: NodeId, attr: SpanRef) -> (id: NodeId)
        requires
            old(self).wf(),
            left < old(self)@.len(),
            tree_of(old(self)@, left as int).is_some(),
        ensures
            final(self).wf(),
            old(self)@.is_prefix_of(final(self)@),
            id == old(self)@.len(),
            final(self)@.len() == old(self)@.len() + 1,
            tree_of(final(self)@, id as int) == Some(
                Tree {
                    span,
                    kind: Kind::Attr {
                        left: Box::new(tree_of(old(self)@, left as int).unwrap()),
                        attr,
                    },
                },
            ),
    {
        let ghost before = self@;
        let id = self.push_node(AstNode::Attr { left, attr }, span);
        proof {
            reveal(tree_of);
            reveal(forest_of);
            reveal(params_of);
            reveal(optional_tree);
            lemma_tree_stable(before, self@, left as int);
        }
        id
    }

    fn finish_return(&mut self, span: Span, value: Option<NodeId>) -> (id: NodeId)
        requires
            old(self).wf(),
            value.is_some() ==> value.unwrap() < old(self)@.len(),
            optional_tree(old(self)@, value, old(self)@.len() as int).is_some(),
        ensures
            final(self).wf(),
            old(self)@.is_prefix_of(final(self)@),
            id == old(self)@.len(),
            final(self)@.len() == old(self)@.len() + 1,
            tree_of(final(self)@, id as int) == Some(
                Tree {
                    span,
                    kind: Kind::Ret(
                        optional_tree(old(self)@, value, old(self)@.len() as int).unwrap(),
                    ),
                },
            ),
    {
        let ghost before = self@;
        let id = self.push_node(AstNode::Ret(Return { value }), span);
        proof {
            reveal(tree_of);
            reveal(forest_of);
            reveal(params_of);
            reveal(optional_tree);
            lemma_optional_stable(before, self@, value, before.len() as int);
        }
        id
    }

    fn finish_assign(&mut self, span: Span, name: SpanRef, value: NodeId, kind: Option<NodeId>) -> (id:
        NodeId)
        requires
            old(self).wf(),
            value < old(self)@.len(),
            tree_of(old(self)@, value as int).is_some(),
            kind.is_some() ==> kind.unwrap() < old(self)@.len(),
            optional_tree(old(self)@, kind, old(self)@.len() as int).is_some(),
        ensures
            final(self).wf(),
            old(self)@.is_prefix_of(final(self)@),
            id == old(self)@.len(),
            final(self)@.len() == old(self)@.len() + 1,
            tree_of(final(self)@, id as int) == Some(
                Tree {
                    span,
                    kind: Kind::Assign {
                        name,
                        kind: optional_tree(old(self)@, kind, old(self)@.len() as int).unwrap(),
                        value: Box::new(tree_of(old(self)@, value as int).unwrap()),
                    },
                },
            ),
    {
        let ghost before = self@;
        let id = self.push_node(AstNode::Assign(Assign { name, value, kind }), span);
        proof {
            reveal(tree_of);
            reveal(forest_of);
            reveal(params_of);
            reveal(optional_tree);
            lemma_tree_stable(before, self@, value as int);
            lemma_optional_stable(before, self@, kind, before.len() as int);
        }
        id
    }

    fn finish_import(&mut self, span: Span, module: Option<NodeId>, names: Vec<NodeId>) -> (id:
        NodeId)
        requires
            old(self).wf(),
            module.is_some() ==> module.unwrap() < old(self)@.len(),
            optional_tree(old(self)@, module, old(self)@.len() as int).is_some(),
            forall|i: int| 0 <= i < names@.len() ==> names@[i] < old(self)@.len(),
            forest_of(old(self)@, names@, old(self)@.len() as int, 0).is_some(),
        ensures
            final(self).wf(),
            old(self)@.is_prefix_of(final(self)@),
            id == old(self)@.len(),
            final(self)@.len() == old(self)@.len() + 1,
            tree_of(final(self)@, id as int) == Some(
                Tree {
                    span,
                    kind: Kind::Import {
                        module: optional_tree(old(self)@, module, old(self)@.len() as int).unwrap(),
                        names: forest_of(old(self)@, names@, old(self)@.len() as int, 0).unwrap(),
                    },
                },
            ),
    {
        let ghost before = self@;
        let ghost ids = names@;
        let id = self.push_node(AstNode::Import(Import { module, names }), span);
        proof {
            reveal(tree_of);
            reveal(forest_of);
            reveal(params_of);
            reveal(optional_tree);
            lemma_optional_stable(before, self@, module, before.len() as int);
            lemma_forest_stable(before, self@, ids, before.len() as int, 0);
        }
        id
    }

    fn finish_funcdef(
        &mut self,
        span: Span,
        name: SpanRef,
        reciever: Option<SpanRef>,
        args: Vec<Argument>,
        annotation: Option<NodeId>,
        body: Vec<NodeId>,
        decorator_list: Vec<NodeId>,
    ) -> (id: NodeId)
        requires
            old(self).wf(),
            forall|i: int| 0 <= i < args@.len() ==> args@[i].kind < old(self)@.len(),
            params_of(old(self)@, args@, old(self)@.len() as int, 0).is_some(),
            annotation.is_some() ==> annotation.unwrap() < old(self)@.len(),
            optional_tree(old(self)@, annotation, old(self)@.len() as int).is_some(),
            forall|i: int| 0 <= i < body@.len() ==> body@[i] < old(self)@.len(),
            forest_of(old(self)@, body@, old(self)@.len() as int, 0).is_some(),
            forall|i: int| 0 <= i < decorator_list@.len() ==> decorator_list@[i] < old(self)@.len(),
            forest_of(old(self)@, decorator_list@, old(self)@.len() as int, 0).is_some(),
        ensures
            final(self).wf(),
            old(self)@.is_prefix_of(final(self)@),
            id == old(self)@.len(),
            final(self)@.len() == old(self)@.len() + 1,
            tree_of(final(self)@, id as int) == Some(
                Tree {
                    span,
                    kind: Kind::FuncDef {
                        name,
                        reciever,
                        args: params_of(old(self)@, args@, old(self)@.len() as int, 0).unwrap(),
                        returns: optional_tree(
                            old(self)@,
                            annotation,
                            old(self)@.len() as int,
                        ).unwrap(),
                        body: forest_of(old(self)@, body@, old(self)@.len() as int, 0).unwrap(),
                        decorator_list: forest_of(
                            old(self)@,
                            decorator_list@,
                            old(self)@.len() as int,
                            0,
                        ).unwrap(),
                    },
                },
            ),
    {
        let ghost before = self@;
        let ghost a = args@;
        let ghost b = body@;
        let ghost d = decorator_list@;
        let id = self.push_node(
            AstNode::FuncDef(
                FunctionDef { name, reciever, args, body, decorator_list, returns: annotation },
            ),
            span,
        );
        proof {
            reveal(tree_of);
            reveal(forest_of);
            reveal(params_of);
            reveal(optional_tree);
            lemma_params_stable(before, self@, a, before.len() as int, 0);
            lemma_optional_stable(before, self@, annotation, before.len() as int);
            lemma_forest_stable(before, self@, b, before.len() as int, 0);
            lemma_forest_stable(before, self@, d, before.len() as int, 0);
        }
        id
    }

    fn finish_classdef(
        &mut self,
        span: Span,
        name: SpanRef,
        decorator_list: Vec<NodeId>,
        body: Vec<NodeId>,
    ) -> (id: NodeId)
        requires
            old(self).wf(),
            forall|i: int| 0 <= i < body@.len() ==> body@[i] < old(self)@.len(),
            forest_of(old(self)@, body@, old(self)@.len() as int, 0).is_some(),
            forall|i: int| 0 <= i < decorator_list@.len() ==> decorator_list@[i] < old(self)@.len(),
            forest_of(old(self)@, decorator_list@, old(self)@.len() as int, 0).is_some(),
        ensures
            final(self).wf(),
            old(self)@.is_prefix_of(final(self)@),
            id == old(self)@.len(),
            final(self)@.len() == old(self)@.len() + 1,
            tree_of(final(self)@, id as int) == Some(
                Tree {
                    span,
                    kind: Kind::ClassDef {
                        name,
                        decorator_list: forest_of(
                            old(self)@,
                            decorator_list@,
                            old(self)@.len() as int,
                            0,
                        ).unwrap(),
                        body: forest_of(old(self)@, body@, old(self)@.len() as int, 0).unwrap(),
                    },
                },
            ),
    {
        let ghost before = self@;
        let ghost b = body@;
        let ghost d = decorator_list@;
        let id = self.push_node(AstNode::ClassDef(ClassDef { name, decorator_list, body }), span);
        proof {
            reveal(tree_of);
            reveal(forest_of);
            reveal(params_of);
            reveal(optional_tree);
            lemma_forest_stable(before, self@, b, before.len() as int, 0);
            lemma_forest_stable(before, self@, d, before.len() as int, 0);
        }
        id
    }

    fn finish_if(&mut self, span: Span, test: NodeId, body: Vec<NodeId>, orelse: Vec<NodeId>) -> (id:
        NodeId)
        requires
            old(self).wf(),
            test < old(self)@.len(),
            tree_of(old(self)@, test as int).is_some(),
            forall|i: int| 0 <= i < body@.len() ==> body@[i] < old(self)@.len(),
            forest_of(old(self)@, body@, old(self)@.len() as int, 0).is_some(),
            forall|i: int| 0 <= i < orelse@.len() ==> orelse@[i] < old(self)@.len(),
            forest_of(old(self)@, orelse@, old(self)@.len() as int, 0).is_some(),
        ensures
            final(self).wf(),
            old(self)@.is_prefix_of(final(self)@),
            id == old(self)@.len(),
            final(self)@.len() == old(self)@.len() + 1,
            tree_of(final(self)@, id as int) == Some(
                Tree {
                    span,
                    kind: Kind::If {
                        test: Box::new(tree_of(old(self)@, test as int).unwrap()),
                        body: forest_of(old(self)@, body@, old(self)@.len() as int, 0).unwrap(),
                        orelse: forest_of(old(self)@, orelse@, old(self)@.len() as int, 0).unwrap(),
                    },
                },
            ),
    {
        let ghost before = self@;
        let ghost b = body@;
        let ghost o = orelse@;
        let id = self.push_node(AstNode::If(IfChain { test, body, orelse }), span);
        proof {
            reveal(tree_of);
            reveal(forest_of);
            reveal(params_of);
            reveal(optional_tree);
            lemma_tree_stable(before, self@, test as int);
            lemma_forest_stable(before, self@, b, before.len() as int, 0);
            lemma_forest_stable(before, self@, o, before.len() as int, 0);
        }
        id
    }

    fn finish_while(&mut self, span: Span, test: NodeId, body: Vec<NodeId>) -> (id: NodeId)
        requires
            old(self).wf(),
            test < old(self)@.len(),
            tree_of(old(self)@, test as int).is_some(),
            forall|i: int| 0 <= i < body@.len() ==> body@[i] < old(self)@.len(),
            forest_of(old(self)@, body@, old(self)@.len() as int, 0).is_some(),
        ensures
            final(self).wf(),
            old(self)@.is_prefix_of(final(self)@),
            id == old(self)@.len(),
            final(self)@.len() == old(self)@.len() + 1,
            tree_of(final(self)@, id as int) == Some(
                Tree {
                    span,
                    kind: Kind::While {
                        test: Box::new(tree_of(old(self)@, test as int).unwrap()),
                        body: forest_of(old(self)@, body@, old(self)@.len() as int, 0).unwrap(),
                    },
                },
            ),
    {
        let ghost before = self@;
        let ghost b = body@;
        let id = self.push_node(AstNode::While(While { test, body }), span);
        proof {
            reveal(tree_of);
            reveal(forest_of);
            reveal(params_of);
            reveal(optional_tree);
            lemma_tree_stable(before, self@, test as int);
            lemma_forest_stable(before, self@, b, before.len() as int, 0);
        }
        id
    }

    /// Enters a tree into the arena: its parts first, then the node that
    /// holds them. Gives the number of that node, which stands for the
    /// tree.
    pub fn add_tree(&mut self, tree: &Tree) -> (id: NodeId)
        requires
            old(self).wf(),
        ensures
            final(self).wf(),
            old(self)@.is_prefix_of(final(self)@),
            old(self)@.len() <= id < final(self)@.len(),
            tree_of(final(self)@, id as int) == Some(*tree),
        decreases tree,
    {
        let span = tree.span;
        match &tree.kind {
            Kind::Int(_) | Kind::Float(_) | Kind::Str(_) | Kind::Bool(_) | Kind::NoneLiteral
            | Kind::Ellipsis | Kind::Name(_) | Kind::Comment(_) | Kind::Pass => self.add_leaf(
                span,
                &tree.kind,
            ),
            Kind::Tuple(elements) => {
                let ids = self.add_forest(elements);
                self.finish_tuple(span, ids)
            },
            Kind::BinOp { left, op, right } => {
                let l = self.add_tree(left);
                let ghost first = self@;
                let r = self.add_tree(right);
                proof {
                    lemma_tree_stable(first, self@, l as int);
                }
                self.finish_binop(span, l, *op, r)
            },
            Kind::IfExpr { test, body, orelse } => {
                let t = self.add_tree(test);
                let ghost first = self@;
                let b = self.add_tree(body);
                let ghost second = self@;
                let o = self.add_tree(orelse);
                proof {
                    lemma_tree_stable(first, second, t as int);
                    lemma_tree_stable(second, self@, t as int);
                    lemma_tree_stable(second, self@, b as int);
                }
                self.finish_ifexpr(span, t, b, o)
            },
            Kind::Call { func, args } => {
                let f = self.add_tree(func);
                let ghost first = self@;
                let ids = self.add_forest(args);
                proof {
                    lemma_tree_stable(first, self@, f as int);
                }
                self.finish_call(span, f, ids)
            },
            Kind::Attr { left, attr } => {
                let l = self.add_tree(left);
                self.finish_attr(span, l, *attr)
            },
            Kind::Ret(value) => {
                let v = self.add_optional(value);
                self.finish_return(span, v)
            },
            Kind::Assign { name, kind, value } => {
                let v = self.add_tree(value);
                let ghost first = self@;
                let k = self.add_optional(kind);
                proof {
                    lemma_tree_stable(first, self@, v as int);
                }
                self.finish_assign(span, *name, v, k)
            },
            Kind::Import { module, names } => {
                let m = self.add_optional(module);
                let ghost first = self@;
                let ids = self.add_forest(names);
                proof {
                    lemma_optional_stable(first, self@, m, first.len() as int);
                    lemma_optional_bound(self@, m, first.len() as int, self@.len() as int);
                }
                self.finish_import(span, m, ids)
            },
            Kind::FuncDef { name, reciever, args, returns: annotation, body, decorator_list } => {
                let params = self.add_params(args);
                let ghost first = self@;
                let result_type = self.add_optional(annotation);
                let ghost second = self@;
                let statements = self.add_forest(body);
                let ghost third = self@;
                let decorators = self.add_forest(decorator_list);
                proof {
                    let last = self@;
                    lemma_params_stable(first, last, params@, first.len() as int, 0);
                    lemma_params_bound(last, params@, first.len() as int, last.len() as int, 0);
                    lemma_optional_stable(second, last, result_type, second.len() as int);
                    lemma_optional_bound(last, result_type, second.len() as int, last.len() as int);
                    lemma_forest_stable(third, last, statements@, third.len() as int, 0);
                    lemma_forest_bound(last, statements@, third.len() as int, last.len() as int, 0);
                }
                self.finish_funcdef(
                    span,
                    *name,
                    *reciever,
                    params,
                    result_type,
                    statements,
                    decorators,
                )
            },
            Kind::ClassDef { name, decorator_list, body } => {
                let decorators = self.add_forest(decorator_list);
                let ghost first = self@;
                let statements = self.add_forest(body);
                proof {
                    let last = self@;
                    lemma_forest_stable(first, last, decorators@, first.len() as int, 0);
                    lemma_forest_bound(last, decorators@, first.len() as int, last.len() as int, 0);
                }
                self.finish_classdef(span, *name, decorators, statements)
            },
            Kind::If { test, body, orelse } => {
                let t = self.add_tree(test);
                let ghost first = self@;
                let then = self.add_forest(body);
                let ghost second = self@;
                let other = self.add_forest(orelse);
                proof {
                    let last = self@;
                    lemma_tree_stable(first, last, t as int);
                    lemma_forest_stable(second, last, then@, second.len() as int, 0);
                    lemma_forest_bound(last, then@, second.len() as int, last.len() as int, 0);
                }
                self.finish_if(span, t, then, other)
            },
            Kind::While { test, body } => {
                let t = self.add_tree(test);
                let ghost first = self@;
                let statements = self.add_forest(body);
                proof {
                    lemma_tree_stable(first, self@, t as int);
                }
                self.finish_while(span, t, statements)
            },
        }
    }
}

} // verus!
