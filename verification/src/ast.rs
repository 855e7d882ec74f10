//! The syntax tree, held in an arena.
//!
//! Every node has a number; a node names its parts by their numbers. A node
//! can only be added once its parts are there, so a part's number is always
//! below that of the node which holds it.

use crate::span::{Span, SpanRef};
use vstd::prelude::*;

verus! {

/// The number of a node within its [`Ast`].
pub type NodeId = usize;

/// A value together with the place in the source where it was read.
#[derive(Clone, Copy, Debug, PartialEq, Eq)]
pub struct Spanned<T> {
    pub span: Span,
    pub inner: T,
}

/// The operators that stand between two operands.
#[derive(Clone, Copy, Debug, PartialEq, Eq, Structural, Hash)]
pub enum InfixOp {
    Add,
    Sub,
    Mult,
    Div,
    Power,
    Mod,
    And,
    Or,
    Eq,
    NotEq,
}

/// The operators that stand before one operand.
#[derive(Clone, Copy, Debug, PartialEq, Eq, Structural, Hash)]
pub enum UnaryOp {
    Invert,
    Not,
    Add,
    Sub,
}

/// A float literal, kept as the digits before and after the point.
#[derive(Clone, Copy, Debug, PartialEq, Eq, Structural, Hash)]
pub struct FloatLiteral {
    pub whole: i64,
    pub fraction: i64,
}

/// The smallest expressions.
#[derive(Clone, Debug, PartialEq, Eq)]
pub enum Atom {
    NoneLiteral,
    Ellipsis,
    Int(i64),
    Str(SpanRef),
    Bool(bool),
    Float(FloatLiteral),
    Tuple(Vec<NodeId>),
    Comment(SpanRef),
    Name(SpanRef),
}

/// A string literal, by the ref of its text with the quotes.
#[derive(Clone, Copy, Debug, PartialEq, Eq, Structural, Hash)]
pub struct StringRef(pub SpanRef);

/// The text of a string literal without its quotes: the first and the last
/// byte are left out.
pub open spec fn unquoted(text: Seq<u8>) -> Seq<u8> {
    text.subrange(1, text.len() - 1)
}

impl StringRef {
    /// The string literal that the atom is; an atom that is no string
    /// comes back as it is.
    pub fn try_from_atom(value: Atom) -> (result: Result<StringRef, Atom>)
        ensures
            result == match value {
                Atom::Str(n) => Ok::<StringRef, Atom>(StringRef(n)),
                other => Err::<StringRef, Atom>(other),
            },
    {
        match value {
            Atom::Str(n) => Ok(StringRef(n)),
            other => Err(other),
        }
    }

    /// The ref of the text of the literal, with its quotes.
    pub fn into_spanref(self) -> (sref: crate::span::SpanRef)
        ensures
            sref == self.0,
    {
        self.0
    }

    /// The text of the literal without its quotes. `None` for a ref that
    /// the interner does not know, and for a text too short to be quoted.
    pub fn resolve_as_string(&self, interner: &crate::span::SpanInterner) -> (text: Option<Vec<u8>>)
        requires
            interner.wf(),
        ensures
            match text {
                Some(t) => interner.knows(self.0) && interner.text_of(self.0).len() >= 2 && t@
                    == unquoted(interner.text_of(self.0)),
                None => !interner.knows(self.0) || interner.text_of(self.0).len() < 2,
            },
    {
        let quoted = match interner.resolve_ref(self.0) {
            Some(q) => q,
            None => {
                return None;
            },
        };
        if quoted.len() < 2 {
            return None;
        }
        let mut text: Vec<u8> = Vec::new();
        let mut i: usize = 1;
        while i < quoted.len() - 1
            invariant
                1 <= i <= quoted@.len() - 1,
                text@ == quoted@.subrange(1, i as int),
            decreases quoted@.len() - i,
        {
            text.push(quoted[i]);
            i += 1;
            assert(text@ =~= quoted@.subrange(1, i as int));
        }
        Some(text)
    }
}

/// `name = value` or `name: kind = value`.
#[derive(Clone, Copy, Debug, PartialEq, Eq, Structural)]
pub struct Assign {
    pub name: SpanRef,
    pub value: NodeId,
    pub kind: Option<NodeId>,
}

/// `return` or `return value`.
#[derive(Clone, Copy, Debug, PartialEq, Eq, Structural)]
pub struct Return {
    pub value: Option<NodeId>,
}

/// One parameter of a function: its name and the node of its annotation.
#[derive(Clone, Copy, Debug, PartialEq, Eq, Structural)]
pub struct Argument {
    pub name: SpanRef,
    pub kind: NodeId,
}

/// `def name(args) -> returns: body`.
#[derive(Clone, Debug, PartialEq, Eq)]
pub struct FunctionDef {
    pub name: SpanRef,
    pub reciever: Option<SpanRef>,
    pub args: Vec<Argument>,
    pub body: Vec<NodeId>,
    pub decorator_list: Vec<NodeId>,
    pub returns: Option<NodeId>,
}

/// `class name: body`, with the decorators above it.
#[derive(Clone, Debug, PartialEq, Eq)]
pub struct ClassDef {
    pub name: SpanRef,
    pub decorator_list: Vec<NodeId>,
    pub body: Vec<NodeId>,
}

/// `if test: body else: orelse`. An `elif` is an `if` that stands alone in
/// `orelse`.
#[derive(Clone, Debug, PartialEq, Eq)]
pub struct IfChain {
    pub test: NodeId,
    pub body: Vec<NodeId>,
    pub orelse: Vec<NodeId>,
}

/// `while test: body`.
#[derive(Clone, Debug, PartialEq, Eq)]
pub struct While {
    pub test: NodeId,
    pub body: Vec<NodeId>,
}

/// `import a.b` or `from module import a, b`: each of `names`, and `module`,
/// is the node of a dotted name.
#[derive(Clone, Debug, PartialEq, Eq)]
pub struct Import {
    pub module: Option<NodeId>,
    pub names: Vec<NodeId>,
}

/// The expressions that are made of other expressions.
#[derive(Clone, Copy, Debug, PartialEq, Eq, Structural)]
pub enum Expr {
    BinOp { left: NodeId, op: InfixOp, right: NodeId },
    If { test: NodeId, body: NodeId, orelse: NodeId },
    Unary { op: UnaryOp, value: NodeId },
    Named { target: SpanRef, value: NodeId },
}

/// The expressions that bind tightest.
#[derive(Clone, Debug, PartialEq, Eq)]
pub enum Primary {
    Subscript { value: NodeId, index: Option<NodeId> },
    Call { func: NodeId, args: Vec<NodeId> },
    Attribute { left: NodeId, attr: SpanRef },
}

/// Every kind of node.
#[derive(Clone, Debug, PartialEq, Eq)]
pub enum AstNode {
    Import(Import),
    ClassDef(ClassDef),
    FuncDef(FunctionDef),
    If(IfChain),
    Assign(Assign),
    Int(i64),
    Str(SpanRef),
    Comment(SpanRef),
    Bool(bool),
    Float(FloatLiteral),
    Tuple(Vec<NodeId>),
    Name(SpanRef),
    BinOp { left: NodeId, op: InfixOp, right: NodeId },
    IfExpr { test: NodeId, body: NodeId, orelse: NodeId },
    Unary { op: UnaryOp, value: NodeId },
    NamedExpr { target: SpanRef, value: NodeId },
    NoneLiteral,
    Ellipsis,
    Subscript { value: NodeId, index: Option<NodeId> },
    Call { func: NodeId, args: Vec<NodeId> },
    Attr { left: NodeId, attr: SpanRef },
    Ret(Return),
    While(While),
    Annotation { name: SpanRef, kind: NodeId },
    Pass,
}

/// A module: the nodes of its top-level statements, in source order.
#[derive(Clone, Debug, Default, PartialEq, Eq)]
pub struct Module {
    pub body: Vec<NodeId>,
}

/// What a scope can ask of a node when it looks for a name.
pub trait LookupTarget {
    /// The name that the node defines, if it defines one.
    spec fn spec_name(&self) -> Option<SpanRef>;

    /// Whether the node defines the name `target`: names count by their
    /// text.
    fn is_named(&self, target: SpanRef) -> (named: bool)
        ensures
            named == match self.spec_name() {
                Some(n) => n.spec_group() == target.spec_group(),
                None => false,
            },
    ;

    /// The name that the node defines, if it defines one.
    fn name(&self) -> (name: Option<SpanRef>)
        ensures
            name == self.spec_name(),
    ;
}

/// Zero or one node, as a sequence.
pub open spec fn optional(node: Option<NodeId>) -> Seq<NodeId> {
    match node {
        Some(n) => seq![n],
        None => Seq::empty(),
    }
}

/// The annotations of the parameters, in order.
pub open spec fn argument_kinds(args: Seq<Argument>) -> Seq<NodeId> {
    Seq::new(args.len(), |i: int| args[i].kind)
}

impl AstNode {
    /// Every node that this node names, in source order.
    pub open spec fn children(&self) -> Seq<NodeId> {
        match self {
            AstNode::Import(i) => optional(i.module) + i.names@,
            AstNode::ClassDef(c) => c.decorator_list@ + c.body@,
            AstNode::FuncDef(f) => f.decorator_list@ + argument_kinds(f.args@) + optional(
                f.returns,
            ) + f.body@,
            AstNode::If(i) => seq![i.test] + i.body@ + i.orelse@,
            AstNode::Assign(a) => seq![a.value] + optional(a.kind),
            AstNode::Tuple(elements) => elements@,
            AstNode::BinOp { left, right, .. } => seq![*left, *right],
            AstNode::IfExpr { test, body, orelse } => seq![*test, *body, *orelse],
            AstNode::Unary { value, .. } => seq![*value],
            AstNode::NamedExpr { value, .. } => seq![*value],
            AstNode::Subscript { value, index } => seq![*value] + optional(*index),
            AstNode::Call { func, args } => seq![*func] + args@,
            AstNode::Attr { left, .. } => seq![*left],
            AstNode::Ret(r) => optional(r.value),
            AstNode::While(w) => seq![w.test] + w.body@,
            AstNode::Annotation { kind, .. } => seq![*kind],
            _ => Seq::empty(),
        }
    }

    /// The nodes that belong to the scope in which this node stands: the
    /// parts of a statement, but not the annotations or the decorators of a
    /// definition.
    pub open spec fn scoped_parts(&self) -> Seq<NodeId> {
        match self {
            AstNode::FuncDef(f) => f.body@,
            AstNode::ClassDef(c) => c.body@,
            _ => self.children(),
        }
    }

    /// Whether every node that this node names has a number below `bound`.
    pub open spec fn children_below(&self, bound: int) -> bool {
        forall|k: int| 0 <= k < self.children().len() ==> self.children()[k] < bound
    }
}

fn push_all(into: &mut Vec<NodeId>, from: &Vec<NodeId>)
    ensures
        final(into)@ == old(into)@ + from@,
{
    let mut i: usize = 0;
    while i < from.len()
        invariant
            i <= from@.len(),
            into@ == old(into)@ + from@.subrange(0, i as int),
        decreases from@.len() - i,
    {
        into.push(from[i]);
        i += 1;
        assert(from@.subrange(0, i as int) =~= from@.subrange(0, i as int - 1).push(
            from@[i as int - 1],
        ));
        assert(into@ =~= old(into)@ + from@.subrange(0, i as int));
    }
    assert(from@.subrange(0, from@.len() as int) =~= from@);
}

fn push_optional(into: &mut Vec<NodeId>, node: Option<NodeId>)
    ensures
        final(into)@ == old(into)@ + optional(node),
{
    match node {
        Some(n) => {
            into.push(n);
            assert(into@ =~= old(into)@ + optional(node));
        },
        None => {
            assert(into@ =~= old(into)@ + optional(node));
        },
    }
}

impl AstNode {
    /// Every node that this node names, in source order.
    pub fn walk_all(&self) -> (parts: Vec<NodeId>)
        ensures
            parts@ == self.children(),
    {
        let mut parts: Vec<NodeId> = Vec::new();
        match self {
            AstNode::Import(i) => {
                push_optional(&mut parts, i.module);
                push_all(&mut parts, &i.names);
            },
            AstNode::ClassDef(c) => {
                push_all(&mut parts, &c.decorator_list);
                push_all(&mut parts, &c.body);
            },
            AstNode::FuncDef(f) => {
                push_all(&mut parts, &f.decorator_list);
                let mut i: usize = 0;
                while i < f.args.len()
                    invariant
                        i <= f.args@.len(),
                        parts@ == f.decorator_list@ + argument_kinds(f.args@).subrange(0, i as int),
                    decreases f.args@.len() - i,
                {
                    parts.push(f.args[i].kind);
                    i += 1;
                    assert(parts@ =~= f.decorator_list@ + argument_kinds(f.args@).subrange(
                        0,
                        i as int,
                    ));
                }
                assert(argument_kinds(f.args@).subrange(0, i as int) =~= argument_kinds(f.args@));
                push_optional(&mut parts, f.returns);
                push_all(&mut parts, &f.body);
            },
            AstNode::If(i) => {
                parts.push(i.test);
                push_all(&mut parts, &i.body);
                push_all(&mut parts, &i.orelse);
            },
            AstNode::Assign(a) => {
                parts.push(a.value);
                push_optional(&mut parts, a.kind);
            },
            AstNode::Tuple(elements) => {
                push_all(&mut parts, elements);
            },
            AstNode::BinOp { left, right, .. } => {
                parts.push(*left);
                parts.push(*right);
            },
            AstNode::IfExpr { test, body, orelse } => {
                parts.push(*test);
                parts.push(*body);
                parts.push(*orelse);
            },
            AstNode::Unary { value, .. } => {
                parts.push(*value);
            },
            AstNode::NamedExpr { value, .. } => {
                parts.push(*value);
            },
            AstNode::Subscript { value, index } => {
                parts.push(*value);
                push_optional(&mut parts, *index);
            },
            AstNode::Call { func, args } => {
                parts.push(*func);
                push_all(&mut parts, args);
            },
            AstNode::Attr { left, .. } => {
                parts.push(*left);
            },
            AstNode::Ret(r) => {
                push_optional(&mut parts, r.value);
            },
            AstNode::While(w) => {
                parts.push(w.test);
                push_all(&mut parts, &w.body);
            },
            AstNode::Annotation { kind, .. } => {
                parts.push(*kind);
            },
            _ => {},
        }
        assert(parts@ =~= self.children());
        parts
    }

    /// The parts that a scope visits below this node.
    pub fn walk(&self) -> (parts: Vec<NodeId>)
        ensures
            parts@ == self.scoped_parts(),
    {
        match self {
            AstNode::FuncDef(f) => {
                let mut parts: Vec<NodeId> = Vec::new();
                push_all(&mut parts, &f.body);
                assert(parts@ =~= f.body@);
                parts
            },
            AstNode::ClassDef(c) => {
                let mut parts: Vec<NodeId> = Vec::new();
                push_all(&mut parts, &c.body);
                assert(parts@ =~= c.body@);
                parts
            },
            _ => self.walk_all(),
        }
    }
}

impl LookupTarget for AstNode {
    open spec fn spec_name(&self) -> Option<SpanRef> {
        match self {
            AstNode::Name(n) => Some(*n),
            AstNode::Assign(a) => Some(a.name),
            AstNode::FuncDef(f) => Some(f.name),
            AstNode::ClassDef(c) => Some(c.name),
            AstNode::Annotation { name, .. } => Some(*name),
            _ => None,
        }
    }

    fn is_named(&self, target: SpanRef) -> (named: bool) {
        match self.name() {
            Some(n) => n.group() == target.group(),
            None => false,
        }
    }

    fn name(&self) -> (name: Option<SpanRef>) {
        match self {
            AstNode::Name(n) => Some(*n),
            AstNode::Assign(a) => Some(a.name),
            AstNode::FuncDef(f) => Some(f.name),
            AstNode::ClassDef(c) => Some(c.name),
            AstNode::Annotation { name, .. } => Some(*name),
            _ => None,
        }
    }
}

impl Atom {
    /// The node that stands for this atom.
    pub fn into_ast_node(&self) -> (node: AstNode)
        ensures
            match (*self, node) {
                (Atom::NoneLiteral, AstNode::NoneLiteral) => true,
                (Atom::Ellipsis, AstNode::Ellipsis) => true,
                (Atom::Int(a), AstNode::Int(n)) => a == n,
                (Atom::Str(a), AstNode::Str(n)) => a == n,
                (Atom::Bool(a), AstNode::Bool(n)) => a == n,
                (Atom::Float(a), AstNode::Float(n)) => a == n,
                (Atom::Tuple(a), AstNode::Tuple(n)) => a@ == n@,
                (Atom::Comment(a), AstNode::Comment(n)) => a == n,
                (Atom::Name(a), AstNode::Name(n)) => a == n,
                _ => false,
            },
    {
        match self {
            Atom::NoneLiteral => AstNode::NoneLiteral,
            Atom::Ellipsis => AstNode::Ellipsis,
            Atom::Int(n) => AstNode::Int(*n),
            Atom::Str(s) => AstNode::Str(*s),
            Atom::Bool(b) => AstNode::Bool(*b),
            Atom::Float(f) => AstNode::Float(*f),
            Atom::Tuple(elements) => {
                let mut copy: Vec<NodeId> = Vec::new();
                push_all(&mut copy, elements);
                assert(copy@ =~= elements@);
                AstNode::Tuple(copy)
            },
            Atom::Comment(c) => AstNode::Comment(*c),
            Atom::Name(n) => AstNode::Name(*n),
        }
    }

    /// The name, if the atom is one.
    pub fn as_name(&self) -> (name: Option<SpanRef>)
        ensures
            name == match self {
                Atom::Name(n) => Some(*n),
                _ => None,
            },
    {
        match self {
            Atom::Name(n) => Some(*n),
            _ => None,
        }
    }
}

/// The arena that holds the nodes of a program.
pub struct Ast {
    nodes: Vec<Spanned<AstNode>>,
}

impl View for Ast {
    type V = Seq<Spanned<AstNode>>;

    closed spec fn view(&self) -> Seq<Spanned<AstNode>> {
        self.nodes@
    }
}

impl Ast {
    /// Every node names only nodes with smaller numbers.
    pub open spec fn wf(&self) -> bool {
        forall|i: int| 0 <= i < self@.len() ==> (#[trigger] self@[i]).inner.children_below(i)
    }

    pub fn new() -> (ast: Self)
        ensures
            ast.wf(),
            ast@.len() == 0,
    {
        Ast { nodes: Vec::new() }
    }

    /// The number of nodes.
    pub fn len(&self) -> (n: usize)
        ensures
            n == self@.len(),
    {
        self.nodes.len()
    }

    /// Adds a node and gives its number, which is the number of nodes there
    /// were. A node that names a node which is not there yet is refused and
    /// nothing changes.
    pub fn add(&mut self, node: AstNode, span: Span) -> (id: Option<NodeId>)
        requires
            old(self).wf(),
        ensures
            final(self).wf(),
            id.is_some() <==> node.children_below(old(self)@.len() as int),
            id.is_some() ==> id == Some(old(self)@.len() as usize) && final(self)@ == old(
                self,
            )@.push(Spanned { span, inner: node }),
            id.is_none() ==> final(self)@ == old(self)@,
    {
        let parts = node.walk_all();
        let bound = self.nodes.len();
        let mut k: usize = 0;
        while k < parts.len()
            invariant
                k <= parts@.len(),
                parts@ == node.children(),
                self@ == old(self)@,
                old(self).wf(),
                bound == self@.len(),
                forall|j: int| 0 <= j < k ==> parts@[j] < bound,
            decreases parts@.len() - k,
        {
            if parts[k] >= bound {
                assert(node.children()[k as int] >= bound);
                return None;
            }
            k += 1;
        }
        self.nodes.push(Spanned { span, inner: node });
        proof {
            assert forall|i: int| 0 <= i < self@.len() implies (
            #[trigger] self@[i]).inner.children_below(i) by {
                if i < old(self)@.len() {
                    assert(self@[i] == old(self)@[i]);
                }
            }
        }
        Some(bound)
    }

    /// The node with the number `id`.
    pub fn get(&self, id: NodeId) -> (node: Option<&Spanned<AstNode>>)
        ensures
            id < self@.len() ==> node == Some(&self@[id as int]),
            id >= self@.len() ==> node.is_none(),
    {
        if id < self.nodes.len() {
            Some(&self.nodes[id])
        } else {
            None
        }
    }

    /// The names of which a dotted name is made, left to right; `None` for
    /// a node that is not a dotted name.
    pub open spec fn spec_components(nodes: Seq<Spanned<AstNode>>, node: int) -> Option<
        Seq<SpanRef>,
    >
        decreases node,
    {
        if 0 <= node < nodes.len() {
            match nodes[node].inner {
                AstNode::Name(n) => Some(seq![n]),
                AstNode::Attr { left, attr } => if left < node {
                    match Self::spec_components(nodes, left as int) {
                        Some(names) => Some(names.push(attr)),
                        None => None,
                    }
                } else {
                    None
                },
                _ => None,
            }
        } else {
            None
        }
    }

    /// The names of which the dotted name `node` is made, left to right.
    pub fn components(&self, node: NodeId) -> (names: Option<Vec<SpanRef>>)
        requires
            self.wf(),
        ensures
            match names {
                Some(n) => Self::spec_components(self@, node as int) == Some(n@),
                None => Self::spec_components(self@, node as int).is_none(),
            },
        decreases node,
    {
        match self.get(node) {
            Some(spanned) => match &spanned.inner {
                AstNode::Name(n) => {
                    let mut names: Vec<SpanRef> = Vec::new();
                    names.push(*n);
                    assert(names@ =~= seq![*n]);
                    Some(names)
                },
                AstNode::Attr { left, attr } => {
                    assert(self@[node as int].inner.children_below(node as int));
                    assert(self@[node as int].inner.children()[0] == *left);
                    match self.components(*left) {
                        Some(mut names) => {
                            names.push(*attr);
                            Some(names)
                        },
                        None => None,
                    }
                },
                _ => None,
            },
            None => None,
        }
    }
}

} // verus!
