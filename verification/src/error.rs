//! The errors that the semantic passes report. Each is final: after the
//! first one the walk of the module stops.

use crate::ast::{Ast, AstNode, InfixOp, NodeId, Spanned};
use crate::span::{Span, SpanInterner, SpanRef};
use crate::typing::LocalTypeId;
use vstd::prelude::*;

verus! {

/// An error of the program under compilation.
#[derive(Clone, Copy, Debug, PartialEq, Eq, Structural)]
pub enum MontyError {
    /// The type of a value could not be inferred at all.
    InferenceFailure,
    /// A function returns a value of another type than it declares.
    BadReturnType {
        expected: LocalTypeId,
        actual: LocalTypeId,
        ret_node: NodeId,
        def_node: Option<NodeId>,
    },
    /// A function that declares a return type ends without a `return`.
    MissingReturn { expected: LocalTypeId, actual: LocalTypeId, def_node: Option<NodeId> },
    /// A name is bound, but to the unknown type.
    UnknownType { node: NodeId },
    /// A name has no binding in the scope nor among the builtins.
    UndefinedVariable { node: NodeId },
    /// An argument of a call has another type than the parameter.
    BadArgumentType {
        expected: LocalTypeId,
        actual: LocalTypeId,
        index: usize,
        arg_node: NodeId,
        def_node: Option<NodeId>,
    },
    /// No operator method fits the operands.
    BadBinaryOp { span: Span, left: LocalTypeId, right: LocalTypeId, op: InfixOp },
    /// A name gets a second type within one function.
    IncompatibleReassignment {
        name: SpanRef,
        first_assigned: Span,
        incorrectly_reassigned: Span,
        expected: LocalTypeId,
        actual: LocalTypeId,
    },
    /// An annotation and the value beside it have different types.
    IncompatibleTypes { left_span: Span, left: LocalTypeId, right_span: Span, right: LocalTypeId },
}

/// The headline of a diagnostic.
#[derive(Clone, Copy, Debug, PartialEq, Eq, Structural)]
pub enum Headline {
    InferenceFailure,
    IncompatibleReturnType,
    MissingReturn,
    UnableToInferType,
    UndefinedVariable,
    IncompatibleArgumentType,
    UnsupportedBinaryExpression,
    IncompatibleReassignment,
    IncompatibleTypes,
}

/// Whether a label marks the place of the error or a place that explains
/// it.
#[derive(Clone, Copy, Debug, PartialEq, Eq, Structural)]
pub enum LabelStyle {
    Primary,
    Secondary,
}

/// What a label says.
#[derive(Clone, Copy, Debug, PartialEq, Eq, Structural)]
pub enum LabelText {
    /// A value of another type is returned here.
    ValueReturnedInstead,
    /// `None` is returned here.
    NoneReturnedHere,
    /// The function is declared here to return a value of this type.
    DeclaredToReturn { type_id: LocalTypeId },
    /// The function is defined here and expected to return `None`.
    ExpectedToReturnNone,
    /// This function will implicitly return `None`.
    ImplicitReturn,
    /// But it has been annotated to return this instead.
    AnnotatedToReturn,
    /// Annotate this name with a type.
    AnnotateThisName,
    /// The name is not defined anywhere.
    NotDefined { name: Option<SpanRef> },
    /// The argument here evaluates to this type.
    ArgumentEvaluatesTo { actual: LocalTypeId },
    /// The function defined here expected this type.
    FunctionExpected { expected: LocalTypeId },
    /// The operator is not supported for these types.
    OperatorNotSupported { op: InfixOp, left: LocalTypeId, right: LocalTypeId },
    /// The name was first assigned a value of this type here.
    FirstAssigned { type_id: LocalTypeId },
    /// The name is assigned a value of this other type here.
    Reassigned { type_id: LocalTypeId },
    /// The annotation asks for this type.
    Annotated { type_id: LocalTypeId },
    /// The value has this type.
    ValueHas { type_id: LocalTypeId },
}

/// A place in the source and what is to be said about it.
#[derive(Clone, Copy, Debug, PartialEq, Eq, Structural)]
pub struct Label {
    pub style: LabelStyle,
    pub span: Span,
    pub text: LabelText,
}

/// A line below a diagnostic.
#[derive(Clone, Copy, Debug, PartialEq, Eq, Structural)]
pub enum Note {
    Expected(LocalTypeId),
    Actual(LocalTypeId),
}

/// An error as it is shown: a headline, labels on the source, and notes.
#[derive(Clone, Debug, PartialEq, Eq)]
pub struct Diagnostic {
    pub headline: Headline,
    pub labels: Vec<Label>,
    pub notes: Vec<Note>,
}

/// The span of a node; the empty span at zero for a node that is not
/// there.
pub open spec fn span_of(ast: Seq<Spanned<AstNode>>, node: NodeId) -> Span {
    if node < ast.len() {
        ast[node as int].span
    } else {
        Span { start: 0, end: 0 }
    }
}

/// The node of the value that the `return` at `node` returns.
pub open spec fn returned_value(ast: Seq<Spanned<AstNode>>, node: NodeId) -> Option<NodeId> {
    if node < ast.len() {
        match ast[node as int].inner {
            AstNode::Ret(r) => r.value,
            _ => None,
        }
    } else {
        None
    }
}

/// The node of the return annotation of the function defined at `node`.
pub open spec fn declared_return(ast: Seq<Spanned<AstNode>>, node: Option<NodeId>) -> Option<NodeId> {
    match node {
        Some(def) => if def < ast.len() {
            match ast[def as int].inner {
                AstNode::FuncDef(f) => f.returns,
                _ => None,
            }
        } else {
            None
        },
        None => None,
    }
}

/// Where the name of the function defined at `def` stands; the span of
/// the node where it defines no function or the interner does not know
/// the name.
pub open spec fn defined_name(ast: Seq<Spanned<AstNode>>, interner: &SpanInterner, def: NodeId) -> Span {
    if def < ast.len() {
        match ast[def as int].inner {
            AstNode::FuncDef(f) => interner.place_of(f.name, ast[def as int].span),
            _ => ast[def as int].span,
        }
    } else {
        span_of(ast, def)
    }
}

/// The span of the node, or of `fallback` if there is no node.
pub open spec fn span_or(ast: Seq<Spanned<AstNode>>, node: Option<NodeId>, fallback: Span) -> Span {
    match node {
        Some(n) => span_of(ast, n),
        None => fallback,
    }
}

/// The labels that show the error.
///
/// * A wrong return type is marked at the returned value, or at the
///   `return` if it returns nothing, and explained at the return
///   annotation of the function, or at the function if it has none.
/// * A missing return is marked at the function and explained at its
///   return annotation.
/// * An unknown type and an undefined variable are marked at the name.
/// * A wrong argument is marked at the argument and explained at the name
///   of the function, where the function is known.
/// * An unsupported operator is marked at the expression.
/// * A reassignment is marked at the second assignment and explained at
///   the first; disagreeing types are marked at the value and explained at
///   the annotated name.
pub open spec fn labels_of(
    ast: Seq<Spanned<AstNode>>,
    interner: &SpanInterner,
    error: MontyError,
) -> Seq<Label> {
    let none = Span { start: 0, end: 0 };
    match error {
        MontyError::InferenceFailure => Seq::empty(),
        MontyError::BadReturnType { expected, actual, ret_node, def_node } => {
            let value = returned_value(ast, ret_node);
            let declared = declared_return(ast, def_node);
            seq![
                Label {
                    style: LabelStyle::Primary,
                    span: span_or(ast, value, span_of(ast, ret_node)),
                    text: if value.is_some() {
                        LabelText::ValueReturnedInstead
                    } else {
                        LabelText::NoneReturnedHere
                    },
                },
                Label {
                    style: LabelStyle::Secondary,
                    span: span_or(ast, declared, span_or(ast, def_node, none)),
                    text: if declared.is_some() {
                        LabelText::DeclaredToReturn { type_id: expected }
                    } else {
                        LabelText::ExpectedToReturnNone
                    },
                },
            ]
        },
        MontyError::MissingReturn { expected, actual, def_node } => seq![
            Label {
                style: LabelStyle::Primary,
                span: span_or(ast, def_node, none),
                text: LabelText::ImplicitReturn,
            },
            Label {
                style: LabelStyle::Secondary,
                span: span_or(ast, declared_return(ast, def_node), span_or(ast, def_node, none)),
                text: LabelText::AnnotatedToReturn,
            },
        ],
        MontyError::UnknownType { node } => seq![
            Label {
                style: LabelStyle::Primary,
                span: span_of(ast, node),
                text: LabelText::AnnotateThisName,
            },
        ],
        MontyError::UndefinedVariable { node } => seq![
            Label {
                style: LabelStyle::Primary,
                span: span_of(ast, node),
                text: LabelText::NotDefined {
                    name: if node < ast.len() {
                        match ast[node as int].inner {
                            AstNode::Name(n) => Some(n),
                            _ => None,
                        }
                    } else {
                        None
                    },
                },
            },
        ],
        MontyError::BadArgumentType { expected, actual, index, arg_node, def_node } => {
            let primary = Label {
                style: LabelStyle::Primary,
                span: span_of(ast, arg_node),
                text: LabelText::ArgumentEvaluatesTo { actual },
            };
            match def_node {
                Some(def) => seq![
                    primary,
                    Label {
                        style: LabelStyle::Secondary,
                        span: defined_name(ast, interner, def),
                        text: LabelText::FunctionExpected { expected },
                    },
                ],
                None => seq![primary],
            }
        },
        MontyError::BadBinaryOp { span, left, right, op } => seq![
            Label {
                style: LabelStyle::Primary,
                span,
                text: LabelText::OperatorNotSupported { op, left, right },
            },
        ],
        MontyError::IncompatibleReassignment {
            name,
            first_assigned,
            incorrectly_reassigned,
            expected,
            actual,
        } => seq![
            Label {
                style: LabelStyle::Primary,
                span: incorrectly_reassigned,
                text: LabelText::Reassigned { type_id: actual },
            },
            Label {
                style: LabelStyle::Secondary,
                span: first_assigned,
                text: LabelText::FirstAssigned { type_id: expected },
            },
        ],
        MontyError::IncompatibleTypes { left_span, left, right_span, right } => seq![
            Label {
                style: LabelStyle::Primary,
                span: right_span,
                text: LabelText::ValueHas { type_id: right },
            },
            Label {
                style: LabelStyle::Secondary,
                span: left_span,
                text: LabelText::Annotated { type_id: left },
            },
        ],
    }
}

/// The headline of the error.
pub open spec fn headline_of(error: MontyError) -> Headline {
    match error {
        MontyError::InferenceFailure => Headline::InferenceFailure,
        MontyError::BadReturnType { .. } => Headline::IncompatibleReturnType,
        MontyError::MissingReturn { .. } => Headline::MissingReturn,
        MontyError::UnknownType { .. } => Headline::UnableToInferType,
        MontyError::UndefinedVariable { .. } => Headline::UndefinedVariable,
        MontyError::BadArgumentType { .. } => Headline::IncompatibleArgumentType,
        MontyError::BadBinaryOp { .. } => Headline::UnsupportedBinaryExpression,
        MontyError::IncompatibleReassignment { .. } => Headline::IncompatibleReassignment,
        MontyError::IncompatibleTypes { .. } => Headline::IncompatibleTypes,
    }
}

/// The notes below the error: a wrong return type names the expected and
/// the actual type.
pub open spec fn notes_of(error: MontyError) -> Seq<Note> {
    match error {
        MontyError::BadReturnType { expected, actual, .. } => seq![
            Note::Expected(expected),
            Note::Actual(actual),
        ],
        _ => Seq::empty(),
    }
}

fn node_span(ast: &Ast, node: NodeId) -> (span: Span)
    ensures
        span == span_of(ast@, node),
{
    match ast.get(node) {
        Some(spanned) => spanned.span,
        None => Span { start: 0, end: 0 },
    }
}

fn optional_span(ast: &Ast, node: Option<NodeId>, fallback: Span) -> (span: Span)
    ensures
        span == span_or(ast@, node, fallback),
{
    match node {
        Some(n) => node_span(ast, n),
        None => fallback,
    }
}

fn return_annotation(ast: &Ast, node: Option<NodeId>) -> (annotation: Option<NodeId>)
    ensures
        annotation == declared_return(ast@, node),
{
    match node {
        Some(def) => match ast.get(def) {
            Some(spanned) => match &spanned.inner {
                AstNode::FuncDef(f) => f.returns,
                _ => None,
            },
            None => None,
        },
        None => None,
    }
}

fn name_of_definition(ast: &Ast, interner: &SpanInterner, def: NodeId) -> (span: Span)
    ensures
        span == defined_name(ast@, interner, def),
{
    match ast.get(def) {
        Some(spanned) => match &spanned.inner {
            AstNode::FuncDef(f) => interner.place(f.name, spanned.span),
            _ => spanned.span,
        },
        None => Span { start: 0, end: 0 },
    }
}

impl MontyError {
    /// Turns the error into what is shown for it.
    pub fn into_diagnostic(self, ast: &Ast, interner: &SpanInterner) -> (diagnostic: Diagnostic)
        ensures
            diagnostic.headline == headline_of(self),
            diagnostic.labels@ == labels_of(ast@, interner, self),
            diagnostic.notes@ == notes_of(self),
    {
        let none = Span { start: 0, end: 0 };
        let mut labels: Vec<Label> = Vec::new();
        let mut notes: Vec<Note> = Vec::new();
        let headline = match self {
            MontyError::InferenceFailure => Headline::InferenceFailure,
            MontyError::BadReturnType { expected, actual, ret_node, def_node } => {
                let value = match ast.get(ret_node) {
                    Some(spanned) => match &spanned.inner {
                        AstNode::Ret(r) => r.value,
                        _ => None,
                    },
                    None => None,
                };
                let declared = return_annotation(ast, def_node);
                labels.push(
                    Label {
                        style: LabelStyle::Primary,
                        span: optional_span(ast, value, node_span(ast, ret_node)),
                        text: if value.is_some() {
                            LabelText::ValueReturnedInstead
                        } else {
                            LabelText::NoneReturnedHere
                        },
                    },
                );
                labels.push(
                    Label {
                        style: LabelStyle::Secondary,
                        span: optional_span(ast, declared, optional_span(ast, def_node, none)),
                        text: if declared.is_some() {
                            LabelText::DeclaredToReturn { type_id: expected }
                        } else {
                            LabelText::ExpectedToReturnNone
                        },
                    },
                );
                notes.push(Note::Expected(expected));
                notes.push(Note::Actual(actual));
                Headline::IncompatibleReturnType
            },
            MontyError::MissingReturn { expected, actual, def_node } => {
                let at = optional_span(ast, def_node, none);
                labels.push(
                    Label { style: LabelStyle::Primary, span: at, text: LabelText::ImplicitReturn },
                );
                labels.push(
                    Label {
                        style: LabelStyle::Secondary,
                        span: optional_span(ast, return_annotation(ast, def_node), at),
                        text: LabelText::AnnotatedToReturn,
                    },
                );
                Headline::MissingReturn
            },
            MontyError::UnknownType { node } => {
                labels.push(
                    Label {
                        style: LabelStyle::Primary,
                        span: node_span(ast, node),
                        text: LabelText::AnnotateThisName,
                    },
                );
                Headline::UnableToInferType
            },
            MontyError::UndefinedVariable { node } => {
                let name = match ast.get(node) {
                    Some(spanned) => match &spanned.inner {
                        AstNode::Name(n) => Some(*n),
                        _ => None,
                    },
                    None => None,
                };
                labels.push(
                    Label {
                        style: LabelStyle::Primary,
                        span: node_span(ast, node),
                        text: LabelText::NotDefined { name },
                    },
                );
                Headline::UndefinedVariable
            },
            MontyError::BadArgumentType { expected, actual, index, arg_node, def_node } => {
                labels.push(
                    Label {
                        style: LabelStyle::Primary,
                        span: node_span(ast, arg_node),
                        text: LabelText::ArgumentEvaluatesTo { actual },
                    },
                );
                match def_node {
                    Some(def) => {
                        labels.push(
                            Label {
                                style: LabelStyle::Secondary,
                                span: name_of_definition(ast, interner, def),
                                text: LabelText::FunctionExpected { expected },
                            },
                        );
                    },
                    None => {},
                }
                Headline::IncompatibleArgumentType
            },
            MontyError::BadBinaryOp { span, left, right, op } => {
                labels.push(
                    Label {
                        style: LabelStyle::Primary,
                        span,
                        text: LabelText::OperatorNotSupported { op, left, right },
                    },
                );
                Headline::UnsupportedBinaryExpression
            },
            MontyError::IncompatibleReassignment {
                name,
                first_assigned,
                incorrectly_reassigned,
                expected,
                actual,
            } => {
                labels.push(
                    Label {
                        style: LabelStyle::Primary,
                        span: incorrectly_reassigned,
                        text: LabelText::Reassigned { type_id: actual },
                    },
                );
                labels.push(
                    Label {
                        style: LabelStyle::Secondary,
                        span: first_assigned,
                        text: LabelText::FirstAssigned { type_id: expected },
                    },
                );
                Headline::IncompatibleReassignment
            },
            MontyError::IncompatibleTypes { left_span, left, right_span, right } => {
                labels.push(
                    Label {
                        style: LabelStyle::Primary,
                        span: right_span,
                        text: LabelText::ValueHas { type_id: right },
                    },
                );
                labels.push(
                    Label {
                        style: LabelStyle::Secondary,
                        span: left_span,
                        text: LabelText::Annotated { type_id: left },
                    },
                );
                Headline::IncompatibleTypes
            },
        };
        assert(labels@ =~= labels_of(ast@, interner, self));
        assert(notes@ =~= notes_of(self));
        Diagnostic { headline, labels, notes }
    }
}

} // verus!
