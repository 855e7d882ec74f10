//! The instructions of flat code.
//!
//! An instruction names its operands by their value ids, which are the
//! positions of the instructions that produce them.

use crate::ast::{FloatLiteral, InfixOp, UnaryOp};
use crate::interpreter::object_graph::ObjectGraphIndex;
use crate::span::SpanRef;
use vstd::prelude::*;

verus! {

/// A constant.
#[derive(Clone, Copy, Debug, PartialEq, Eq, Structural)]
pub enum Const {
    Int(i64),
    Float(FloatLiteral),
    Bool(bool),
    String(SpanRef),
    NoneLiteral,
    Ellipsis,
}

/// The methods that operators and other syntax stand for.
#[derive(Clone, Copy, Debug, PartialEq, Eq, Structural)]
pub enum Dunder {
    Infix(InfixOp),
    Unary(UnaryOp),
    GetItem,
}

/// Instructions that only the compiler itself emits, once names and
/// operators are resolved.
#[derive(Clone, Copy, Debug, PartialEq, Eq, Structural)]
pub enum PrivInst {
    /// Reads the stack slot of a local variable.
    UseLocal { var: SpanRef },
    /// Refers to a value of the object graph.
    RefVal { val: ObjectGraphIndex },
    /// Calls a value of the object graph.
    CallVal { val: ObjectGraphIndex },
    /// Turns a value into a pointer to its members.
    IntoMemberPointer { value: usize },
    /// Reads the member whose position is the constant at `offset`.
    AccessMemberPointer { value: usize, offset: usize },
}

/// An instruction.
#[derive(Clone, Debug, PartialEq, Eq)]
pub enum RawInst {
    /// Defines a function whose body is the sequence `sequence_id`.
    Defn { name: SpanRef, params: Vec<SpanRef>, sequence_id: usize },
    Class { name: SpanRef },
    Call { callable: usize, arguments: Vec<usize> },
    SetVar { variable: SpanRef, value: usize },
    UseVar { variable: SpanRef },
    GetAttribute { object: usize, name: SpanRef },
    GetDunder { object: usize, dunder: Dunder },
    SetAttribute { object: usize, name: SpanRef, value: usize },
    SetDunder { object: usize, dunder: Dunder, value: usize },
    Import { path: Vec<SpanRef> },
    Const(Const),
    Tuple(Vec<usize>),
    Nop,
    Undefined,
    /// Branches on `test`; a missing target means the next instruction.
    If { test: usize, truthy: Option<usize>, falsey: Option<usize> },
    /// Jumps to the block that starts at `to`.
    Br { to: usize },
    /// Jumps to the block that starts at `recv` and hands it `value`.
    PhiJump { recv: usize, value: usize },
    /// Starts a block whose value is what the jump into it handed over.
    PhiRecv,
    Return { value: usize },
    /// Starts a block.
    JumpTarget,
    Privileged(PrivInst),
}

/// An instruction as a value.
pub enum Op {
    Defn { name: SpanRef, params: Seq<SpanRef>, sequence_id: usize },
    Class { name: SpanRef },
    Call { callable: usize, arguments: Seq<usize> },
    SetVar { variable: SpanRef, value: usize },
    UseVar { variable: SpanRef },
    GetAttribute { object: usize, name: SpanRef },
    GetDunder { object: usize, dunder: Dunder },
    SetAttribute { object: usize, name: SpanRef, value: usize },
    SetDunder { object: usize, dunder: Dunder, value: usize },
    Import { path: Seq<SpanRef> },
    Const(Const),
    Tuple(Seq<usize>),
    Nop,
    Undefined,
    If { test: usize, truthy: Option<usize>, falsey: Option<usize> },
    Br { to: usize },
    PhiJump { recv: usize, value: usize },
    PhiRecv,
    Return { value: usize },
    JumpTarget,
    Privileged(PrivInst),
}

impl View for RawInst {
    type V = Op;

    open spec fn view(&self) -> Op {
        match self {
            RawInst::Defn { name, params, sequence_id } => Op::Defn {
                name: *name,
                params: params@,
                sequence_id: *sequence_id,
            },
            RawInst::Class { name } => Op::Class { name: *name },
            RawInst::Call { callable, arguments } => Op::Call {
                callable: *callable,
                arguments: arguments@,
            },
            RawInst::SetVar { variable, value } => Op::SetVar { variable: *variable, value: *value },
            RawInst::UseVar { variable } => Op::UseVar { variable: *variable },
            RawInst::GetAttribute { object, name } => Op::GetAttribute {
                object: *object,
                name: *name,
            },
            RawInst::GetDunder { object, dunder } => Op::GetDunder {
                object: *object,
                dunder: *dunder,
            },
            RawInst::SetAttribute { object, name, value } => Op::SetAttribute {
                object: *object,
                name: *name,
                value: *value,
            },
            RawInst::SetDunder { object, dunder, value } => Op::SetDunder {
                object: *object,
                dunder: *dunder,
                value: *value,
            },
            RawInst::Import { path } => Op::Import { path: path@ },
            RawInst::Const(c) => Op::Const(*c),
            RawInst::Tuple(elements) => Op::Tuple(elements@),
            RawInst::Nop => Op::Nop,
            RawInst::Undefined => Op::Undefined,
            RawInst::If { test, truthy, falsey } => Op::If {
                test: *test,
                truthy: *truthy,
                falsey: *falsey,
            },
            RawInst::Br { to } => Op::Br { to: *to },
            RawInst::PhiJump { recv, value } => Op::PhiJump { recv: *recv, value: *value },
            RawInst::PhiRecv => Op::PhiRecv,
            RawInst::Return { value } => Op::Return { value: *value },
            RawInst::JumpTarget => Op::JumpTarget,
            RawInst::Privileged(p) => Op::Privileged(*p),
        }
    }
}

impl Op {
    /// Whether the instruction starts a block.
    pub open spec fn starts_block(self) -> bool {
        self is JumpTarget || self is PhiRecv
    }

    /// The values that the instruction reads.
    pub open spec fn reads(self) -> Seq<usize> {
        match self {
            Op::Call { callable, arguments } => seq![callable] + arguments,
            Op::SetVar { value, .. } => seq![value],
            Op::GetAttribute { object, .. } => seq![object],
            Op::GetDunder { object, .. } => seq![object],
            Op::SetAttribute { object, value, .. } => seq![object, value],
            Op::SetDunder { object, value, .. } => seq![object, value],
            Op::Tuple(elements) => elements,
            Op::If { test, .. } => seq![test],
            Op::PhiJump { value, .. } => seq![value],
            Op::Return { value } => seq![value],
            Op::Privileged(PrivInst::IntoMemberPointer { value }) => seq![value],
            Op::Privileged(PrivInst::AccessMemberPointer { value, offset }) => seq![value, offset],
            _ => Seq::empty(),
        }
    }

    /// The blocks that the instruction may jump to.
    pub open spec fn targets(self) -> Seq<usize> {
        match self {
            Op::If { truthy, falsey, .. } => (match truthy {
                Some(t) => seq![t],
                None => Seq::empty(),
            }) + (match falsey {
                Some(f) => seq![f],
                None => Seq::empty(),
            }),
            Op::Br { to } => seq![to],
            Op::PhiJump { recv, .. } => seq![recv],
            _ => Seq::empty(),
        }
    }
}

} // verus!
