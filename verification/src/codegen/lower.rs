//! Lowering of one function: its stack slots, and for every instruction of
//! its flat code the operations that the backend emits.
//!
//! The backend owns registers, blocks and relocations. What it is told here
//! is which slot a local lives in and how large the slot is, which
//! instructions start a block, where jumps lead, and at which byte offsets
//! the members of a tuple stand.

use crate::ast::FloatLiteral;
use crate::flatcode::raw_inst::{Const, Op, PrivInst, RawInst};
use crate::flatcode::FlatSeq;
use crate::interpreter::dict::{
    id_table_entries, id_table_get, id_table_insert, id_table_new, IdTable,
};
use crate::interpreter::object_graph::{ObjectGraphIndex, Value};
use crate::interpreter::value_store::ValueStore;
use crate::ribs::{RibEntry, Ribs};
use crate::span::SpanRef;
use crate::typing::{
    member_offset, members_size, LocalTypeId, TypeDescriptor, TypeMap, TypeShape,
};
use vstd::prelude::*;

verus! {

/// Why a function cannot be lowered.
#[derive(Clone, Copy, Debug, PartialEq, Eq, Structural)]
pub enum LowerError {
    /// The instruction has no lowering.
    Unsupported { inst: usize },
    /// The instruction names a local that has no stack slot.
    UnknownLocal { inst: usize },
    /// The instruction refers to a function that was not declared.
    UnknownFunction { inst: usize },
    /// The instruction reads an operand that produces no value.
    NoValue { inst: usize, operand: usize },
    /// The instruction jumps to something that does not start a block.
    NoBlock { inst: usize, target: usize },
    /// A type that the instruction needs is not known.
    UnknownType { inst: usize },
    /// The instruction needs a tuple of matching size and finds none.
    NotATuple { inst: usize },
    /// A tuple without size cannot be allocated.
    EmptyTuple { inst: usize },
    /// The test of a branch is not a boolean.
    TestNotBool { inst: usize },
}

/// A stack slot: the local that lives in it, its type, its size in bytes,
/// and the parameter that is stored into it on entry, if it holds one.
#[derive(Clone, Copy, Debug, PartialEq, Eq, Structural)]
pub struct StackSlot {
    pub name: usize,
    pub type_id: LocalTypeId,
    pub size: usize,
    pub param: Option<usize>,
}

/// An operation for the backend. Values are named by the ids of the flat
/// instructions that produce them, blocks by the ids of the instructions
/// that start them.
#[derive(Clone, Copy, Debug, PartialEq, Eq, Structural)]
pub enum LowOp {
    StackLoad { slot: usize },
    StackStore { slot: usize, value: usize },
    /// Make the function known to the function that is being built.
    DeclareFunc { val: ObjectGraphIndex },
    /// Call `func` with the arguments of the flat instruction `inst`.
    Call { func: ObjectGraphIndex, inst: usize },
    LoadMember { base: usize, byte_offset: usize },
    Iconst(i64),
    F64const(FloatLiteral),
    Bconst(bool),
    /// Allocate `size` bytes on the heap.
    Malloc { size: usize },
    StoreMember { base: usize, byte_offset: usize, value: usize },
    SwitchToBlock { block: usize },
    /// The value of the block is its parameter.
    BlockParam { block: usize },
    BranchZero { test: usize, to: usize },
    BranchNonZero { test: usize, to: usize },
    Jump { to: usize },
    /// Jump to `to` and hand it `value`, of the type `param_type`.
    JumpWith { to: usize, value: usize, param_type: LocalTypeId },
    Return { value: usize },
}

/// What the lowering reads.
pub struct BuilderContext<'a> {
    pub code: &'a FlatSeq,
    pub type_map: &'a TypeMap,
    pub store: &'a ValueStore,
    pub rib: &'a Ribs,
    /// The receiver of a method: its name and its type.
    pub recv: Option<(SpanRef, LocalTypeId)>,
    /// The names of the parameters, without the receiver.
    pub args: &'a Vec<SpanRef>,
    /// The functions that have been declared to the backend.
    pub fids: &'a FuncIds,
}

/// The functions that have been declared to the backend: an `ahash` map
/// from the node of a function's value to the number that the backend
/// gave the function.
pub struct FuncIds {
    table: IdTable,
}

impl View for FuncIds {
    type V = Map<u64, u64>;

    closed spec fn view(&self) -> Map<u64, u64> {
        id_table_entries(self.table)
    }
}

impl FuncIds {
    /// No function is declared.
    pub fn new() -> (fids: Self)
        ensures
            fids@ == Map::<u64, u64>::empty(),
    {
        FuncIds { table: id_table_new() }
    }

    /// Notes that the function whose value stands at `val` is declared
    /// under the number `id`.
    pub fn declare(&mut self, val: ObjectGraphIndex, id: u64)
        ensures
            final(self)@ == old(self)@.insert(val, id),
    {
        id_table_insert(&mut self.table, val, id);
    }

    /// The number under which the function at `val` is declared.
    pub fn get(&self, val: ObjectGraphIndex) -> (id: Option<u64>)
        ensures
            id == if self@.contains_key(val) {
                Some(self@[val])
            } else {
                None
            },
    {
        id_table_get(&self.table, val)
    }
}

/// The size of the slot for a value of `size` bytes: the next multiple of
/// sixteen.
pub open spec fn slot_size(size: nat) -> nat {
    (size + 15) / 16 * 16
}

/// The position among the parameters of the last of the first `n` names
/// that has the given group; the receiver, if there is one, counts as the
/// parameter before them.
pub open spec fn arg_index(args: Seq<SpanRef>, recv: bool, group: usize, n: int) -> Option<int>
    decreases n,
{
    if n <= 0 {
        None
    } else if args[n - 1].spec_group() == group {
        Some(
            n - 1 + if recv {
                1int
            } else {
                0int
            },
        )
    } else {
        arg_index(args, recv, group, n - 1)
    }
}

/// The last of the first `n` slots that holds the local with the given
/// group.
pub open spec fn local_slot(slots: Seq<StackSlot>, group: usize, n: int) -> Option<int>
    decreases n,
{
    if n <= 0 {
        None
    } else if slots[n - 1].name == group {
        Some(n - 1)
    } else {
        local_slot(slots, group, n - 1)
    }
}

/// Whether the instruction starts a block or is a branch.
pub open spec fn is_block(op: Op) -> bool {
    op is JumpTarget || op is PhiRecv || op is If
}

/// Whether nothing can follow the instruction within its block.
pub open spec fn terminates(op: Op) -> bool {
    match op {
        Op::Br { .. } | Op::PhiJump { .. } | Op::Return { .. } => true,
        Op::If { truthy, falsey, .. } => truthy.is_some() || falsey.is_some(),
        _ => false,
    }
}

impl<'a> BuilderContext<'a> {
    pub open spec fn wf(&self) -> bool {
        &&& self.code.wf()
        &&& self.rib.wf()
        &&& self.store.graph.wf()
    }

    /// The type of the value of the function that `val` stands for returns
    /// something: the type recorded for `val` is a function type whose
    /// return type is not that of `None`.
    pub open spec fn returns_value(&self, val: ObjectGraphIndex) -> bool {
        match self.store.spec_type_of(val) {
            Some(t) => t < self.type_map@.len() && (self.type_map@[t as int] matches TypeShape::Function(
                f,
            ) && f.ret != TypeMap::NONE_TYPE),
            None => false,
        }
    }

    /// Whether the instruction `at` leaves a value behind.
    pub open spec fn produces_value(&self, at: usize) -> bool {
        let ops = self.code.ops();
        at < ops.len() && match ops[at as int] {
            Op::Privileged(PrivInst::UseLocal { .. }) => true,
            Op::Privileged(PrivInst::AccessMemberPointer { .. }) => true,
            Op::Const(Const::Int(_)) | Op::Const(Const::Float(_)) | Op::Const(Const::Bool(_)) => true,
            Op::Tuple(_) => true,
            Op::PhiRecv => true,
            Op::Call { callable, .. } => callable < ops.len() && (
            ops[callable as int] matches Op::Privileged(PrivInst::RefVal { val })
                && self.returns_value(val)),
            _ => false,
        }
    }

    /// The first of the first `n` operands that leaves no value behind.
    pub open spec fn missing_value(&self, operands: Seq<usize>, n: int) -> Option<usize>
        decreases n,
    {
        if n <= 0 {
            None
        } else {
            match self.missing_value(operands, n - 1) {
                Some(m) => Some(m),
                None => if self.produces_value(operands[n - 1]) {
                    None
                } else {
                    Some(operands[n - 1])
                },
            }
        }
    }

    /// The members of the tuple type noted on the instruction `at`.
    pub open spec fn tuple_members(&self, at: usize) -> Option<Seq<LocalTypeId>> {
        if at < self.code.types().len() {
            match self.code.types()[at as int] {
                Some(t) => if t < self.type_map@.len() {
                    match self.type_map@[t as int] {
                        TypeShape::Tuple { members } => Some(members),
                        _ => None,
                    }
                } else {
                    None
                },
                None => None,
            }
        } else {
            None
        }
    }

    /// The slot for one local, or `None` where the size of its type is not
    /// known.
    pub open spec fn slot_for(&self, name: usize, type_id: LocalTypeId) -> Option<StackSlot> {
        if type_id < self.type_map@.len() {
            let param = match arg_index(self.args@, self.recv.is_some(), name, self.args@.len() as int) {
                Some(i) => if i <= usize::MAX {
                    Some(i as usize)
                } else {
                    None
                },
                None => None,
            };
            Some(
                StackSlot {
                    name,
                    type_id,
                    size: slot_size(TypeMap::shape_layout(self.type_map@[type_id as int]).size as nat) as usize,
                    param,
                },
            )
        } else {
            None
        }
    }
}

/// The stores that put the first `n` elements of a tuple at their offsets.
pub open spec fn member_stores(
    layouts: Seq<crate::typing::TypeLayout>,
    base: usize,
    elements: Seq<usize>,
    n: int,
) -> Seq<LowOp> {
    Seq::new(
        n as nat,
        |k: int|
            LowOp::StoreMember {
                base,
                byte_offset: member_offset(layouts, k) as usize,
                value: elements[k],
            },
    )
}

impl<'a> BuilderContext<'a> {
    /// Whether the layout of a tuple with these members can be computed:
    /// every member type is known and the size fits in `usize`.
    pub open spec fn layout_known(&self, members: Seq<LocalTypeId>) -> bool {
        &&& forall|i: int| 0 <= i < members.len() ==> members[i] < self.type_map@.len()
        &&& members_size(self.type_map.member_layouts(members)) <= usize::MAX
    }

    /// The slot of the receiver, if there is one, followed by the slots of
    /// the first `n` locals of the rib. The receiver's slot takes the first
    /// parameter if the receiver's name is also the name of a parameter.
    pub open spec fn slots(&self, n: int) -> Result<Seq<StackSlot>, LowerError>
        decreases n,
    {
        if n <= 0 {
            match self.recv {
                Some((name, type_id)) => match self.slot_for(name.spec_group(), type_id) {
                    Some(slot) => Ok(
                        seq![
                            StackSlot {
                                name: slot.name,
                                type_id,
                                size: slot.size,
                                param: if slot.param.is_some() {
                                    Some(0)
                                } else {
                                    None
                                },
                            },
                        ],
                    ),
                    None => Err(LowerError::UnknownType { inst: 0 }),
                },
                None => Ok(Seq::empty()),
            }
        } else {
            match self.slots(n - 1) {
                Err(e) => Err(e),
                Ok(before) => {
                    let entry = self.rib.order()[n - 1];
                    match self.slot_for(entry.group, entry.type_id) {
                        Some(slot) => Ok(before.push(slot)),
                        None => Err(LowerError::UnknownType { inst: 0 }),
                    }
                },
            }
        }
    }

    /// The operations, unless one of the operands leaves no value behind.
    pub open spec fn needing(&self, inst: usize, operands: Seq<usize>, ops: Seq<LowOp>) -> Result<
        Seq<LowOp>,
        LowerError,
    > {
        match self.missing_value(operands, operands.len() as int) {
            Some(operand) => Err(LowerError::NoValue { inst, operand }),
            None => Ok(ops),
        }
    }

    /// Whether a block starts at `target`.
    pub open spec fn block_at(&self, target: int) -> bool {
        0 <= target < self.code.ops().len() && is_block(self.code.ops()[target])
    }

    /// The jump that leads into the block that starts at `at`, where the
    /// instruction before it lets control fall through.
    pub open spec fn entry_jump(&self, at: usize) -> Seq<LowOp> {
        if at == 0 || !terminates(self.code.ops()[at - 1]) {
            seq![LowOp::Jump { to: at }]
        } else {
            Seq::empty()
        }
    }

    /// A branch to `to` followed by a jump to `other`; both must start
    /// blocks.
    pub open spec fn branching(&self, inst: usize, branch: LowOp, to: usize, other: int) -> Result<
        Seq<LowOp>,
        LowerError,
    > {
        if !self.block_at(to as int) {
            Err(LowerError::NoBlock { inst, target: to })
        } else if !self.block_at(other) || other > usize::MAX {
            Err(LowerError::NoBlock { inst, target: if other > usize::MAX { inst } else { other as usize } })
        } else {
            Ok(seq![branch, LowOp::Jump { to: other as usize }])
        }
    }

    /// The operations that the instruction `inst` becomes, given the stack
    /// slots of the function.
    ///
    /// * Definitions, imports and no-ops become nothing.
    /// * Reading a local loads from its slot; setting it stores into the
    ///   slot.
    /// * A reference to a function declares the function, which must be
    ///   among the declared ones; a call names the function that its callee
    ///   refers to.
    /// * A number or a boolean becomes a constant.
    /// * A tuple is allocated with the size that its layout gives, and each
    ///   element is stored at the offset of its member.
    /// * Reading a member loads from the offset of the member whose
    ///   position is the constant named as offset.
    /// * The start of a block is entered by a jump where control falls
    ///   through from the instruction before.
    /// * A branch whose test is a boolean jumps to one target if the test
    ///   holds and to the other if not; a missing target is the next
    ///   instruction, and a branch without targets does nothing.
    pub open spec fn lowered(&self, slots: Seq<StackSlot>, inst: usize) -> Result<
        Seq<LowOp>,
        LowerError,
    > {
        let ops = self.code.ops();
        let types = self.code.types();
        let nodes = self.store.graph.nodes();
        match ops[inst as int] {
            Op::Nop | Op::Import { .. } | Op::Class { .. } | Op::Defn { .. } => Ok(Seq::empty()),
            Op::Privileged(PrivInst::UseLocal { var }) => match local_slot(
                slots,
                var.spec_group(),
                slots.len() as int,
            ) {
                Some(slot) => Ok(seq![LowOp::StackLoad { slot: slot as usize }]),
                None => Err(LowerError::UnknownLocal { inst }),
            },
            Op::Privileged(PrivInst::RefVal { val }) => if val < nodes.len() && nodes[val as int]
                is Function {
                if self.fids@.contains_key(val) {
                    Ok(seq![LowOp::DeclareFunc { val }])
                } else {
                    Err(LowerError::UnknownFunction { inst })
                }
            } else {
                Err(LowerError::Unsupported { inst })
            },
            Op::Privileged(PrivInst::IntoMemberPointer { .. }) => Ok(Seq::empty()),
            Op::Privileged(PrivInst::AccessMemberPointer { value, offset }) => if !self.produces_value(
                value,
            ) {
                Err(LowerError::NoValue { inst, operand: value })
            } else if !(offset < ops.len() && ops[offset as int] matches Op::Const(Const::Int(_))) {
                Err(LowerError::Unsupported { inst })
            } else {
                let n = ops[offset as int]->Const_0->Int_0;
                let index = if n < 0 {
                    -n
                } else {
                    n as int
                };
                match self.tuple_members(value) {
                    Some(members) => if index < members.len() && self.layout_known(members) {
                        Ok(
                            seq![
                                LowOp::LoadMember {
                                    base: value,
                                    byte_offset: member_offset(
                                        self.type_map.member_layouts(members),
                                        index,
                                    ) as usize,
                                },
                            ],
                        )
                    } else {
                        Err(LowerError::NotATuple { inst })
                    },
                    None => Err(LowerError::NotATuple { inst }),
                }
            },
            Op::Call { callable, arguments } => if callable < ops.len() && (
            ops[callable as int] matches Op::Privileged(PrivInst::RefVal { val })) {
                self.needing(
                    inst,
                    arguments,
                    seq![
                        LowOp::Call {
                            func: ops[callable as int]->Privileged_0->RefVal_val,
                            inst,
                        },
                    ],
                )
            } else {
                Err(LowerError::Unsupported { inst })
            },
            Op::SetVar { variable, value } => match local_slot(
                slots,
                variable.spec_group(),
                slots.len() as int,
            ) {
                Some(slot) => self.needing(
                    inst,
                    seq![value],
                    seq![LowOp::StackStore { slot: slot as usize, value }],
                ),
                None => Err(LowerError::UnknownLocal { inst }),
            },
            Op::Const(Const::Int(n)) => Ok(seq![LowOp::Iconst(n)]),
            Op::Const(Const::Float(f)) => Ok(seq![LowOp::F64const(f)]),
            Op::Const(Const::Bool(b)) => Ok(seq![LowOp::Bconst(b)]),
            Op::Tuple(elements) => match self.tuple_members(inst) {
                Some(members) => if members.len() == elements.len() && self.layout_known(members) {
                    let layouts = self.type_map.member_layouts(members);
                    if members_size(layouts) == 0 {
                        Err(LowerError::EmptyTuple { inst })
                    } else {
                        self.needing(
                            inst,
                            elements,
                            seq![LowOp::Malloc { size: members_size(layouts) as usize }]
                                + member_stores(layouts, inst, elements, elements.len() as int),
                        )
                    }
                } else {
                    Err(LowerError::NotATuple { inst })
                },
                None => Err(LowerError::NotATuple { inst }),
            },
            Op::PhiRecv => Ok(
                self.entry_jump(inst) + seq![
                    LowOp::SwitchToBlock { block: inst },
                    LowOp::BlockParam { block: inst },
                ],
            ),
            Op::JumpTarget => Ok(self.entry_jump(inst) + seq![LowOp::SwitchToBlock { block: inst }]),
            Op::If { test, truthy, falsey } => if !(test < types.len() && types[test as int]
                == Some(TypeMap::BOOL)) {
                Err(LowerError::TestNotBool { inst })
            } else if !self.produces_value(test) {
                Err(LowerError::NoValue { inst, operand: test })
            } else {
                match (truthy, falsey) {
                    (None, None) => Ok(Seq::empty()),
                    (None, Some(f)) => self.branching(
                        inst,
                        LowOp::BranchZero { test, to: f },
                        f,
                        inst + 1,
                    ),
                    (Some(t), None) => self.branching(
                        inst,
                        LowOp::BranchNonZero { test, to: t },
                        t,
                        inst + 1,
                    ),
                    (Some(t), Some(f)) => self.branching(
                        inst,
                        LowOp::BranchNonZero { test, to: t },
                        t,
                        f as int,
                    ),
                }
            },
            Op::Br { to } => if self.block_at(to as int) {
                Ok(seq![LowOp::Jump { to }])
            } else {
                Err(LowerError::NoBlock { inst, target: to })
            },
            Op::PhiJump { recv, value } => if !self.produces_value(value) {
                Err(LowerError::NoValue { inst, operand: value })
            } else {
                match types[value as int] {
                    Some(param_type) => if self.block_at(recv as int) {
                        Ok(seq![LowOp::JumpWith { to: recv, value, param_type }])
                    } else {
                        Err(LowerError::NoBlock { inst, target: recv })
                    },
                    None => Err(LowerError::UnknownType { inst }),
                }
            },
            Op::Return { value } => self.needing(inst, seq![value], seq![LowOp::Return { value }]),
            _ => Err(LowerError::Unsupported { inst }),
        }
    }

    /// The operations of the first `n` instructions, each with the id of
    /// the instruction that it comes from, or the first error.
    pub open spec fn planned(&self, slots: Seq<StackSlot>, n: int) -> Result<
        Seq<(usize, LowOp)>,
        LowerError,
    >
        decreases n,
    {
        if n <= 0 {
            Ok(Seq::empty())
        } else {
            match self.planned(slots, n - 1) {
                Err(e) => Err(e),
                Ok(before) => match self.lowered(slots, (n - 1) as usize) {
                    Err(e) => Err(e),
                    Ok(ops) => Ok(before + Seq::new(ops.len(), |k: int| ((n - 1) as usize, ops[k]))),
                },
            }
        }
    }
}

/// The plan for one function.
pub struct Plan {
    pub slots: Vec<StackSlot>,
    /// The operations in order, each with the id of the flat instruction
    /// that it comes from.
    pub ops: Vec<(usize, LowOp)>,
}

/// The last of the first `n` slots that holds a local lies among them.
pub proof fn lemma_local_slot(slots: Seq<StackSlot>, group: usize, n: int)
    requires
        n <= slots.len(),
    ensures
        local_slot(slots, group, n) matches Some(i) ==> 0 <= i < n && slots[i].name == group,
    decreases n,
{
    if n > 0 && slots[n - 1].name != group {
        lemma_local_slot(slots, group, n - 1);
    }
}

/// The place of the last of the first `n` names that has the given group.
pub open spec fn last_arg(args: Seq<SpanRef>, group: usize, n: int) -> Option<int>
    decreases n,
{
    if n <= 0 {
        None
    } else if args[n - 1].spec_group() == group {
        Some(n - 1)
    } else {
        last_arg(args, group, n - 1)
    }
}

/// The position of a parameter is the place of its name, counted after
/// the receiver if there is one.
pub proof fn lemma_last_arg(args: Seq<SpanRef>, recv: bool, group: usize, n: int)
    requires
        n <= args.len(),
    ensures
        match last_arg(args, group, n) {
            Some(i) => 0 <= i < n && arg_index(args, recv, group, n) == Some(
                i + if recv {
                    1int
                } else {
                    0int
                },
            ),
            None => arg_index(args, recv, group, n).is_none(),
        },
    decreases n,
{
    if n > 0 && args[n - 1].spec_group() != group {
        lemma_last_arg(args, recv, group, n - 1);
    }
}

/// An `ahash` map from the group of a parameter's name to its place among
/// the parameters.
struct ArgTable {
    index: IdTable,
}

impl ArgTable {
    /// Whether the map leads from the group of each name to the last place
    /// among the first `n` of `args` at which it stands, and from nothing
    /// else.
    closed spec fn indexed(&self, args: Seq<SpanRef>, n: int) -> bool {
        forall|group: usize|
            match #[trigger] last_arg(args, group, n) {
                Some(i) => id_table_entries(self.index).contains_key(group as u64)
                    && id_table_entries(self.index)[group as u64] == i,
                None => !id_table_entries(self.index).contains_key(group as u64),
            }
    }

    /// The table of the given names.
    fn new(args: &Vec<SpanRef>) -> (table: Self)
        ensures
            table.indexed(args@, args@.len() as int),
    {
        let mut table = ArgTable { index: id_table_new() };
        let mut n: usize = 0;
        while n < args.len()
            invariant
                n <= args@.len(),
                table.indexed(args@, n as int),
            decreases args@.len() - n,
        {
            let name = args[n].group();
            let ghost before = table;
            id_table_insert(&mut table.index, name as u64, n as u64);
            proof {
                assert forall|group: usize|
                    match #[trigger] last_arg(args@, group, n + 1) {
                        Some(i) => id_table_entries(table.index).contains_key(group as u64)
                            && id_table_entries(table.index)[group as u64] == i,
                        None => !id_table_entries(table.index).contains_key(group as u64),
                    } by {
                    if group != name {
                        assert(group as u64 != name as u64);
                        assert(last_arg(args@, group, n + 1) == last_arg(args@, group, n as int));
                        assert(before.indexed(args@, n as int));
                    }
                }
            }
            n += 1;
        }
        table
    }
}

/// The stack slots of a function with an `ahash` map beside them that
/// leads from the group of a local to its slot.
pub struct SlotTable {
    slots: Vec<StackSlot>,
    index: IdTable,
}

impl SlotTable {
    /// The slots, in order.
    pub closed spec fn slots(&self) -> Seq<StackSlot> {
        self.slots@
    }

    /// Whether the map leads from the group of each local to the last of
    /// the first `n` slots that holds it, and from nothing else.
    closed spec fn indexed(&self, n: int) -> bool {
        forall|group: usize|
            match #[trigger] local_slot(self.slots@, group, n) {
                Some(i) => id_table_entries(self.index).contains_key(group as u64)
                    && id_table_entries(self.index)[group as u64] == i,
                None => !id_table_entries(self.index).contains_key(group as u64),
            }
    }

    /// The map leads from the group of each local to the last slot that
    /// holds it, and from nothing else.
    pub closed spec fn wf(&self) -> bool {
        self.indexed(self.slots@.len() as int)
    }

    /// The table of the given slots.
    pub fn new(slots: Vec<StackSlot>) -> (table: Self)
        ensures
            table.wf(),
            table.slots() == slots@,
    {
        let mut table = SlotTable { slots, index: id_table_new() };
        let mut n: usize = 0;
        while n < table.slots.len()
            invariant
                n <= table.slots@.len(),
                table.slots@ == slots@,
                table.indexed(n as int),
            decreases table.slots@.len() - n,
        {
            let name = table.slots[n].name;
            let ghost before = table;
            id_table_insert(&mut table.index, name as u64, n as u64);
            proof {
                assert forall|group: usize|
                    match #[trigger] local_slot(table.slots@, group, n + 1) {
                        Some(i) => id_table_entries(table.index).contains_key(group as u64)
                            && id_table_entries(table.index)[group as u64] == i,
                        None => !id_table_entries(table.index).contains_key(group as u64),
                    } by {
                    if group != name {
                        assert(group as u64 != name as u64);
                        assert(local_slot(table.slots@, group, n + 1) == local_slot(
                            before.slots@,
                            group,
                            n as int,
                        ));
                    }
                }
            }
            n += 1;
        }
        table
    }

    /// The slot of the local with the given group: the last that holds it.
    pub fn find(&self, group: usize) -> (slot: Option<usize>)
        requires
            self.wf(),
        ensures
            match slot {
                Some(s) => local_slot(self.slots(), group, self.slots().len() as int) == Some(
                    s as int,
                ),
                None => local_slot(self.slots(), group, self.slots().len() as int).is_none(),
            },
    {
        let held = self.slots.len();
        proof {
            lemma_local_slot(self.slots@, group, held as int);
        }
        match id_table_get(&self.index, group as u64) {
            Some(place) => {
                assert(local_slot(self.slots@, group, held as int).is_some());
                assert(place < held);
                Some(place as usize)
            },
            None => None,
        }
    }

    /// The slots themselves.
    pub fn into_slots(self) -> (slots: Vec<StackSlot>)
        ensures
            slots@ == self.slots(),
    {
        self.slots
    }
}

impl<'a> BuilderContext<'a> {
    fn find_arg(&self, args: &ArgTable, group: usize) -> (index: Option<usize>)
        requires
            args.indexed(self.args@, self.args@.len() as int),
        ensures
            match index {
                Some(i) => arg_index(
                    self.args@,
                    self.recv.is_some(),
                    group,
                    self.args@.len() as int,
                ) == Some(i as int),
                None => match arg_index(
                    self.args@,
                    self.recv.is_some(),
                    group,
                    self.args@.len() as int,
                ) {
                    Some(i) => i > usize::MAX,
                    None => true,
                },
            },
    {
        let held = self.args.len();
        proof {
            lemma_last_arg(self.args@, self.recv.is_some(), group, held as int);
        }
        match id_table_get(&args.index, group as u64) {
            Some(place) => {
                assert(last_arg(self.args@, group, held as int).is_some());
                assert(place < held);
                let at = place as usize;
                if self.recv.is_some() {
                    at.checked_add(1)
                } else {
                    Some(at)
                }
            },
            None => None,
        }
    }

    fn make_slot(&self, args: &ArgTable, name: usize, type_id: LocalTypeId) -> (slot: Option<
        StackSlot,
    >)
        requires
            args.indexed(self.args@, self.args@.len() as int),
        ensures
            slot == self.slot_for(name, type_id),
    {
        match self.type_map.size_of(type_id) {
            Some(size) => {
                let rounded = (size + 15) / 16 * 16;
                Some(StackSlot { name, type_id, size: rounded, param: self.find_arg(args, name) })
            },
            None => None,
        }
    }

    /// The stack slots of the function.
    pub fn stack_slots(&self) -> (result: Result<Vec<StackSlot>, LowerError>)
        requires
            self.wf(),
        ensures
            match result {
                Ok(slots) => self.slots(self.rib.order().len() as int) == Ok::<
                    Seq<StackSlot>,
                    LowerError,
                >(slots@),
                Err(e) => self.slots(self.rib.order().len() as int) == Err::<
                    Seq<StackSlot>,
                    LowerError,
                >(e),
            },
    {
        let args = ArgTable::new(self.args);
        let mut slots: Vec<StackSlot> = Vec::new();
        match self.recv {
            Some((name, type_id)) => match self.make_slot(&args, name.group(), type_id) {
                Some(slot) => {
                    let param = if slot.param.is_some() {
                        Some(0)
                    } else {
                        None
                    };
                    slots.push(StackSlot { name: slot.name, type_id, size: slot.size, param });
                },
                None => {
                    proof {
                        self.lemma_slots_fail(0, self.rib.order().len() as int);
                    }
                    return Err(LowerError::UnknownType { inst: 0 });
                },
            },
            None => {},
        }
        let n = self.rib.len();
        let mut i: usize = 0;
        while i < n
            invariant
                self.wf(),
                args.indexed(self.args@, self.args@.len() as int),
                i <= n,
                n == self.rib.order().len(),
                self.slots(i as int) == Ok::<Seq<StackSlot>, LowerError>(slots@),
            decreases n - i,
        {
            let entry = match self.rib.entry(i) {
                Some(e) => e,
                None => {
                    proof {
                        assert(false);
                    }
                    return Err(LowerError::UnknownType { inst: 0 });
                },
            };
            match self.make_slot(&args, entry.group, entry.type_id) {
                Some(slot) => {
                    slots.push(slot);
                },
                None => {
                    proof {
                        self.lemma_slots_fail(i as int + 1, n as int);
                    }
                    return Err(LowerError::UnknownType { inst: 0 });
                },
            }
            i += 1;
        }
        Ok(slots)
    }

    proof fn lemma_slots_fail(&self, at: int, n: int)
        requires
            0 <= at <= n,
            self.slots(at).is_err(),
        ensures
            self.slots(n) == self.slots(at),
        decreases n - at,
    {
        if at < n {
            self.lemma_slots_fail(at, n - 1);
        }
    }

    proof fn lemma_planned_fail(&self, slots: Seq<StackSlot>, at: int, n: int)
        requires
            0 < at <= n,
            self.planned(slots, at).is_err(),
        ensures
            self.planned(slots, n) == self.planned(slots, at),
        decreases n - at,
    {
        if at < n {
            self.lemma_planned_fail(slots, at, n - 1);
        }
    }

    fn gives_value(&self, val: ObjectGraphIndex) -> (yes: bool)
        ensures
            yes == self.returns_value(val),
    {
        match self.store.type_of(val) {
            Some(t) => match self.type_map.get_function(t) {
                Some(f) => f.ret != TypeMap::NONE_TYPE,
                None => false,
            },
            None => false,
        }
    }

    fn has_value(&self, at: usize) -> (yes: bool)
        ensures
            yes == self.produces_value(at),
    {
        let insts = self.code.inst();
        if at >= insts.len() {
            return false;
        }
        assert(insts@[at as int].op@ == self.code.ops()[at as int]);
        match &insts[at].op {
            RawInst::Privileged(PrivInst::UseLocal { .. }) => true,
            RawInst::Privileged(PrivInst::AccessMemberPointer { .. }) => true,
            RawInst::Const(Const::Int(_)) | RawInst::Const(Const::Float(_)) | RawInst::Const(
                Const::Bool(_),
            ) => true,
            RawInst::Tuple(_) => true,
            RawInst::PhiRecv => true,
            RawInst::Call { callable, .. } => {
                if *callable >= insts.len() {
                    return false;
                }
                assert(insts@[*callable as int].op@ == self.code.ops()[*callable as int]);
                match &insts[*callable].op {
                    RawInst::Privileged(PrivInst::RefVal { val }) => self.gives_value(*val),
                    _ => false,
                }
            },
            _ => false,
        }
    }

    fn first_missing(&self, operands: &Vec<usize>) -> (missing: Option<usize>)
        ensures
            missing == self.missing_value(operands@, operands@.len() as int),
    {
        let mut i: usize = 0;
        while i < operands.len()
            invariant
                i <= operands@.len(),
                self.missing_value(operands@, i as int).is_none(),
            decreases operands@.len() - i,
        {
            if !self.has_value(operands[i]) {
                proof {
                    self.lemma_missing_stays(operands@, i as int + 1, operands@.len() as int);
                }
                return Some(operands[i]);
            }
            i += 1;
        }
        None
    }

    proof fn lemma_missing_stays(&self, operands: Seq<usize>, at: int, n: int)
        requires
            0 < at <= n,
            self.missing_value(operands, at).is_some(),
        ensures
            self.missing_value(operands, n) == self.missing_value(operands, at),
        decreases n - at,
    {
        if at < n {
            self.lemma_missing_stays(operands, at, n - 1);
        }
    }

    fn is_declared(&self, val: ObjectGraphIndex) -> (yes: bool)
        ensures
            yes == self.fids@.contains_key(val),
    {
        self.fids.get(val).is_some()
    }

    fn starts_block(&self, target: usize) -> (yes: bool)
        ensures
            yes == self.block_at(target as int),
    {
        let insts = self.code.inst();
        if target >= insts.len() {
            return false;
        }
        assert(insts@[target as int].op@ == self.code.ops()[target as int]);
        match &insts[target].op {
            RawInst::JumpTarget | RawInst::PhiRecv | RawInst::If { .. } => true,
            _ => false,
        }
    }

    fn members_of(&self, at: usize) -> (members: Option<&Vec<LocalTypeId>>)
        ensures
            match members {
                Some(m) => self.tuple_members(at) == Some(m@),
                None => self.tuple_members(at).is_none(),
            },
    {
        let insts = self.code.inst();
        if at >= insts.len() {
            return None;
        }
        assert(insts@[at as int].attrs.type_id == self.code.types()[at as int]);
        match insts[at].attrs.type_id {
            Some(t) => match self.type_map.get(t) {
                Some(TypeDescriptor::Tuple { members }) => Some(members),
                _ => None,
            },
            None => None,
        }
    }

    fn enter(&self, at: usize, ops: &mut Vec<LowOp>)
        requires
            at < self.code.ops().len(),
            old(ops)@.len() == 0,
        ensures
            final(ops)@ == self.entry_jump(at),
    {
        let insts = self.code.inst();
        let falls = if at == 0 {
            true
        } else {
            assert(insts@[at - 1].op@ == self.code.ops()[at - 1]);
            match &insts[at - 1].op {
                RawInst::Br { .. } | RawInst::PhiJump { .. } | RawInst::Return { .. } => false,
                RawInst::If { truthy, falsey, .. } => !(truthy.is_some() || falsey.is_some()),
                _ => true,
            }
        };
        if falls {
            ops.push(LowOp::Jump { to: at });
        }
        assert(ops@ =~= self.entry_jump(at));
    }

    fn branch(&self, inst: usize, branch: LowOp, to: usize, other: Option<usize>) -> (result:
        Result<Vec<LowOp>, LowerError>)
        requires
            other.is_none() ==> inst == usize::MAX,
        ensures
            match result {
                Ok(ops) => self.branching(
                    inst,
                    branch,
                    to,
                    match other {
                        Some(o) => o as int,
                        None => inst + 1,
                    },
                ) == Ok::<Seq<LowOp>, LowerError>(ops@),
                Err(e) => self.branching(
                    inst,
                    branch,
                    to,
                    match other {
                        Some(o) => o as int,
                        None => inst + 1,
                    },
                ) == Err::<Seq<LowOp>, LowerError>(e),
            },
    {
        if !self.starts_block(to) {
            return Err(LowerError::NoBlock { inst, target: to });
        }
        match other {
            Some(o) => {
                if !self.starts_block(o) {
                    return Err(LowerError::NoBlock { inst, target: o });
                }
                let ops = vec![branch, LowOp::Jump { to: o }];
                assert(ops@ =~= seq![branch, LowOp::Jump { to: o }]);
                Ok(ops)
            },
            None => {
                let length = self.code.len();
                Err(LowerError::NoBlock { inst, target: inst })
            },
        }
    }

    /// Lowers the instruction `inst`.
    pub fn lower_inst(&self, slots: &SlotTable, inst: usize) -> (result: Result<
        Vec<LowOp>,
        LowerError,
    >)
        requires
            self.wf(),
            slots.wf(),
            inst < self.code.ops().len(),
        ensures
            match result {
                Ok(ops) => self.lowered(slots.slots(), inst) == Ok::<Seq<LowOp>, LowerError>(ops@),
                Err(e) => self.lowered(slots.slots(), inst) == Err::<Seq<LowOp>, LowerError>(e),
            },
    {
        let insts = self.code.inst();
        let mut ops: Vec<LowOp> = Vec::new();
        assert(insts@[inst as int].op@ == self.code.ops()[inst as int]);
        match &insts[inst].op {
            RawInst::Nop | RawInst::Import { .. } | RawInst::Class { .. } | RawInst::Defn { .. } => {
                assert(ops@ =~= Seq::<LowOp>::empty());
                Ok(ops)
            },
            RawInst::Privileged(PrivInst::UseLocal { var }) => match slots.find(var.group()) {
                Some(slot) => {
                    ops.push(LowOp::StackLoad { slot });
                    assert(ops@ =~= seq![LowOp::StackLoad { slot }]);
                    Ok(ops)
                },
                None => Err(LowerError::UnknownLocal { inst }),
            },
            RawInst::Privileged(PrivInst::RefVal { val }) => {
                match self.store.graph.node_weight(*val) {
                    Some(Value::Function { .. }) => {},
                    _ => {
                        return Err(LowerError::Unsupported { inst });
                    },
                }
                if self.is_declared(*val) {
                    ops.push(LowOp::DeclareFunc { val: *val });
                    assert(ops@ =~= seq![LowOp::DeclareFunc { val: *val }]);
                    return Ok(ops);
                }
                Err(LowerError::UnknownFunction { inst })
            },
            RawInst::Privileged(PrivInst::IntoMemberPointer { .. }) => {
                assert(ops@ =~= Seq::<LowOp>::empty());
                Ok(ops)
            },
            RawInst::Privileged(PrivInst::AccessMemberPointer { value, offset }) => {
                if !self.has_value(*value) {
                    return Err(LowerError::NoValue { inst, operand: *value });
                }
                if *offset >= insts.len() {
                    return Err(LowerError::Unsupported { inst });
                }
                assert(insts@[*offset as int].op@ == self.code.ops()[*offset as int]);
                let n = match &insts[*offset].op {
                    RawInst::Const(Const::Int(n)) => *n,
                    _ => {
                        return Err(LowerError::Unsupported { inst });
                    },
                };
                let members = match self.members_of(*value) {
                    Some(m) => m,
                    None => {
                        return Err(LowerError::NotATuple { inst });
                    },
                };
                let position: u64 = if n < 0 {
                    if n == i64::MIN {
                        9223372036854775808u64
                    } else {
                        (-n) as u64
                    }
                } else {
                    n as u64
                };
                if position >= members.len() as u64 {
                    return Err(LowerError::NotATuple { inst });
                }
                match self.type_map.layout_of(members.as_slice()) {
                    Some((_, offsets)) => {
                        let byte_offset = offsets[position as usize];
                        ops.push(LowOp::LoadMember { base: *value, byte_offset });
                        assert(ops@ =~= seq![LowOp::LoadMember { base: *value, byte_offset }]);
                        Ok(ops)
                    },
                    None => Err(LowerError::NotATuple { inst }),
                }
            },
            RawInst::Call { callable, arguments } => {
                if *callable >= insts.len() {
                    return Err(LowerError::Unsupported { inst });
                }
                assert(insts@[*callable as int].op@ == self.code.ops()[*callable as int]);
                let func = match &insts[*callable].op {
                    RawInst::Privileged(PrivInst::RefVal { val }) => *val,
                    _ => {
                        return Err(LowerError::Unsupported { inst });
                    },
                };
                match self.first_missing(arguments) {
                    Some(operand) => Err(LowerError::NoValue { inst, operand }),
                    None => {
                        ops.push(LowOp::Call { func, inst });
                        assert(ops@ =~= seq![LowOp::Call { func, inst }]);
                        Ok(ops)
                    },
                }
            },
            RawInst::SetVar { variable, value } => match slots.find(variable.group()) {
                Some(slot) => {
                    let operands = vec![*value];
                    assert(operands@ =~= seq![*value]);
                    match self.first_missing(&operands) {
                        Some(operand) => Err(LowerError::NoValue { inst, operand }),
                        None => {
                            ops.push(LowOp::StackStore { slot, value: *value });
                            assert(ops@ =~= seq![LowOp::StackStore { slot, value: *value }]);
                            Ok(ops)
                        },
                    }
                },
                None => Err(LowerError::UnknownLocal { inst }),
            },
            RawInst::Const(Const::Int(n)) => {
                ops.push(LowOp::Iconst(*n));
                assert(ops@ =~= seq![LowOp::Iconst(*n)]);
                Ok(ops)
            },
            RawInst::Const(Const::Float(f)) => {
                ops.push(LowOp::F64const(*f));
                assert(ops@ =~= seq![LowOp::F64const(*f)]);
                Ok(ops)
            },
            RawInst::Const(Const::Bool(b)) => {
                ops.push(LowOp::Bconst(*b));
                assert(ops@ =~= seq![LowOp::Bconst(*b)]);
                Ok(ops)
            },
            RawInst::Tuple(elements) => {
                let members = match self.members_of(inst) {
                    Some(m) => m,
                    None => {
                        return Err(LowerError::NotATuple { inst });
                    },
                };
                if members.len() != elements.len() {
                    return Err(LowerError::NotATuple { inst });
                }
                let (size, offsets) = match self.type_map.layout_of(members.as_slice()) {
                    Some(found) => found,
                    None => {
                        return Err(LowerError::NotATuple { inst });
                    },
                };
                if size == 0 {
                    return Err(LowerError::EmptyTuple { inst });
                }
                match self.first_missing(elements) {
                    Some(operand) => {
                        return Err(LowerError::NoValue { inst, operand });
                    },
                    None => {},
                }
                let ghost layouts = self.type_map.member_layouts(members@);
                ops.push(LowOp::Malloc { size });
                let mut k: usize = 0;
                while k < elements.len()
                    invariant
                        k <= elements@.len(),
                        offsets@.len() == elements@.len(),
                        forall|j: int|
                            0 <= j < offsets@.len() ==> offsets@[j] == member_offset(layouts, j),
                        ops@ == seq![LowOp::Malloc { size }] + member_stores(
                            layouts,
                            inst,
                            elements@,
                            k as int,
                        ),
                    decreases elements@.len() - k,
                {
                    ops.push(
                        LowOp::StoreMember {
                            base: inst,
                            byte_offset: offsets[k],
                            value: elements[k],
                        },
                    );
                    k += 1;
                    assert(ops@ =~= seq![LowOp::Malloc { size }] + member_stores(
                        layouts,
                        inst,
                        elements@,
                        k as int,
                    ));
                }
                Ok(ops)
            },
            RawInst::PhiRecv => {
                self.enter(inst, &mut ops);
                ops.push(LowOp::SwitchToBlock { block: inst });
                ops.push(LowOp::BlockParam { block: inst });
                assert(ops@ =~= self.entry_jump(inst) + seq![
                    LowOp::SwitchToBlock { block: inst },
                    LowOp::BlockParam { block: inst },
                ]);
                Ok(ops)
            },
            RawInst::JumpTarget => {
                self.enter(inst, &mut ops);
                ops.push(LowOp::SwitchToBlock { block: inst });
                assert(ops@ =~= self.entry_jump(inst) + seq![LowOp::SwitchToBlock { block: inst }]);
                Ok(ops)
            },
            RawInst::If { test, truthy, falsey } => {
                let boolean = if *test < insts.len() {
                    assert(insts@[*test as int].attrs.type_id == self.code.types()[*test as int]);
                    match insts[*test].attrs.type_id {
                        Some(t) => t == TypeMap::BOOL,
                        None => false,
                    }
                } else {
                    false
                };
                if !boolean {
                    return Err(LowerError::TestNotBool { inst });
                }
                if !self.has_value(*test) {
                    return Err(LowerError::NoValue { inst, operand: *test });
                }
                let next = inst.checked_add(1);
                match (*truthy, *falsey) {
                    (None, None) => {
                        assert(ops@ =~= Seq::<LowOp>::empty());
                        Ok(ops)
                    },
                    (None, Some(f)) => self.branch(
                        inst,
                        LowOp::BranchZero { test: *test, to: f },
                        f,
                        next,
                    ),
                    (Some(t), None) => self.branch(
                        inst,
                        LowOp::BranchNonZero { test: *test, to: t },
                        t,
                        next,
                    ),
                    (Some(t), Some(f)) => self.branch(
                        inst,
                        LowOp::BranchNonZero { test: *test, to: t },
                        t,
                        Some(f),
                    ),
                }
            },
            RawInst::Br { to } => {
                if self.starts_block(*to) {
                    ops.push(LowOp::Jump { to: *to });
                    assert(ops@ =~= seq![LowOp::Jump { to: *to }]);
                    Ok(ops)
                } else {
                    Err(LowerError::NoBlock { inst, target: *to })
                }
            },
            RawInst::PhiJump { recv, value } => {
                if !self.has_value(*value) {
                    return Err(LowerError::NoValue { inst, operand: *value });
                }
                assert(insts@[*value as int].attrs.type_id == self.code.types()[*value as int]);
                match insts[*value].attrs.type_id {
                    Some(param_type) => {
                        if self.starts_block(*recv) {
                            let op = LowOp::JumpWith { to: *recv, value: *value, param_type };
                            ops.push(op);
                            assert(ops@ =~= seq![op]);
                            Ok(ops)
                        } else {
                            Err(LowerError::NoBlock { inst, target: *recv })
                        }
                    },
                    None => Err(LowerError::UnknownType { inst }),
                }
            },
            RawInst::Return { value } => {
                let operands = vec![*value];
                assert(operands@ =~= seq![*value]);
                match self.first_missing(&operands) {
                    Some(operand) => Err(LowerError::NoValue { inst, operand }),
                    None => {
                        ops.push(LowOp::Return { value: *value });
                        assert(ops@ =~= seq![LowOp::Return { value: *value }]);
                        Ok(ops)
                    },
                }
            },
            _ => Err(LowerError::Unsupported { inst }),
        }
    }

    /// Lowers the function: its stack slots, then every instruction in
    /// order. The first instruction that cannot be lowered ends the work.
    pub fn build(&self) -> (result: Result<Plan, LowerError>)
        requires
            self.wf(),
        ensures
            ({
                let slots = self.slots(self.rib.order().len() as int);
                match result {
                    Ok(plan) => slots == Ok::<Seq<StackSlot>, LowerError>(plan.slots@)
                        && self.planned(plan.slots@, self.code.ops().len() as int) == Ok::<
                        Seq<(usize, LowOp)>,
                        LowerError,
                    >(plan.ops@),
                    Err(e) => slots == Err::<Seq<StackSlot>, LowerError>(e) || (slots.is_ok()
                        && self.planned(slots.unwrap(), self.code.ops().len() as int) == Err::<
                        Seq<(usize, LowOp)>,
                        LowerError,
                    >(e)),
                }
            }),
    {
        let slots = match self.stack_slots() {
            Ok(s) => SlotTable::new(s),
            Err(e) => {
                return Err(e);
            },
        };
        let mut ops: Vec<(usize, LowOp)> = Vec::new();
        let n = self.code.len();
        let mut i: usize = 0;
        while i < n
            invariant
                self.wf(),
                slots.wf(),
                i <= n,
                n == self.code.ops().len(),
                self.slots(self.rib.order().len() as int) == Ok::<Seq<StackSlot>, LowerError>(
                    slots.slots(),
                ),
                self.planned(slots.slots(), i as int) == Ok::<Seq<(usize, LowOp)>, LowerError>(
                    ops@,
                ),
            decreases n - i,
        {
            match self.lower_inst(&slots, i) {
                Ok(more) => {
                    let ghost before = ops@;
                    let mut k: usize = 0;
                    while k < more.len()
                        invariant
                            k <= more@.len(),
                            ops@ == before + Seq::new(k as nat, |j: int| (i, more@[j])),
                        decreases more@.len() - k,
                    {
                        ops.push((i, more[k]));
                        k += 1;
                        assert(ops@ =~= before + Seq::new(k as nat, |j: int| (i, more@[j])));
                    }
                    assert(Seq::new(more@.len(), |j: int| (i, more@[j])) =~= Seq::new(
                        more@.len(),
                        |k: int| (((i + 1) - 1) as usize, more@[k]),
                    ));
                },
                Err(e) => {
                    proof {
                        self.lemma_planned_fail(slots.slots(), i as int + 1, n as int);
                    }
                    return Err(e);
                },
            }
            i += 1;
        }
        Ok(Plan { slots: slots.into_slots(), ops })
    }
}

} // verus!
