//! Flat code: the program as linear sequences of instructions.
//!
//! A value id is the position of the instruction that produces the value,
//! so the ids of a sequence are dense and in order. One sequence holds the
//! top level of the module; every function has a sequence of its own.

pub mod lower;
pub mod raw_inst;

use crate::flatcode::raw_inst::{Const, Op, RawInst};
use crate::span::SpanRef;
use crate::typing::LocalTypeId;
use vstd::prelude::*;

verus! {

/// What is known of an instruction besides its operation.
#[derive(Clone, Copy, Debug, Default, PartialEq, Eq)]
pub struct InstAttrs {
    pub span: Option<SpanRef>,
    pub type_id: Option<LocalTypeId>,
}

/// An instruction and the id of the value that it produces.
#[derive(Clone, Debug)]
pub struct FlatInst {
    pub op: RawInst,
    pub value: usize,
    pub attrs: InstAttrs,
}

/// What a sequence holds.
#[derive(Clone, Copy, Debug, PartialEq, Eq, Structural)]
pub enum SequenceType {
    Module,
    Function,
}

/// A sequence of flat code.
#[derive(Debug)]
pub struct FlatSeq {
    pub(crate) inst: Vec<FlatInst>,
    pub(crate) kind: SequenceType,
}

impl FlatSeq {
    /// The operations of the instructions, in order.
    pub closed spec fn ops(&self) -> Seq<Op> {
        Seq::new(self.inst@.len(), |i: int| self.inst@[i].op@)
    }

    /// The value ids of the instructions, in order.
    pub closed spec fn values(&self) -> Seq<usize> {
        Seq::new(self.inst@.len(), |i: int| self.inst@[i].value)
    }

    /// The types noted on the instructions, in order.
    pub closed spec fn types(&self) -> Seq<Option<LocalTypeId>> {
        Seq::new(self.inst@.len(), |i: int| self.inst@[i].attrs.type_id)
    }

    /// The places in the source noted on the instructions, in order.
    pub closed spec fn spans(&self) -> Seq<Option<SpanRef>> {
        Seq::new(self.inst@.len(), |i: int| self.inst@[i].attrs.span)
    }

    /// What the sequence holds.
    pub closed spec fn spec_kind(&self) -> SequenceType {
        self.kind
    }

    /// Every instruction's value id is its position.
    pub open spec fn wf(&self) -> bool {
        forall|i: int| 0 <= i < self.values().len() ==> self.values()[i] == i
    }

    /// An empty sequence.
    pub fn new(kind: SequenceType) -> (seq: Self)
        ensures
            seq.wf(),
            seq.ops().len() == 0,
            seq.spec_kind() == kind,
    {
        FlatSeq { inst: Vec::new(), kind }
    }

    /// The instructions.
    pub fn inst(&self) -> (inst: &[FlatInst])
        ensures
            inst@.len() == self.ops().len(),
            inst@.len() == self.types().len(),
            inst@.len() == self.values().len(),
            inst@.len() == self.spans().len(),
            forall|i: int|
                0 <= i < inst@.len() ==> (#[trigger] inst@[i]).op@ == self.ops()[i] && inst@[i].value
                    == self.values()[i] && inst@[i].attrs.type_id == self.types()[i]
                    && inst@[i].attrs.span == self.spans()[i],
    {
        self.inst.as_slice()
    }

    /// What the sequence holds.
    pub fn kind(&self) -> (kind: SequenceType)
        ensures
            kind == self.spec_kind(),
    {
        self.kind
    }

    /// The number of instructions.
    pub fn len(&self) -> (n: usize)
        ensures
            n == self.ops().len(),
    {
        self.inst.len()
    }

    /// Appends an instruction and gives the id of its value. No place in
    /// the source is noted on the new instruction; the others keep theirs.
    pub fn push(&mut self, op: RawInst, type_id: Option<LocalTypeId>) -> (value: usize)
        requires
            old(self).wf(),
        ensures
            final(self).wf(),
            value == old(self).ops().len(),
            final(self).ops() == old(self).ops().push(op@),
            final(self).types() == old(self).types().push(type_id),
            final(self).spans() == old(self).spans().push(None),
            final(self).spec_kind() == old(self).spec_kind(),
    {
        let value = self.inst.len();
        self.inst.push(FlatInst { op, value, attrs: InstAttrs { span: None, type_id } });
        proof {
            assert(self.ops() =~= old(self).ops().push(op@));
            assert(self.types() =~= old(self).types().push(type_id));
            assert(self.spans() =~= old(self).spans().push(None));
            assert forall|i: int| 0 <= i < self.values().len() implies self.values()[i] == i by {
                if i < old(self).values().len() {
                    assert(old(self).values()[i] == i);
                }
            }
        }
        value
    }
}

/// The flat code of a module.
#[derive(Debug)]
pub struct FlatCode {
    sequence_index: usize,
    pub(crate) sequences: Vec<FlatSeq>,
}

impl FlatCode {
    /// The sequences, as values.
    pub closed spec fn seqs(&self) -> Seq<FlatSeq> {
        self.sequences@
    }

    /// The sequence that instructions are appended to.
    pub closed spec fn current(&self) -> int {
        self.sequence_index as int
    }

    /// The first sequence is that of the module, every other one that of a
    /// function; all are well formed, and the current one exists.
    pub open spec fn wf(&self) -> bool {
        &&& self.seqs().len() > 0
        &&& 0 <= self.current() < self.seqs().len()
        &&& forall|s: int| 0 <= s < self.seqs().len() ==> (#[trigger] self.seqs()[s]).wf()
        &&& forall|s: int|
            0 <= s < self.seqs().len() ==> ((#[trigger] self.seqs()[s]).spec_kind()
                == SequenceType::Module <==> s == 0)
    }

    /// Flat code with an empty module sequence.
    pub fn new() -> (code: Self)
        ensures
            code.wf(),
            code.seqs().len() == 1,
            code.current() == 0,
            code.seqs()[0].ops().len() == 0,
    {
        let mut sequences: Vec<FlatSeq> = Vec::new();
        sequences.push(FlatSeq::new(SequenceType::Module));
        FlatCode { sequence_index: 0, sequences }
    }

    /// The sequences of the code.
    pub fn sequences(&self) -> (sequences: &[FlatSeq])
        ensures
            sequences@ == self.seqs(),
    {
        self.sequences.as_slice()
    }

    /// Whether the sequence `seq` holds nothing but an ellipsis.
    pub fn is_sequence_ellipsis_stubbed(&self, seq: usize) -> (stubbed: bool)
        ensures
            stubbed == (seq < self.seqs().len() && self.seqs()[seq as int].ops() == seq![
                Op::Const(Const::Ellipsis),
            ]),
    {
        if seq >= self.sequences.len() {
            return false;
        }
        let sequence = &self.sequences[seq];
        if sequence.inst.len() != 1 {
            assert(sequence.ops().len() != 1);
            return false;
        }
        assert(sequence.ops()[0] == sequence.inst@[0].op@);
        match &sequence.inst[0].op {
            RawInst::Const(Const::Ellipsis) => {
                assert(sequence.ops() =~= seq![Op::Const(Const::Ellipsis)]);
                true
            },
            _ => false,
        }
    }

    /// Appends an instruction to the current sequence and gives the id of
    /// its value. The instruction has no type yet, and no place in the
    /// source is noted on it; the other instructions stay as they are.
    pub fn inst(&mut self, raw_inst: RawInst) -> (value: usize)
        requires
            old(self).wf(),
        ensures
            final(self).wf(),
            final(self).current() == old(self).current(),
            final(self).seqs().len() == old(self).seqs().len(),
            value == old(self).seqs()[old(self).current()].ops().len(),
            final(self).seqs()[old(self).current()].ops() == old(self).seqs()[old(self).current()]
                .ops().push(raw_inst@),
            final(self).seqs()[old(self).current()].types() == old(self).seqs()[old(
                self,
            ).current()].types().push(None),
            final(self).seqs()[old(self).current()].spans() == old(self).seqs()[old(
                self,
            ).current()].spans().push(None),
            final(self).seqs()[old(self).current()].spec_kind() == old(self).seqs()[old(
                self,
            ).current()].spec_kind(),
            forall|s: int|
                0 <= s < old(self).seqs().len() && s != old(self).current() ==> final(self).seqs()[s]
                    == old(self).seqs()[s],
    {
        let at = self.sequence_index;
        let mut sequence = self.sequences.remove(at);
        let value = sequence.push(raw_inst, None);
        self.sequences.insert(at, sequence);
        proof {
            assert(self.sequences@ =~= old(self).sequences@.update(at as int, sequence));
            assert forall|s: int| 0 <= s < self.seqs().len() implies (
            #[trigger] self.seqs()[s]).wf() by {
                if s != at {
                    assert(self.seqs()[s] == old(self).seqs()[s]);
                }
            }
            assert forall|s: int| 0 <= s < self.seqs().len() implies ((
            #[trigger] self.seqs()[s]).spec_kind() == SequenceType::Module <==> s == 0) by {
                assert(self.seqs()[s].spec_kind() == old(self).seqs()[s].spec_kind());
            }
        }
        value
    }

    /// Starts a new function sequence, makes it the current one, and gives
    /// its index together with the index of the sequence that was current.
    pub fn begin_sequence(&mut self) -> (indices: (usize, usize))
        requires
            old(self).wf(),
        ensures
            final(self).wf(),
            indices.0 == old(self).seqs().len(),
            indices.1 == old(self).current(),
            final(self).current() == indices.0,
            final(self).seqs().len() == old(self).seqs().len() + 1,
            final(self).seqs()[indices.0 as int].ops().len() == 0,
            forall|s: int|
                0 <= s < old(self).seqs().len() ==> final(self).seqs()[s] == old(self).seqs()[s],
    {
        let previous = self.sequence_index;
        let index = self.sequences.len();
        self.sequences.push(FlatSeq::new(SequenceType::Function));
        self.sequence_index = index;
        (index, previous)
    }

    /// Adds a finished function sequence and gives its index. The current
    /// sequence stays.
    pub fn add_sequence(&mut self, sequence: FlatSeq) -> (index: usize)
        requires
            old(self).wf(),
            sequence.wf(),
            sequence.spec_kind() == SequenceType::Function,
        ensures
            final(self).wf(),
            index == old(self).seqs().len(),
            final(self).current() == old(self).current(),
            final(self).seqs() == old(self).seqs().push(sequence),
    {
        let index = self.sequences.len();
        self.sequences.push(sequence);
        index
    }

    /// Puts `sequence` in the place of the module sequence.
    pub fn set_module_sequence(&mut self, sequence: FlatSeq)
        requires
            old(self).wf(),
            sequence.wf(),
            sequence.spec_kind() == SequenceType::Module,
        ensures
            final(self).wf(),
            final(self).current() == old(self).current(),
            final(self).seqs() == old(self).seqs().update(0, sequence),
    {
        let _ = self.sequences.remove(0);
        self.sequences.insert(0, sequence);
        proof {
            assert(self.sequences@ =~= old(self).sequences@.update(0, sequence));
            assert forall|s: int| 0 <= s < self.seqs().len() implies (
            #[trigger] self.seqs()[s]).wf() by {
                if s != 0 {
                    assert(self.seqs()[s] == old(self).seqs()[s]);
                }
            }
            assert forall|s: int| 0 <= s < self.seqs().len() implies ((
            #[trigger] self.seqs()[s]).spec_kind() == SequenceType::Module <==> s == 0) by {
                if s != 0 {
                    assert(self.seqs()[s] == old(self).seqs()[s]);
                }
            }
        }
    }

    /// Makes the sequence `previous` the current one again.
    pub fn end_sequence(&mut self, previous: usize)
        requires
            old(self).wf(),
            previous < old(self).seqs().len(),
        ensures
            final(self).wf(),
            final(self).current() == previous,
            final(self).seqs() == old(self).seqs(),
    {
        self.sequence_index = previous;
    }
}

} // verus!
