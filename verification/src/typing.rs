//! The type universe: every type of a program is described once and known
//! by a small number.
//!
//! [`TypeMap::intern`] memoizes: a descriptor that is structurally equal to
//! one already held gets that one's id. The map also answers the questions
//! that calls, method overrides and memory layout ask of types.

use crate::span::SpanRef;
use vstd::prelude::*;

verus! {

/// The number of a type within one [`TypeMap`].
pub type LocalTypeId = usize;

/// The types that exist before any program is read.
#[derive(Clone, Copy, Debug, PartialEq, Eq, Structural, Hash)]
pub enum BuiltinTypeId {
    Unknown,
    Never,
    Int,
    Float,
    Str,
    Bool,
    NoneType,
    Ellipsis,
    Type,
    Object,
    Dict,
    DynFunc,
}

/// The signature of a function or method.
#[derive(Clone, Debug)]
pub struct FunctionType {
    pub name: SpanRef,
    pub reciever: Option<LocalTypeId>,
    pub args: Vec<LocalTypeId>,
    pub ret: LocalTypeId,
}

/// A class: its name and the types of its properties, in declaration order.
#[derive(Clone, Debug)]
pub struct ClassType {
    pub name: SpanRef,
    pub properties: Vec<(SpanRef, LocalTypeId)>,
}

/// What a type is.
#[derive(Clone, Debug)]
pub enum TypeDescriptor {
    Simple(BuiltinTypeId),
    Tuple { members: Vec<LocalTypeId> },
    Function(FunctionType),
    Class(ClassType),
}

/// A function signature as a value: names count by their text alone.
pub struct FunctionSig {
    pub name: usize,
    pub reciever: Option<LocalTypeId>,
    pub args: Seq<LocalTypeId>,
    pub ret: LocalTypeId,
}

/// A descriptor as a value. Two descriptors are structurally equal exactly
/// when their shapes are equal.
pub enum TypeShape {
    Simple(BuiltinTypeId),
    Tuple { members: Seq<LocalTypeId> },
    Function(FunctionSig),
    Class { name: usize, properties: Seq<(usize, LocalTypeId)> },
}

impl View for FunctionType {
    type V = FunctionSig;

    open spec fn view(&self) -> FunctionSig {
        FunctionSig {
            name: self.name.spec_group(),
            reciever: self.reciever,
            args: self.args@,
            ret: self.ret,
        }
    }
}

impl ClassType {
    /// The properties, each name standing for its text.
    pub open spec fn spec_properties(&self) -> Seq<(usize, LocalTypeId)> {
        Seq::new(
            self.properties@.len(),
            |i: int| (self.properties@[i].0.spec_group(), self.properties@[i].1),
        )
    }
}

impl View for TypeDescriptor {
    type V = TypeShape;

    open spec fn view(&self) -> TypeShape {
        match self {
            TypeDescriptor::Simple(b) => TypeShape::Simple(*b),
            TypeDescriptor::Tuple { members } => TypeShape::Tuple { members: members@ },
            TypeDescriptor::Function(f) => TypeShape::Function(f@),
            TypeDescriptor::Class(c) => TypeShape::Class {
                name: c.name.spec_group(),
                properties: c.spec_properties(),
            },
        }
    }
}

/// Whether the two lists of type ids are the same.
pub fn type_ids_eq(a: &Vec<LocalTypeId>, b: &Vec<LocalTypeId>) -> (same: bool)
    ensures
        same == (a@ == b@),
{
    if a.len() != b.len() {
        return false;
    }
    let mut i: usize = 0;
    while i < a.len()
        invariant
            a@.len() == b@.len(),
            i <= a@.len(),
            forall|k: int| 0 <= k < i ==> a@[k] == b@[k],
        decreases a@.len() - i,
    {
        if a[i] != b[i] {
            return false;
        }
        i += 1;
    }
    assert(a@ =~= b@);
    true
}

fn properties_eq(a: &ClassType, b: &ClassType) -> (same: bool)
    ensures
        same == (a.spec_properties() == b.spec_properties()),
{
    if a.properties.len() != b.properties.len() {
        assert(a.spec_properties().len() != b.spec_properties().len());
        return false;
    }
    let mut i: usize = 0;
    while i < a.properties.len()
        invariant
            a.properties@.len() == b.properties@.len(),
            i <= a.properties@.len(),
            forall|k: int| 0 <= k < i ==> a.spec_properties()[k] == b.spec_properties()[k],
        decreases a.properties@.len() - i,
    {
        let (an, at) = a.properties[i];
        let (bn, bt) = b.properties[i];
        if an.group() != bn.group() || at != bt {
            assert(a.spec_properties()[i as int] != b.spec_properties()[i as int]);
            return false;
        }
        i += 1;
    }
    assert(a.spec_properties() =~= b.spec_properties());
    true
}

impl TypeDescriptor {
    /// Structural equality.
    pub fn same_shape(&self, other: &TypeDescriptor) -> (same: bool)
        ensures
            same == (self@ == other@),
    {
        match (self, other) {
            (TypeDescriptor::Simple(a), TypeDescriptor::Simple(b)) => *a == *b,
            (TypeDescriptor::Tuple { members: a }, TypeDescriptor::Tuple { members: b }) => {
                type_ids_eq(a, b)
            },
            (TypeDescriptor::Function(f), TypeDescriptor::Function(g)) => {
                let same_recv = match (f.reciever, g.reciever) {
                    (Some(x), Some(y)) => x == y,
                    (None, None) => true,
                    _ => false,
                };
                f.name.group() == g.name.group() && same_recv && type_ids_eq(&f.args, &g.args)
                    && f.ret == g.ret
            },
            (TypeDescriptor::Class(c), TypeDescriptor::Class(d)) => {
                c.name.group() == d.name.group() && properties_eq(c, d)
            },
            _ => false,
        }
    }
}

/// The size and the natural alignment of a value, in bytes.
#[derive(Clone, Copy, Debug, PartialEq, Eq, Structural)]
pub struct TypeLayout {
    pub size: usize,
    pub align: usize,
}

/// `offset` rounded up to the next multiple of `align`.
pub open spec fn align_up(offset: nat, align: nat) -> nat {
    if align == 0 || offset % align == 0 {
        offset
    } else {
        (offset + align - offset % align) as nat
    }
}

/// The running total after the first `n` members have been laid out.
pub open spec fn members_end(members: Seq<TypeLayout>, n: int) -> nat
    decreases n,
{
    if n <= 0 {
        0
    } else {
        (align_up(members_end(members, n - 1), members[n - 1].align as nat) + members[n
            - 1].size) as nat
    }
}

/// Where member `i` starts: the running total before it, rounded up to its
/// alignment.
pub open spec fn member_offset(members: Seq<TypeLayout>, i: int) -> nat {
    align_up(members_end(members, i), members[i].align as nat)
}

/// The largest alignment among the first `n` members, and at least 1.
pub open spec fn members_align(members: Seq<TypeLayout>, n: int) -> nat
    decreases n,
{
    if n <= 0 {
        1
    } else if members[n - 1].align > members_align(members, n - 1) {
        members[n - 1].align as nat
    } else {
        members_align(members, n - 1)
    }
}

/// The size of the whole: the end of the last member, rounded up to the
/// alignment of the whole.
pub open spec fn members_size(members: Seq<TypeLayout>) -> nat {
    align_up(members_end(members, members.len() as int), members_align(members, members.len() as int))
}

/// Rounding up neither goes below the offset nor a whole step above it, and
/// lands on a multiple of the alignment.
pub proof fn lemma_align_up(offset: nat, align: nat)
    requires
        align > 0,
    ensures
        offset <= align_up(offset, align) < offset + align,
        align_up(offset, align) % align == 0,
{
    let r = offset % align;
    if r != 0 {
        assert((offset + align - r) % (align as int) == 0) by (nonlinear_arith)
            requires
                r == offset % align,
                align > 0,
                r != 0,
        ;
    }
}

/// The running total never shrinks.
pub proof fn lemma_members_end_monotone(members: Seq<TypeLayout>, i: int, j: int)
    requires
        0 <= i <= j,
    ensures
        members_end(members, i) <= members_end(members, j),
    decreases j - i,
{
    if i < j {
        lemma_members_end_monotone(members, i, j - 1);
    }
}

/// Offsets never decrease, and every member starts at or after the end of
/// the one before it.
pub proof fn lemma_offsets_ordered(members: Seq<TypeLayout>, i: int)
    requires
        0 < i < members.len(),
    ensures
        member_offset(members, i - 1) + members[i - 1].size <= member_offset(members, i),
        member_offset(members, i - 1) <= member_offset(members, i),
{
    assert(members_end(members, i) == member_offset(members, i - 1) + members[i - 1].size);
}

/// Every member lies inside the whole.
pub proof fn lemma_member_within_size(members: Seq<TypeLayout>, i: int)
    requires
        0 <= i < members.len(),
    ensures
        member_offset(members, i) + members[i].size <= members_size(members),
{
    assert(members_end(members, i + 1) == member_offset(members, i) + members[i].size);
    lemma_members_end_monotone(members, i + 1, members.len() as int);
}

fn round_up(offset: usize, align: usize) -> (rounded: Option<usize>)
    ensures
        match rounded {
            Some(r) => r == align_up(offset as nat, align as nat),
            None => align_up(offset as nat, align as nat) > usize::MAX,
        },
{
    if align == 0 {
        return Some(offset);
    }
    let rem = offset % align;
    if rem == 0 {
        Some(offset)
    } else {
        offset.checked_add(align - rem)
    }
}

/// Lays the members out one after the other, each at its natural alignment.
///
/// Returns the layout of the whole and the offset of each member, or `None`
/// when the size of the whole does not fit in `usize`.
pub fn calculate_layout(members: &[TypeLayout]) -> (result: Option<(TypeLayout, Vec<usize>)>)
    ensures
        result.is_some() <==> members_size(members@) <= usize::MAX,
        match result {
            Some((whole, offsets)) => {
                &&& whole.size == members_size(members@)
                &&& whole.align == members_align(members@, members@.len() as int)
                &&& offsets@.len() == members@.len()
                &&& forall|i: int|
                    0 <= i < members@.len() ==> offsets@[i] == member_offset(members@, i)
            },
            None => true,
        },
{
    let mut offsets: Vec<usize> = Vec::new();
    let mut end: usize = 0;
    let mut align: usize = 1;
    let mut i: usize = 0;
    while i < members.len()
        invariant
            i <= members@.len(),
            end == members_end(members@, i as int),
            align == members_align(members@, i as int),
            offsets@.len() == i,
            forall|k: int| 0 <= k < i ==> offsets@[k] == member_offset(members@, k),
        decreases members@.len() - i,
    {
        let m = members[i];
        proof {
            lemma_members_end_monotone(members@, i as int + 1, members@.len() as int);
        }
        let offset = match round_up(end, m.align) {
            Some(o) => o,
            None => {
                return None;
            },
        };
        let next = match offset.checked_add(m.size) {
            Some(n) => n,
            None => {
                return None;
            },
        };
        offsets.push(offset);
        end = next;
        if m.align > align {
            align = m.align;
        }
        i += 1;
    }
    match round_up(end, align) {
        Some(size) => Some((TypeLayout { size, align }, offsets)),
        None => None,
    }
}

/// The first place at which a call's arguments part from the declared
/// parameters: one of the two lists has ended there, or the types differ.
pub open spec fn first_mismatch(params: Seq<LocalTypeId>, args: Seq<LocalTypeId>) -> int
    decreases params.len(),
{
    if params.len() == 0 || args.len() == 0 || params[0] != args[0] {
        0
    } else {
        1 + first_mismatch(params.drop_first(), args.drop_first())
    }
}

/// The first mismatch lies within both lists or at the end of the shorter
/// one; before it the lists agree; and there is none exactly when the lists
/// are the same.
pub proof fn lemma_first_mismatch(params: Seq<LocalTypeId>, args: Seq<LocalTypeId>)
    ensures
        0 <= first_mismatch(params, args) <= params.len(),
        first_mismatch(params, args) <= args.len(),
        forall|k: int| 0 <= k < first_mismatch(params, args) ==> params[k] == args[k],
        first_mismatch(params, args) < params.len() && first_mismatch(params, args) < args.len()
            ==> params[first_mismatch(params, args)] != args[first_mismatch(params, args)],
        params == args <==> (first_mismatch(params, args) == params.len() && params.len()
            == args.len()),
    decreases params.len(),
{
    if params.len() == 0 || args.len() == 0 || params[0] != args[0] {
        if params == args {
            assert(params.len() == args.len());
        }
        if params.len() == 0 && args.len() == 0 {
            assert(params =~= args);
        }
    } else {
        let p = params.drop_first();
        let a = args.drop_first();
        lemma_first_mismatch(p, a);
        assert forall|k: int| 0 <= k < first_mismatch(params, args) implies params[k]
            == args[k] by {
            if k > 0 {
                assert(p[k - 1] == a[k - 1]);
            }
        }
        if p == a {
            assert(params =~= args);
        }
        if params == args {
            assert(p =~= a);
        }
    }
}

/// The type universe.
pub struct TypeMap {
    descriptors: Vec<TypeDescriptor>,
}

impl View for TypeMap {
    type V = Seq<TypeShape>;

    closed spec fn view(&self) -> Seq<TypeShape> {
        Seq::new(self.descriptors@.len(), |i: int| self.descriptors@[i]@)
    }
}

impl TypeMap {
    pub const UNKNOWN: LocalTypeId = 0;

    pub const NEVER: LocalTypeId = 1;

    pub const INTEGER: LocalTypeId = 2;

    pub const FLOAT: LocalTypeId = 3;

    pub const STRING: LocalTypeId = 4;

    pub const BOOL: LocalTypeId = 5;

    pub const NONE_TYPE: LocalTypeId = 6;

    pub const ELLIPSIS: LocalTypeId = 7;

    pub const TYPE: LocalTypeId = 8;

    pub const OBJECT: LocalTypeId = 9;

    pub const DICT: LocalTypeId = 10;

    pub const DYN_FUNC: LocalTypeId = 11;

    /// The shapes that every map starts with, at their fixed ids.
    pub open spec fn builtins() -> Seq<TypeShape> {
        seq![
            TypeShape::Simple(BuiltinTypeId::Unknown),
            TypeShape::Simple(BuiltinTypeId::Never),
            TypeShape::Simple(BuiltinTypeId::Int),
            TypeShape::Simple(BuiltinTypeId::Float),
            TypeShape::Simple(BuiltinTypeId::Str),
            TypeShape::Simple(BuiltinTypeId::Bool),
            TypeShape::Simple(BuiltinTypeId::NoneType),
            TypeShape::Simple(BuiltinTypeId::Ellipsis),
            TypeShape::Simple(BuiltinTypeId::Type),
            TypeShape::Simple(BuiltinTypeId::Object),
            TypeShape::Simple(BuiltinTypeId::Dict),
            TypeShape::Simple(BuiltinTypeId::DynFunc),
        ]
    }

    /// No shape is held twice.
    pub open spec fn no_duplicates(shapes: Seq<TypeShape>) -> bool {
        forall|i: int, j: int| 0 <= i < j < shapes.len() ==> shapes[i] != shapes[j]
    }

    /// The builtins stand at their ids and no shape is held twice.
    pub open spec fn wf(&self) -> bool {
        &&& Self::builtins().is_prefix_of(self@)
        &&& Self::no_duplicates(self@)
    }

    /// What interning `shape` into `shapes` gives: the id, and the shapes
    /// held afterwards.
    pub open spec fn interned(shapes: Seq<TypeShape>, shape: TypeShape) -> (int, Seq<TypeShape>) {
        if shapes.contains(shape) {
            (shapes.index_of(shape), shapes)
        } else {
            (shapes.len() as int, shapes.push(shape))
        }
    }

    pub fn new() -> (map: Self)
        ensures
            map.wf(),
            map@ == Self::builtins(),
    {
        let mut descriptors: Vec<TypeDescriptor> = Vec::new();
        descriptors.push(TypeDescriptor::Simple(BuiltinTypeId::Unknown));
        descriptors.push(TypeDescriptor::Simple(BuiltinTypeId::Never));
        descriptors.push(TypeDescriptor::Simple(BuiltinTypeId::Int));
        descriptors.push(TypeDescriptor::Simple(BuiltinTypeId::Float));
        descriptors.push(TypeDescriptor::Simple(BuiltinTypeId::Str));
        descriptors.push(TypeDescriptor::Simple(BuiltinTypeId::Bool));
        descriptors.push(TypeDescriptor::Simple(BuiltinTypeId::NoneType));
        descriptors.push(TypeDescriptor::Simple(BuiltinTypeId::Ellipsis));
        descriptors.push(TypeDescriptor::Simple(BuiltinTypeId::Type));
        descriptors.push(TypeDescriptor::Simple(BuiltinTypeId::Object));
        descriptors.push(TypeDescriptor::Simple(BuiltinTypeId::Dict));
        descriptors.push(TypeDescriptor::Simple(BuiltinTypeId::DynFunc));
        let map = TypeMap { descriptors };
        assert(map@ =~= Self::builtins());
        map
    }

    /// How many types are held.
    pub fn len(&self) -> (n: usize)
        ensures
            n == self@.len(),
    {
        self.descriptors.len()
    }

    fn find(&self, descriptor: &TypeDescriptor) -> (found: Option<usize>)
        ensures
            match found {
                Some(i) => i < self@.len() && self@[i as int] == descriptor@,
                None => !self@.contains(descriptor@),
            },
    {
        let mut i: usize = 0;
        while i < self.descriptors.len()
            invariant
                i <= self@.len(),
                self@.len() == self.descriptors@.len(),
                forall|k: int| 0 <= k < i ==> self@[k] != descriptor@,
            decreases self@.len() - i,
        {
            if self.descriptors[i].same_shape(descriptor) {
                return Some(i);
            }
            i += 1;
        }
        None
    }

    /// Gives the id of `descriptor`: that of the structurally equal
    /// descriptor already held, if there is one, else a new id. What was held
    /// before stays as it was.
    pub fn intern(&mut self, descriptor: TypeDescriptor) -> (id: LocalTypeId)
        requires
            old(self).wf(),
        ensures
            final(self).wf(),
            (id as int, final(self)@) == Self::interned(old(self)@, descriptor@),
            id < final(self)@.len(),
            final(self)@[id as int] == descriptor@,
            old(self)@.is_prefix_of(final(self)@),
    {
        match self.find(&descriptor) {
            Some(i) => {
                proof {
                    let j = self@.index_of(descriptor@);
                    assert(self@.contains(descriptor@));
                    assert(0 <= j < self@.len() && self@[j] == descriptor@);
                    if j < i {
                        assert(self@[j] != self@[i as int]);
                    }
                    if i < j {
                        assert(self@[i as int] != self@[j]);
                    }
                }
                i
            },
            None => {
                let id = self.descriptors.len();
                self.descriptors.push(descriptor);
                proof {
                    assert(self@ =~= old(self)@.push(descriptor@));
                    assert forall|i: int, j: int| 0 <= i < j < self@.len() implies self@[i]
                        != self@[j] by {
                        if j < old(self)@.len() {
                            assert(old(self)@[i] != old(self)@[j]);
                        } else {
                            assert(old(self)@.contains(old(self)@[i]));
                        }
                    }
                }
                id
            },
        }
    }

    /// Interns the tuple type with the given members.
    pub fn tuple(&mut self, members: Vec<LocalTypeId>) -> (id: LocalTypeId)
        requires
            old(self).wf(),
        ensures
            final(self).wf(),
            (id as int, final(self)@) == Self::interned(
                old(self)@,
                TypeShape::Tuple { members: members@ },
            ),
            id < final(self)@.len(),
            old(self)@.is_prefix_of(final(self)@),
    {
        self.intern(TypeDescriptor::Tuple { members })
    }

    /// The descriptor behind an id, or `None` for an id that was never given.
    pub fn get(&self, id: LocalTypeId) -> (descriptor: Option<&TypeDescriptor>)
        ensures
            id < self@.len() ==> descriptor.is_some() && descriptor.unwrap()@ == self@[id as int],
            id >= self@.len() ==> descriptor.is_none(),
    {
        if id < self.descriptors.len() {
            Some(&self.descriptors[id])
        } else {
            None
        }
    }

    /// The signature behind an id, if the id stands for a function.
    pub fn get_function(&self, id: LocalTypeId) -> (func: Option<&FunctionType>)
        ensures
            match func {
                Some(f) => id < self@.len() && self@[id as int] == TypeShape::Function(f@),
                None => id >= self@.len() || !(self@[id as int] is Function),
            },
    {
        match self.get(id) {
            Some(TypeDescriptor::Function(f)) => Some(f),
            _ => None,
        }
    }

    /// Whether `id` stands for a function.
    pub open spec fn is_function(&self, id: LocalTypeId) -> bool {
        id < self@.len() && self@[id as int] is Function
    }

    /// The declared parameter types of the function `id`.
    pub open spec fn params_of(&self, id: LocalTypeId) -> Seq<LocalTypeId> {
        self@[id as int]->Function_0.args
    }

    /// Checks a call of the function `func` with arguments of the types
    /// `args`, left to right. Every argument's type must be the declared
    /// one, and there must be as many arguments as parameters.
    ///
    /// On failure gives the declared type, the supplied type and the index of
    /// the first place that does not fit; where one of the two lists has
    /// ended at that place, [`TypeMap::UNKNOWN`] stands for what is missing.
    pub fn unify_call(&self, func: LocalTypeId, args: &[LocalTypeId]) -> (result: Result<
        (),
        (LocalTypeId, LocalTypeId, usize),
    >)
        requires
            self.is_function(func),
        ensures
            result.is_ok() <==> self.params_of(func) == args@,
            match result {
                Ok(()) => true,
                Err((expected, actual, index)) => {
                    let params = self.params_of(func);
                    &&& index == first_mismatch(params, args@)
                    &&& index <= params.len() && index <= args@.len()
                    &&& params.subrange(0, index as int) == args@.subrange(0, index as int)
                    &&& expected == if index < params.len() {
                        params[index as int]
                    } else {
                        Self::UNKNOWN
                    }
                    &&& actual == if index < args@.len() {
                        args@[index as int]
                    } else {
                        Self::UNKNOWN
                    }
                    &&& index < params.len() && index < args@.len() ==> expected != actual
                },
            },
    {
        let f = match self.get_function(func) {
            Some(f) => f,
            None => {
                proof {
                    assert(false);
                }
                return Ok(());
            },
        };
        let ghost params = f.args@;
        proof {
            assert(params.skip(0) =~= params);
            assert(args@.skip(0) =~= args@);
        }
        let mut i: usize = 0;
        while i < f.args.len() && i < args.len()
            invariant
                params == f.args@,
                params == self.params_of(func),
                i <= params.len(),
                i <= args@.len(),
                params.subrange(0, i as int) == args@.subrange(0, i as int),
                first_mismatch(params, args@) == i + first_mismatch(
                    params.skip(i as int),
                    args@.skip(i as int),
                ),
            decreases params.len() - i,
        {
            if f.args[i] != args[i] {
                proof {
                    assert(params.skip(i as int)[0] == params[i as int]);
                    assert(args@.skip(i as int)[0] == args@[i as int]);
                    if params == args@ {
                        assert(params[i as int] == args@[i as int]);
                    }
                }
                return Err((f.args[i], args[i], i));
            }
            proof {
                assert(params.skip(i as int)[0] == params[i as int]);
                assert(args@.skip(i as int)[0] == args@[i as int]);
                assert(params.skip(i as int).drop_first() =~= params.skip(i as int + 1));
                assert(args@.skip(i as int).drop_first() =~= args@.skip(i as int + 1));
                assert(params.subrange(0, i as int + 1) =~= params.subrange(0, i as int).push(
                    params[i as int],
                ));
                assert(args@.subrange(0, i as int + 1) =~= args@.subrange(0, i as int).push(
                    args@[i as int],
                ));
            }
            i += 1;
        }
        proof {
            assert(params.skip(i as int).len() == params.len() - i);
            assert(args@.skip(i as int).len() == args@.len() - i);
        }
        if i < f.args.len() {
            Err((f.args[i], Self::UNKNOWN, i))
        } else if i < args.len() {
            Err((Self::UNKNOWN, args[i], i))
        } else {
            proof {
                assert(params =~= params.subrange(0, i as int));
                assert(args@ =~= args@.subrange(0, i as int));
            }
            Ok(())
        }
    }

    /// Whether the type `candidate` can stand for `template` as a method:
    /// it is a function of the same name that takes the same arguments.
    pub fn unify_func(&self, candidate: LocalTypeId, template: &FunctionType) -> (fits: bool)
        ensures
            fits <==> {
                &&& self.is_function(candidate)
                &&& self@[candidate as int]->Function_0.name == template@.name
                &&& self@[candidate as int]->Function_0.args == template@.args
            },
    {
        match self.get_function(candidate) {
            Some(f) => f.name.group() == template.name.group() && type_ids_eq(
                &f.args,
                &template.args,
            ),
            None => false,
        }
    }

    /// The size and alignment that a value of the given shape takes where it
    /// is held: numbers and booleans in place, everything else by reference.
    pub open spec fn shape_layout(shape: TypeShape) -> TypeLayout {
        match shape {
            TypeShape::Simple(b) => match b {
                BuiltinTypeId::Unknown | BuiltinTypeId::Never | BuiltinTypeId::NoneType
                | BuiltinTypeId::Ellipsis => TypeLayout { size: 0, align: 1 },
                BuiltinTypeId::Bool => TypeLayout { size: 1, align: 1 },
                _ => TypeLayout { size: 8, align: 8 },
            },
            _ => TypeLayout { size: 8, align: 8 },
        }
    }

    /// The layouts of the given types, one by one.
    pub open spec fn member_layouts(&self, members: Seq<LocalTypeId>) -> Seq<TypeLayout> {
        Seq::new(members.len(), |i: int| Self::shape_layout(self@[members[i] as int]))
    }

    /// The size and alignment of a value of type `id`.
    pub fn type_layout(&self, id: LocalTypeId) -> (layout: Option<TypeLayout>)
        ensures
            id < self@.len() ==> layout == Some(Self::shape_layout(self@[id as int])),
            id >= self@.len() ==> layout.is_none(),
    {
        match self.get(id) {
            Some(TypeDescriptor::Simple(b)) => match b {
                BuiltinTypeId::Unknown | BuiltinTypeId::Never | BuiltinTypeId::NoneType
                | BuiltinTypeId::Ellipsis => Some(TypeLayout { size: 0, align: 1 }),
                BuiltinTypeId::Bool => Some(TypeLayout { size: 1, align: 1 }),
                _ => Some(TypeLayout { size: 8, align: 8 }),
            },
            Some(_) => Some(TypeLayout { size: 8, align: 8 }),
            None => None,
        }
    }

    /// The size in bytes of a value of type `id`.
    pub fn size_of(&self, id: LocalTypeId) -> (size: Option<usize>)
        ensures
            id < self@.len() ==> size == Some(Self::shape_layout(self@[id as int]).size),
            id >= self@.len() ==> size.is_none(),
    {
        match self.type_layout(id) {
            Some(layout) => Some(layout.size),
            None => None,
        }
    }

    /// Lays out a struct or tuple with members of the given types: the total
    /// size and the byte offset of each member.
    ///
    /// `None` when a member's type is not held by this map, or when the
    /// total size does not fit in `usize`.
    pub fn layout_of(&self, members: &[LocalTypeId]) -> (result: Option<(usize, Vec<usize>)>)
        ensures
            result.is_some() <==> {
                &&& forall|i: int| 0 <= i < members@.len() ==> members@[i] < self@.len()
                &&& members_size(self.member_layouts(members@)) <= usize::MAX
            },
            match result {
                Some((size, offsets)) => {
                    let layouts = self.member_layouts(members@);
                    &&& size == members_size(layouts)
                    &&& offsets@.len() == members@.len()
                    &&& forall|i: int|
                        0 <= i < members@.len() ==> offsets@[i] == member_offset(layouts, i)
                },
                None => true,
            },
    {
        let mut layouts: Vec<TypeLayout> = Vec::new();
        let mut i: usize = 0;
        while i < members.len()
            invariant
                i <= members@.len(),
                layouts@.len() == i,
                forall|k: int| 0 <= k < i ==> members@[k] < self@.len(),
                forall|k: int|
                    0 <= k < i ==> layouts@[k] == Self::shape_layout(self@[members@[k] as int]),
            decreases members@.len() - i,
        {
            match self.type_layout(members[i]) {
                Some(layout) => layouts.push(layout),
                None => {
                    return None;
                },
            }
            i += 1;
        }
        assert(layouts@ =~= self.member_layouts(members@));
        match calculate_layout(layouts.as_slice()) {
            Some((whole, offsets)) => Some((whole.size, offsets)),
            None => None,
        }
    }
}

/// Interning only adds: every shape that was held stays at its id, no
/// shape comes to stand twice, and the id that is given stands for the
/// shape that was interned.
pub proof fn lemma_interned_grows(shapes: Seq<TypeShape>, shape: TypeShape)
    requires
        TypeMap::no_duplicates(shapes),
    ensures
        ({
            let (id, after) = TypeMap::interned(shapes, shape);
            &&& shapes.is_prefix_of(after)
            &&& TypeMap::no_duplicates(after)
            &&& 0 <= id < after.len()
            &&& after[id] == shape
        }),
{
    let (id, after) = TypeMap::interned(shapes, shape);
    if shapes.contains(shape) {
        assert(shapes =~= shapes.subrange(0, shapes.len() as int));
    } else {
        assert(shapes =~= after.subrange(0, shapes.len() as int));
        assert forall|i: int, j: int| 0 <= i < j < after.len() implies after[i] != after[j] by {
            if j < shapes.len() {
                assert(shapes[i] != shapes[j]);
            } else {
                assert(shapes.contains(shapes[i]));
            }
        }
    }
}

/// Interning the same shape a second time gives the same id and changes
/// nothing; two different shapes never get the same id.
pub proof fn lemma_intern_idempotent(shapes: Seq<TypeShape>, a: TypeShape, b: TypeShape)
    requires
        TypeMap::no_duplicates(shapes),
    ensures
        ({
            let (id1, after1) = TypeMap::interned(shapes, a);
            let (id2, after2) = TypeMap::interned(after1, a);
            id1 == id2 && after1 == after2
        }),
        ({
            let (id1, after1) = TypeMap::interned(shapes, a);
            let (id2, after2) = TypeMap::interned(after1, b);
            (id1 == id2 <==> a == b) && TypeMap::no_duplicates(after2)
        }),
{
    let (id1, after1) = TypeMap::interned(shapes, a);
    if shapes.contains(a) {
        assert(after1 == shapes);
    } else {
        assert(after1[shapes.len() as int] == a);
        assert(after1.contains(a));
        assert forall|i: int, j: int| 0 <= i < j < after1.len() implies after1[i] != after1[j] by {
            if j < shapes.len() {
                assert(shapes[i] != shapes[j]);
            } else {
                assert(shapes.contains(shapes[i]));
            }
        }
    }
    lemma_index_of_unique(after1, a, id1);
    let (id2, after2) = TypeMap::interned(after1, b);
    if after1.contains(b) {
        let k = after1.index_of(b);
        assert(after1[k] == b);
        if id1 == id2 {
            assert(after1[id1] == a);
        }
        if a == b {
            lemma_index_of_unique(after1, b, id1);
        }
    } else {
        assert(after2[after1.len() as int] == b);
        assert forall|i: int, j: int| 0 <= i < j < after2.len() implies after2[i] != after2[j] by {
            if j < after1.len() {
                assert(after1[i] != after1[j]);
            } else {
                assert(after1.contains(after1[i]));
            }
        }
    }
}

/// In a sequence without duplicates, a shape is found where it stands.
pub proof fn lemma_index_of_unique(shapes: Seq<TypeShape>, shape: TypeShape, at: int)
    requires
        TypeMap::no_duplicates(shapes),
        0 <= at < shapes.len(),
        shapes[at] == shape,
    ensures
        shapes.contains(shape),
        shapes.index_of(shape) == at,
{
    assert(shapes.contains(shape));
    let k = shapes.index_of(shape);
    assert(0 <= k < shapes.len() && shapes[k] == shape);
    if k < at {
        assert(shapes[k] != shapes[at]);
    }
    if at < k {
        assert(shapes[at] != shapes[k]);
    }
}

} // verus!
