//! The rib of a function: for each local name the one type that it has.
//!
//! The first assignment to a name fixes its type for the rest of the
//! function. A later assignment must bring the same type.
//!
//! The entries are kept in the order of their first assignment, which is the
//! order of the stack slots. A `dashmap` map from the group of a name to the
//! place of its entry finds a name without a walk over the entries.

use crate::interpreter::scope::{
    namespace_entries, namespace_get, namespace_insert, namespace_new, Namespace,
};
use crate::span::Span;
use crate::typing::LocalTypeId;
use vstd::prelude::*;

verus! {

/// What the rib knows of one name.
#[derive(Clone, Copy, Debug, PartialEq, Eq, Structural)]
pub struct RibEntry {
    /// The group of the name.
    pub group: usize,
    /// The type that the first assignment gave it.
    pub type_id: LocalTypeId,
    /// Where that assignment stands.
    pub span: Span,
}

/// The local names of one function and their types, in the order of their
/// first assignment.
pub struct Ribs {
    entries: Vec<RibEntry>,
    index: Namespace,
}

/// What one more assignment does to a rib: the rib afterwards, and the
/// entry that stands against the assignment, if one does.
pub open spec fn rib_add(
    rib: Map<usize, RibEntry>,
    group: usize,
    type_id: LocalTypeId,
    span: Span,
) -> (Map<usize, RibEntry>, Option<RibEntry>) {
    if rib.contains_key(group) {
        if rib[group].type_id == type_id {
            (rib, None)
        } else {
            (rib, Some(rib[group]))
        }
    } else {
        (rib.insert(group, RibEntry { group, type_id, span }), None)
    }
}

impl View for Ribs {
    type V = Map<usize, RibEntry>;

    closed spec fn view(&self) -> Map<usize, RibEntry> {
        Map::new(
            |g: usize| exists|i: int| 0 <= i < self.entries@.len() && self.entries@[i].group == g,
            |g: usize|
                self.entries@[choose|i: int|
                    0 <= i < self.entries@.len() && self.entries@[i].group == g],
        )
    }
}

impl Ribs {
    /// The entries in the order of their first assignment.
    pub closed spec fn order(&self) -> Seq<RibEntry> {
        self.entries@
    }

    /// No name stands twice, and the map leads from the group of every
    /// name to the place of its entry, and from nothing else.
    pub closed spec fn wf(&self) -> bool {
        &&& forall|i: int, j: int|
            0 <= i < j < self.entries@.len() ==> self.entries@[i].group != self.entries@[j].group
        &&& forall|i: int|
            0 <= i < self.entries@.len() ==> namespace_entries(self.index).contains_key(
                (#[trigger] self.entries@[i]).group as u64,
            ) && namespace_entries(self.index)[self.entries@[i].group as u64] == i
        &&& forall|k: u64| #[trigger]
            namespace_entries(self.index).contains_key(k) ==> namespace_entries(self.index)[k]
                < self.entries@.len() && self.entries@[namespace_entries(
                self.index,
            )[k] as int].group as u64 == k
    }

    /// A rib without names.

    pub fn new() -> (ribs: Self)
        ensures
            ribs.wf(),
            ribs@ == Map::<usize, RibEntry>::empty(),
            ribs.order().len() == 0,
    {
        let ribs = Ribs { entries: Vec::new(), index: namespace_new() };
        assert(ribs@ =~= Map::<usize, RibEntry>::empty());
        ribs
    }

    /// The number of names.
    pub fn len(&self) -> (n: usize)
        ensures
            n == self.order().len(),
    {
        self.entries.len()
    }

    /// The `i`-th name in the order of first assignment.
    pub fn entry(&self, i: usize) -> (entry: Option<RibEntry>)
        requires
            self.wf(),
        ensures
            i < self.order().len() ==> entry == Some(self.order()[i as int]),
            i >= self.order().len() ==> entry.is_none(),
            entry.is_some() ==> self@.contains_key(entry.unwrap().group) && self@[entry.unwrap().group]
                == entry.unwrap(),
    {
        if i < self.entries.len() {
            proof {
                self.lemma_view(i as int);
            }
            Some(self.entries[i])
        } else {
            None
        }
    }

    proof fn lemma_view(&self, i: int)
        requires
            self.wf(),
            0 <= i < self.entries@.len(),
        ensures
            self@.contains_key(self.entries@[i].group),
            self@[self.entries@[i].group] == self.entries@[i],
    {
        let g = self.entries@[i].group;
        let k = choose|k: int| 0 <= k < self.entries@.len() && self.entries@[k].group == g;
        if k < i {
            assert(self.entries@[k].group != self.entries@[i].group);
        }
        if i < k {
            assert(self.entries@[i].group != self.entries@[k].group);
        }
    }

    fn find(&self, group: usize) -> (at: Option<usize>)
        requires
            self.wf(),
        ensures
            match at {
                Some(i) => i < self.entries@.len() && self.entries@[i as int].group == group
                    && self@.contains_key(group) && self@[group] == self.entries@[i as int],
                None => !self@.contains_key(group),
            },
    {
        match namespace_get(&self.index, group as u64) {
            Some(place) => {
                let held = self.entries.len();
                assert(namespace_entries(self.index).contains_key(group as u64));
                assert(place < held);
                let i = place as usize;
                proof {
                    assert(self.entries@[i as int].group as u64 == group as u64);
                    self.lemma_view(i as int);
                }
                Some(i)
            },
            None => {
                proof {
                    if self@.contains_key(group) {
                        let k = choose|k: int|
                            0 <= k < self.entries@.len() && self.entries@[k].group == group;
                        assert(namespace_entries(self.index).contains_key(
                            self.entries@[k].group as u64,
                        ));
                    }
                }
                None
            },
        }
    }

    /// What the rib knows of the name with the given group.
    pub fn get(&self, group: usize) -> (entry: Option<RibEntry>)
        requires
            self.wf(),
        ensures
            entry == if self@.contains_key(group) {
                Some(self@[group])
            } else {
                None
            },
    {
        match self.find(group) {
            Some(i) => Some(self.entries[i]),
            None => None,
        }
    }

    /// Records an assignment of a value of type `type_id` to the name.
    ///
    /// The first assignment to a name binds it. A later one with the same
    /// type changes nothing; one with another type is refused, and the
    /// entry of the first assignment is handed back.
    pub fn add(&mut self, group: usize, type_id: LocalTypeId, span: Span) -> (result: Result<
        (),
        RibEntry,
    >)
        requires
            old(self).wf(),
        ensures
            final(self).wf(),
            final(self)@ == rib_add(old(self)@, group, type_id, span).0,
            match result {
                Ok(()) => rib_add(old(self)@, group, type_id, span).1.is_none(),
                Err(first) => rib_add(old(self)@, group, type_id, span).1 == Some(first),
            },
            old(self)@.contains_key(group) ==> final(self).order() == old(self).order(),
            !old(self)@.contains_key(group) ==> final(self).order() == old(self).order().push(
                RibEntry { group, type_id, span },
            ),
    {
        match self.find(group) {
            Some(i) => {
                let first = self.entries[i];
                if first.type_id == type_id {
                    Ok(())
                } else {
                    Err(first)
                }
            },
            None => {
                let entry = RibEntry { group, type_id, span };
                let place = self.entries.len();
                self.entries.push(entry);
                namespace_insert(&mut self.index, group as u64, place as u64);
                proof {
                    let n = old(self).entries@.len() as int;
                    assert(self.entries@[n] == entry);
                    assert forall|i: int| 0 <= i < self.entries@.len() implies namespace_entries(
                        self.index,
                    ).contains_key((#[trigger] self.entries@[i]).group as u64) && namespace_entries(
                        self.index,
                    )[self.entries@[i].group as u64] == i by {
                        if i < n {
                            assert(old(self).entries@[i] == self.entries@[i]);
                            if self.entries@[i].group == group {
                                assert(old(self)@.contains_key(group));
                            }
                        }
                    }
                    assert forall|k: u64| #[trigger]
                        namespace_entries(self.index).contains_key(k) implies namespace_entries(
                        self.index,
                    )[k] < self.entries@.len() && self.entries@[namespace_entries(
                        self.index,
                    )[k] as int].group as u64 == k by {
                        if k != group as u64 {
                            assert(namespace_entries(old(self).index).contains_key(k));
                            let at = namespace_entries(old(self).index)[k] as int;
                            assert(old(self).entries@[at] == self.entries@[at]);
                        }
                    }
                    assert forall|i: int, j: int| 0 <= i < j < self.entries@.len() implies
                        self.entries@[i].group != self.entries@[j].group by {
                        if j == n {
                            assert(old(self).entries@[i].group == self.entries@[i].group);
                            if self.entries@[i].group == group {
                                assert(old(self)@.contains_key(group));
                            }
                        } else {
                            assert(old(self).entries@[i].group != old(self).entries@[j].group);
                        }
                    }
                    assert forall|g: usize| self@.contains_key(g) <==> old(self)@.insert(
                        group,
                        entry,
                    ).contains_key(g) by {
                        if self@.contains_key(g) {
                            let k = choose|k: int|
                                0 <= k < self.entries@.len() && self.entries@[k].group == g;
                            if k < n {
                                assert(old(self).entries@[k].group == g);
                            }
                        }
                        if old(self)@.contains_key(g) {
                            let k = choose|k: int|
                                0 <= k < old(self).entries@.len() && old(self).entries@[k].group
                                    == g;
                            assert(self.entries@[k].group == g);
                        }
                        if g == group {
                            assert(self.entries@[n].group == g);
                        }
                    }
                    assert forall|g: usize| self@.contains_key(g) implies self@[g] == old(
                        self,
                    )@.insert(group, entry)[g] by {
                        let k = choose|k: int|
                            0 <= k < self.entries@.len() && self.entries@[k].group == g;
                        self.lemma_view(k);
                        if k < n {
                            old(self).lemma_view(k);
                        }
                    }
                    assert(self@ =~= old(self)@.insert(group, entry));
                }
                Ok(())
            },
        }
    }
}

/// Within one function a name keeps the type of its first assignment: a
/// second assignment of the same type is accepted and changes nothing, a
/// second assignment of another type is refused.
pub proof fn lemma_single_binding(
    rib: Map<usize, RibEntry>,
    group: usize,
    first: LocalTypeId,
    first_span: Span,
    second: LocalTypeId,
    second_span: Span,
)
    requires
        !rib.contains_key(group),
    ensures
        ({
            let (bound, refused) = rib_add(rib, group, first, first_span);
            let (after, refused_again) = rib_add(bound, group, second, second_span);
            &&& refused.is_none()
            &&& bound[group].type_id == first
            &&& after == bound
            &&& refused_again.is_some() <==> first != second
            &&& refused_again.is_some() ==> refused_again.unwrap().type_id == first
                && refused_again.unwrap().span == first_span
        }),
{
}

} // verus!
