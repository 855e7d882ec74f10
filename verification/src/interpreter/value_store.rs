//! The object graph together with what the compiler has found out about its
//! nodes: the type of a value, and the class node that stands for a type.

use crate::interpreter::dict::{id_table_entries, id_table_get, id_table_insert, id_table_new, IdTable};
use crate::interpreter::object_graph::{ObjectGraph, ObjectGraphIndex};
use crate::typing::LocalTypeId;
use vstd::prelude::*;

verus! {

/// The graph and the two tables beside it.
pub struct ValueStore {
    pub graph: ObjectGraph,
    pub type_of: IdTable,
    pub class_of: IdTable,
}

impl ValueStore {
    /// For each node whose type is known, the id of that type.
    pub open spec fn value_types(&self) -> Map<u64, u64> {
        id_table_entries(self.type_of)
    }

    /// For each type that has a class, the node of the class.
    pub open spec fn class_nodes(&self) -> Map<u64, u64> {
        id_table_entries(self.class_of)
    }

    /// A store with an empty graph, in which no value has a type and no
    /// type has a class.
    pub fn new() -> (store: Self)
        ensures
            store.graph.wf(),
            store.graph.nodes().len() == 0,
            store.graph.strings() == Map::<u64, u64>::empty(),
            store.graph.allocs() == Map::<u64, u64>::empty(),
            store.value_types() == Map::<u64, u64>::empty(),
            store.class_nodes() == Map::<u64, u64>::empty(),
    {
        ValueStore { graph: ObjectGraph::new(), type_of: id_table_new(), class_of: id_table_new() }
    }

    /// The type recorded for the value at `node`.
    pub open spec fn spec_type_of(&self, node: ObjectGraphIndex) -> Option<LocalTypeId> {
        if self.value_types().contains_key(node) && self.value_types()[node] <= usize::MAX {
            Some(self.value_types()[node] as usize)
        } else {
            None
        }
    }

    /// The class node recorded for the type `type_id`.
    pub open spec fn spec_class_of(&self, type_id: LocalTypeId) -> Option<ObjectGraphIndex> {
        if self.class_nodes().contains_key(type_id as u64) {
            Some(self.class_nodes()[type_id as u64])
        } else {
            None
        }
    }

    /// The type recorded for the value at `node`.
    pub fn type_of(&self, node: ObjectGraphIndex) -> (type_id: Option<LocalTypeId>)
        ensures
            type_id == self.spec_type_of(node),
    {
        match id_table_get(&self.type_of, node) {
            Some(t) => if t <= usize::MAX as u64 {
                Some(t as usize)
            } else {
                None
            },
            None => None,
        }
    }

    /// The class node recorded for the type `type_id`.
    pub fn class_of(&self, type_id: LocalTypeId) -> (node: Option<ObjectGraphIndex>)
        ensures
            node == self.spec_class_of(type_id),
    {
        id_table_get(&self.class_of, type_id as u64)
    }

    /// Records that the value at `node` has the type `type_id`.
    pub fn set_type(&mut self, node: ObjectGraphIndex, type_id: LocalTypeId)
        ensures
            final(self).value_types() == old(self).value_types().insert(node, type_id as u64),
            final(self).class_nodes() == old(self).class_nodes(),
            final(self).graph == old(self).graph,
    {
        id_table_insert(&mut self.type_of, node, type_id as u64);
    }

    /// Records that the class of the type `type_id` is the value at `node`.
    pub fn set_class(&mut self, type_id: LocalTypeId, node: ObjectGraphIndex)
        ensures
            final(self).class_nodes() == old(self).class_nodes().insert(type_id as u64, node),
            final(self).value_types() == old(self).value_types(),
            final(self).graph == old(self).graph,
    {
        id_table_insert(&mut self.class_of, type_id as u64, node);
    }
}

} // verus!
