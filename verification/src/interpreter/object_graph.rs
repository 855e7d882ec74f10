//! The graph of the values that evaluation at compile time has produced.
//!
//! The nodes live in a `petgraph` graph, which is used as an arena: no
//! edge is ever added. A value names the values that it holds by the
//! indices of their nodes, in its attribute table. Two side tables find
//! nodes again: strings by the key of their text, every other value by the
//! id of its allocation.

use crate::context::ModuleRef;
use crate::interpreter::dict::{
    id_table_entries, id_table_get, id_table_insert, id_table_new, id_table_to_vec, sort_by_key,
    IdPair, IdTable,
    PyDictRaw,
};
use crate::typing::LocalTypeId;
use vstd::prelude::*;

verus! {

/// The position of a node in the graph.
pub type ObjectGraphIndex = u64;

/// The number that an object got when it was allocated.
pub type ObjAllocId = u64;

/// A plain object: its type and its attributes.
pub struct Object {
    pub type_id: LocalTypeId,
    pub properties: PyDictRaw,
}

/// A value that is known at compile time.
pub enum Value {
    Object(Object),
    Module { mref: ModuleRef, properties: PyDictRaw },
    String(Vec<u8>),
    Integer(i64),
    Dict { object: Object, data: PyDictRaw },
    Function {
        name: Vec<u8>,
        properties: PyDictRaw,
        annotations: PyDictRaw,
        defsite: Option<ObjectGraphIndex>,
        parent: Option<ObjectGraphIndex>,
    },
    Class { name: Vec<u8>, properties: PyDictRaw },
}

/// `petgraph::graph::Graph`, the graph of the `petgraph` crate. The
/// verifier sees nothing inside a value of it.
#[verifier::external_type_specification]
#[verifier::external_body]
#[verifier::reject_recursive_types(N)]
#[verifier::reject_recursive_types(E)]
#[verifier::reject_recursive_types(Ty)]
#[verifier::reject_recursive_types(Ix)]
pub struct ExGraph<N, E, Ty, Ix>(petgraph::graph::Graph<N, E, Ty, Ix>);

/// `petgraph::Directed`, the marker of a graph with directed edges.
#[verifier::external_type_specification]
#[verifier::external_body]
pub struct ExDirected(petgraph::Directed);

/// The graph that holds the values.
pub type ValueGraph = petgraph::graph::Graph<Value, (), petgraph::Directed, u32>;

/// The weights of the nodes of a graph, by node index.
pub uninterp spec fn graph_nodes(graph: ValueGraph) -> Seq<Value>;

/// `Graph::new`: a directed graph without nodes.
#[verifier::external_body]
fn graph_new() -> (graph: ValueGraph)
    ensures
        graph_nodes(graph).len() == 0,
{
    petgraph::graph::Graph::new()
}

/// `Graph::node_count`: the number of nodes.
#[verifier::external_body]
fn graph_node_count(graph: &ValueGraph) -> (count: usize)
    ensures
        count == graph_nodes(*graph).len(),
{
    graph.node_count()
}

/// `Graph::add_node`: appends a node with the given weight and returns its
/// index, which is the number of nodes there were. The call panics once the
/// 32-bit index type is used up, which the `requires` rules out.
#[verifier::external_body]
fn graph_add_node(graph: &mut ValueGraph, weight: Value) -> (index: ObjectGraphIndex)
    requires
        graph_nodes(*old(graph)).len() < u32::MAX,
    ensures
        index == graph_nodes(*old(graph)).len(),
        graph_nodes(*final(graph)) == graph_nodes(*old(graph)).push(weight),
{
    graph.add_node(weight).index() as u64
}

/// `Graph::node_weight`: the weight of the node at `index`, or `None` where
/// the graph has no such node.
#[verifier::external_body]
fn graph_node_weight(graph: &ValueGraph, index: u32) -> (weight: Option<&Value>)
    ensures
        index < graph_nodes(*graph).len() ==> weight == Some(&graph_nodes(*graph)[index as int]),
        index >= graph_nodes(*graph).len() ==> weight.is_none(),
{
    graph.node_weight(petgraph::graph::NodeIndex::new(index as usize))
}

/// `Graph::node_weight_mut`, written through: the node at `index` gets the
/// weight `weight`, and every other node keeps its own.
#[verifier::external_body]
fn graph_set_node_weight(graph: &mut ValueGraph, index: u32, weight: Value)
    requires
        index < graph_nodes(*old(graph)).len(),
    ensures
        graph_nodes(*final(graph)) == graph_nodes(*old(graph)).update(index as int, weight),
{
    if let Some(slot) = graph.node_weight_mut(petgraph::graph::NodeIndex::new(index as usize)) {
        *slot = weight;
    }
}

/// Whether `keys` lists the keys of `table` once each, in ascending order.
pub open spec fn ascending_keys_of(keys: Seq<u64>, table: Map<u64, u64>) -> bool {
    &&& forall|i: int, j: int| 0 <= i < j < keys.len() ==> keys[i] < keys[j]
    &&& forall|i: int| 0 <= i < keys.len() ==> table.contains_key(#[trigger] keys[i])
    &&& forall|key: u64| #[trigger] table.contains_key(key) ==> keys.contains(key)
}

/// The graph of compile-time values.
pub struct ObjectGraph {
    graph: ValueGraph,
    strings: IdTable,
    alloc_to_idx: IdTable,
}

impl ObjectGraph {
    /// The values, by node index.
    pub closed spec fn nodes(&self) -> Seq<Value> {
        graph_nodes(self.graph)
    }

    /// For the hash of each string value, its node.
    pub closed spec fn strings(&self) -> Map<u64, u64> {
        id_table_entries(self.strings)
    }

    /// For the id of each allocation that has a node, that node.
    pub closed spec fn allocs(&self) -> Map<u64, u64> {
        id_table_entries(self.alloc_to_idx)
    }

    /// Both tables lead to nodes of the graph, and no two allocations share
    /// a node.
    pub open spec fn wf(&self) -> bool {
        &&& self.nodes().len() <= u32::MAX
        &&& forall|hash: u64| #[trigger]
            self.strings().contains_key(hash) ==> self.strings()[hash] < self.nodes().len()
        &&& forall|alloc: u64| #[trigger]
            self.allocs().contains_key(alloc) ==> self.allocs()[alloc] < self.nodes().len()
        &&& forall|a: u64, b: u64|
            self.allocs().contains_key(a) && self.allocs().contains_key(b) && a != b
                ==> self.allocs()[a] != self.allocs()[b]
    }

    /// Whether one more node can be added.
    pub open spec fn has_room(&self) -> bool {
        self.nodes().len() < u32::MAX
    }

    pub fn new() -> (graph: Self)
        ensures
            graph.wf(),
            graph.nodes().len() == 0,
            graph.strings() == Map::<u64, u64>::empty(),
            graph.allocs() == Map::<u64, u64>::empty(),
    {
        ObjectGraph { graph: graph_new(), strings: id_table_new(), alloc_to_idx: id_table_new() }
    }

    /// The number of nodes.
    pub fn node_count(&self) -> (count: usize)
        ensures
            count == self.nodes().len(),
    {
        graph_node_count(&self.graph)
    }

    /// Whether one more node can be added.
    pub fn can_grow(&self) -> (room: bool)
        ensures
            room == self.has_room(),
    {
        graph_node_count(&self.graph) < u32::MAX as usize
    }

    /// The value at `index`, if the graph has such a node.
    pub fn node_weight(&self, index: ObjectGraphIndex) -> (value: Option<&Value>)
        requires
            self.wf(),
        ensures
            index < self.nodes().len() ==> value == Some(&self.nodes()[index as int]),
            index >= self.nodes().len() ==> value.is_none(),
    {
        if index > u32::MAX as u64 {
            None
        } else {
            graph_node_weight(&self.graph, index as u32)
        }
    }

    /// Adds a node for `value` and returns its index. The tables stay.
    pub fn add_node(&mut self, value: Value) -> (index: ObjectGraphIndex)
        requires
            old(self).wf(),
            old(self).has_room(),
        ensures
            final(self).wf(),
            index == old(self).nodes().len(),
            final(self).nodes() == old(self).nodes().push(value),
            final(self).strings() == old(self).strings(),
            final(self).allocs() == old(self).allocs(),
    {
        let index = graph_add_node(&mut self.graph, value);
        proof {
            assert(self.strings() == old(self).strings());
            assert(self.allocs() == old(self).allocs());
        }
        index
    }

    /// Puts `value` in the place of the value at `index`.
    pub fn replace_node(&mut self, index: ObjectGraphIndex, value: Value)
        requires
            old(self).wf(),
            index < old(self).nodes().len(),
        ensures
            final(self).wf(),
            final(self).nodes() == old(self).nodes().update(index as int, value),
            final(self).strings() == old(self).strings(),
            final(self).allocs() == old(self).allocs(),
    {
        graph_set_node_weight(&mut self.graph, index as u32, value);
        proof {
            assert(self.strings() == old(self).strings());
            assert(self.allocs() == old(self).allocs());
        }
    }

    /// The node of the string whose content hashes to `hash`: the one that
    /// is already there, or else a new one holding `string`.
    pub fn add_string_node(&mut self, hash: u64, string: Value) -> (index: ObjectGraphIndex)
        requires
            old(self).wf(),
            old(self).strings().contains_key(hash) || old(self).has_room(),
        ensures
            final(self).wf(),
            final(self).allocs() == old(self).allocs(),
            old(self).strings().contains_key(hash) ==> {
                &&& index == old(self).strings()[hash]
                &&& final(self).nodes() == old(self).nodes()
                &&& final(self).strings() == old(self).strings()
            },
            !old(self).strings().contains_key(hash) ==> {
                &&& index == old(self).nodes().len()
                &&& final(self).nodes() == old(self).nodes().push(string)
                &&& final(self).strings() == old(self).strings().insert(hash, index)
            },
    {
        match id_table_get(&self.strings, hash) {
            Some(index) => index,
            None => {
                let index = graph_add_node(&mut self.graph, string);
                id_table_insert(&mut self.strings, hash, index);
                proof {
                    assert(self.strings() == old(self).strings().insert(hash, index));
                    assert(self.allocs() == old(self).allocs());
                }
                index
            },
        }
    }

    /// The node of the string whose content hashes to `hash`, if there is
    /// one.
    pub fn index_of_string(&self, hash: u64) -> (index: Option<ObjectGraphIndex>)
        ensures
            index == if self.strings().contains_key(hash) {
                Some(self.strings()[hash])
            } else {
                None
            },
    {
        id_table_get(&self.strings, hash)
    }

    /// The node that stands for the allocation `alloc`, if it has one.
    pub fn index_of_alloc(&self, alloc: ObjAllocId) -> (index: Option<ObjectGraphIndex>)
        ensures
            index == if self.allocs().contains_key(alloc) {
                Some(self.allocs()[alloc])
            } else {
                None
            },
    {
        id_table_get(&self.alloc_to_idx, alloc)
    }

    /// The node that stands for the allocation `obj`: the one that it
    /// already has, or else a new one holding `value`.
    pub fn add_node_traced(&mut self, value: Value, obj: ObjAllocId) -> (index: ObjectGraphIndex)
        requires
            old(self).wf(),
            old(self).allocs().contains_key(obj) || old(self).has_room(),
        ensures
            final(self).wf(),
            final(self).strings() == old(self).strings(),
            final(self).allocs().contains_key(obj),
            final(self).allocs()[obj] == index,
            old(self).allocs().contains_key(obj) ==> {
                &&& index == old(self).allocs()[obj]
                &&& final(self).nodes() == old(self).nodes()
                &&& final(self).allocs() == old(self).allocs()
            },
            !old(self).allocs().contains_key(obj) ==> {
                &&& index == old(self).nodes().len()
                &&& final(self).nodes() == old(self).nodes().push(value)
                &&& final(self).allocs() == old(self).allocs().insert(obj, index)
            },
    {
        match id_table_get(&self.alloc_to_idx, obj) {
            Some(index) => index,
            None => {
                let index = graph_add_node(&mut self.graph, value);
                id_table_insert(&mut self.alloc_to_idx, obj, index);
                proof {
                    assert(self.strings() == old(self).strings());
                    assert(self.allocs() == old(self).allocs().insert(obj, index));
                }
                index
            },
        }
    }

    /// As [`ObjectGraph::add_node_traced`], and says whether the node is new,
    /// so that the caller can fill in what the value refers to once the
    /// node has its index.
    pub fn insert_node_traced(&mut self, alloc_id: ObjAllocId, value: Value) -> (result: (
        ObjectGraphIndex,
        bool,
    ))
        requires
            old(self).wf(),
            old(self).allocs().contains_key(alloc_id) || old(self).has_room(),
        ensures
            final(self).wf(),
            final(self).strings() == old(self).strings(),
            final(self).allocs().contains_key(alloc_id),
            final(self).allocs()[alloc_id] == result.0,
            result.1 == !old(self).allocs().contains_key(alloc_id),
            !result.1 ==> {
                &&& result.0 == old(self).allocs()[alloc_id]
                &&& final(self).nodes() == old(self).nodes()
                &&& final(self).allocs() == old(self).allocs()
            },
            result.1 ==> {
                &&& result.0 == old(self).nodes().len()
                &&& final(self).nodes() == old(self).nodes().push(value)
                &&& final(self).allocs() == old(self).allocs().insert(alloc_id, result.0)
            },
    {
        let known = id_table_get(&self.alloc_to_idx, alloc_id).is_some();
        let index = self.add_node_traced(value, alloc_id);
        (index, !known)
    }

    /// The nodes that stand for allocations, from the oldest allocation to
    /// the newest.
    pub fn iter_by_alloc_asc(&self) -> (indices: Vec<ObjectGraphIndex>)
        ensures
            exists|keys: Seq<u64>|
                {
                    &&& #[trigger] ascending_keys_of(keys, self.allocs())
                    &&& indices@.len() == keys.len()
                    &&& forall|i: int|
                        0 <= i < keys.len() ==> indices@[i] == self.allocs()[keys[i]]
                },
    {
        let entries = id_table_to_vec(&self.alloc_to_idx);
        let sorted = sort_by_key(&entries);
        let mut indices: Vec<ObjectGraphIndex> = Vec::new();
        let mut i: usize = 0;
        while i < sorted.len()
            invariant
                i <= sorted@.len(),
                indices@.len() == i,
                forall|k: int| 0 <= k < i ==> indices@[k] == sorted@[k].1,
            decreases sorted@.len() - i,
        {
            indices.push(sorted[i].1);
            i += 1;
        }
        proof {
            let keys = Seq::new(sorted@.len(), |i: int| sorted@[i].0);
            let table = self.allocs();
            assert forall|i: int| 0 <= i < keys.len() implies table.contains_key(
                #[trigger] keys[i],
            ) && table[keys[i]] == sorted@[i].1 by {
                assert(entries@.contains(sorted@[i]));
                let k = choose|k: int| 0 <= k < entries@.len() && entries@[k] == sorted@[i];
                assert(table.contains_pair(entries@[k].0, entries@[k].1));
            }
            assert forall|key: u64| #[trigger] table.contains_key(key) implies keys.contains(
                key,
            ) by {
                let k = choose|k: int| 0 <= k < entries@.len() && (#[trigger] entries@[k]).0 == key;
                assert(sorted@.contains(entries@[k]));
                let s = choose|s: int| 0 <= s < sorted@.len() && sorted@[s] == entries@[k];
                assert(keys[s] == key);
            }
            assert(ascending_keys_of(keys, table));
        }
        indices
    }

    /// The allocation that the node `idx` stands for, if it stands for one.
    pub fn alloc_id_of(&self, idx: ObjectGraphIndex) -> (alloc: Option<ObjAllocId>)
        requires
            self.wf(),
        ensures
            match alloc {
                Some(a) => self.allocs().contains_key(a) && self.allocs()[a] == idx,
                None => forall|a: u64| #[trigger]
                    self.allocs().contains_key(a) ==> self.allocs()[a] != idx,
            },
    {
        let entries = id_table_to_vec(&self.alloc_to_idx);
        let mut i: usize = 0;
        while i < entries.len()
            invariant
                i <= entries@.len(),
                forall|k: int|
                    0 <= k < entries@.len() ==> self.allocs().contains_pair(
                        (#[trigger] entries@[k]).0,
                        entries@[k].1,
                    ),
                forall|k: int| 0 <= k < i ==> (#[trigger] entries@[k]).1 != idx,
            decreases entries@.len() - i,
        {
            if entries[i].1 == idx {
                return Some(entries[i].0);
            }
            i += 1;
        }
        proof {
            assert forall|a: u64| #[trigger] self.allocs().contains_key(a) implies self.allocs()[a]
                != idx by {
                let k = choose|k: int| 0 <= k < entries@.len() && (#[trigger] entries@[k]).0 == a;
                assert(self.allocs().contains_pair(entries@[k].0, entries@[k].1));
            }
        }
        None
    }
}

} // verus!
