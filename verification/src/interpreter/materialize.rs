//! From the objects of the runtime to the values of the object graph.
//!
//! An object gets its node the first time it is asked for; asking again
//! gives the same node. Strings are found by their text, so that equal
//! strings share one node; every other object is found by its allocation
//! id. A new node holds the object without its attributes; linking fills
//! them in once the node has its index, so that objects may refer to each
//! other in circles.

use crate::ast::{Ast, AstNode, Spanned};
use crate::interpreter::dict::{IdPair, PyDictRaw};
use crate::interpreter::object_graph::{
    ObjAllocId, Object, ObjectGraph, ObjectGraphIndex, Value,
};
use crate::interpreter::runtime::{ObjectView, PyValue, RuntimeContext};
use crate::span::SpanInterner;
use vstd::prelude::*;

verus! {

/// The text of the group, or the empty text for a group that is not held.
pub open spec fn text_or_empty(interner: &SpanInterner, group: usize) -> Seq<u8> {
    if group < interner.texts().len() {
        interner.texts()[group as int]
    } else {
        Seq::empty()
    }
}

/// The name of the function defined at `def`.
pub open spec fn function_name(
    ast: Seq<Spanned<AstNode>>,
    interner: &SpanInterner,
    def: usize,
) -> Seq<u8> {
    if def < ast.len() {
        match ast[def as int].inner {
            AstNode::FuncDef(f) => text_or_empty(interner, f.name.spec_group()),
            _ => Seq::empty(),
        }
    } else {
        Seq::empty()
    }
}

/// Whether `value` is the object `object` without its attributes: an
/// integer is itself; a function and a class carry their names; a
/// dictionary and every other object carry their type.
pub open spec fn stands_for(
    value: Value,
    object: ObjectView,
    ast: Seq<Spanned<AstNode>>,
    interner: &SpanInterner,
) -> bool {
    match object.value {
        PyValue::Int(n) => value == Value::Integer(n),
        PyValue::Function { def } => value matches Value::Function {
            name,
            properties,
            annotations,
            defsite,
            parent,
        } && name@ == function_name(ast, interner, def) && properties@ == Map::<u64, IdPair>::empty()
            && annotations@ == Map::<u64, IdPair>::empty() && defsite.is_none() && parent.is_none(),
        PyValue::Class { name } => value matches Value::Class { name: text, properties } && text@
            == text_or_empty(interner, name.spec_group()) && properties@ == Map::<
            u64,
            IdPair,
        >::empty(),
        PyValue::Dict => value matches Value::Dict { object: inner, data } && inner.type_id
            == object.type_id && inner.properties@ == Map::<u64, IdPair>::empty() && data@
            == Map::<u64, IdPair>::empty(),
        PyValue::Str(_) => false,
        _ => value matches Value::Object(inner) && inner.type_id == object.type_id
            && inner.properties@ == Map::<u64, IdPair>::empty(),
    }
}

/// Whether the graph `after` is the graph `before` with nothing taken away:
/// the nodes that were there are there, and both tables hold what they
/// held.
pub open spec fn extends(before: &ObjectGraph, after: &ObjectGraph) -> bool {
    &&& before.nodes().is_prefix_of(after.nodes())
    &&& forall|k: u64| #[trigger]
        before.strings().contains_key(k) ==> after.strings().contains_key(k) && after.strings()[k]
            == before.strings()[k]
    &&& forall|k: u64| #[trigger]
        before.allocs().contains_key(k) ==> after.allocs().contains_key(k) && after.allocs()[k]
            == before.allocs()[k]
}

fn copy_text(text: Option<&[u8]>) -> (copy: Vec<u8>)
    ensures
        copy@ == match text {
            Some(t) => t@,
            None => Seq::empty(),
        },
{
    let mut copy: Vec<u8> = Vec::new();
    match text {
        Some(t) => {
            let mut i: usize = 0;
            while i < t.len()
                invariant
                    i <= t@.len(),
                    copy@ == t@.subrange(0, i as int),
                decreases t@.len() - i,
            {
                copy.push(t[i]);
                i += 1;
                assert(copy@ =~= t@.subrange(0, i as int));
            }
            assert(copy@ =~= t@);
        },
        None => {},
    }
    copy
}

impl RuntimeContext {
    /// The node of the object `alloc`, where the graph has one: strings are
    /// found by their text, everything else by its allocation id.
    pub open spec fn node_of(&self, graph: &ObjectGraph, alloc: ObjAllocId) -> Option<
        ObjectGraphIndex,
    > {
        if alloc < self.state().objects.len() {
            match self.state().objects[alloc as int].value {
                PyValue::Str(g) => if graph.strings().contains_key(g as u64) {
                    Some(graph.strings()[g as u64])
                } else {
                    None
                },
                _ => if graph.allocs().contains_key(alloc) {
                    Some(graph.allocs()[alloc])
                } else {
                    None
                },
            }
        } else {
            None
        }
    }

    /// Gives the node of the object `alloc`, and makes it first if the
    /// object has none yet. A new node holds the object without its
    /// attributes.
    ///
    /// `None` for an id that names no object, and where a node is needed
    /// and the graph is full; the graph is unchanged then.
    pub fn into_value(
        &self,
        alloc: ObjAllocId,
        graph: &mut ObjectGraph,
        ast: &Ast,
        interner: &SpanInterner,
    ) -> (node: Option<ObjectGraphIndex>)
        requires
            old(graph).wf(),
        ensures
            final(graph).wf(),
            extends(old(graph), final(graph)),
            node == self.node_of(final(graph), alloc),
            node.is_some() ==> node.unwrap() < final(graph).nodes().len(),
            self.node_of(old(graph), alloc).is_some() ==> final(graph).nodes() == old(graph).nodes()
                && final(graph).strings() == old(graph).strings() && final(graph).allocs() == old(
                graph,
            ).allocs(),
            node.is_none() ==> final(graph).nodes() == old(graph).nodes() && final(graph).strings()
                == old(graph).strings() && final(graph).allocs() == old(graph).allocs() && (alloc
                >= self.state().objects.len() || !old(graph).has_room()),
            node.is_some() && self.node_of(old(graph), alloc).is_none() ==> {
                let object = self.state().objects[alloc as int];
                &&& node.unwrap() == old(graph).nodes().len()
                &&& final(graph).nodes().len() == old(graph).nodes().len() + 1
                &&& match object.value {
                    PyValue::Str(g) => {
                        &&& final(graph).nodes()[node.unwrap() as int] matches Value::String(text)
                            && text@ == text_or_empty(interner, g)
                        &&& final(graph).strings() == old(graph).strings().insert(
                            g as u64,
                            node.unwrap(),
                        )
                        &&& final(graph).allocs() == old(graph).allocs()
                    },
                    _ => {
                        &&& stands_for(
                            final(graph).nodes()[node.unwrap() as int],
                            object,
                            ast@,
                            interner,
                        )
                        &&& final(graph).allocs() == old(graph).allocs().insert(
                            alloc,
                            node.unwrap(),
                        )
                        &&& final(graph).strings() == old(graph).strings()
                    },
                }
            },
    {
        if alloc >= self.objects.len() as u64 {
            return None;
        }
        let object = &self.objects[alloc as usize];
        assert(self.state().objects[alloc as int] == object@);
        match object.value {
            PyValue::Str(g) => {
                match graph.index_of_string(g as u64) {
                    Some(node) => {
                        return Some(node);
                    },
                    None => {},
                }
                if !graph.can_grow() {
                    return None;
                }
                let text = copy_text(interner.group_text(g));
                Some(graph.add_string_node(g as u64, Value::String(text)))
            },
            _ => {
                match graph.index_of_alloc(alloc) {
                    Some(node) => {
                        return Some(node);
                    },
                    None => {},
                }
                if !graph.can_grow() {
                    return None;
                }
                let value = match object.value {
                    PyValue::Int(n) => Value::Integer(n),
                    PyValue::Function { def } => {
                        let name = match ast.get(def) {
                            Some(spanned) => match &spanned.inner {
                                AstNode::FuncDef(f) => copy_text(
                                    interner.group_text(f.name.group()),
                                ),
                                _ => Vec::new(),
                            },
                            None => Vec::new(),
                        };
                        Value::Function {
                            name,
                            properties: PyDictRaw::new(),
                            annotations: PyDictRaw::new(),
                            defsite: None,
                            parent: None,
                        }
                    },
                    PyValue::Class { name } => Value::Class {
                        name: copy_text(interner.group_text(name.group())),
                        properties: PyDictRaw::new(),
                    },
                    PyValue::Dict => Value::Dict {
                        object: Object { type_id: object.type_id, properties: PyDictRaw::new() },
                        data: PyDictRaw::new(),
                    },
                    _ => Value::Object(
                        Object { type_id: object.type_id, properties: PyDictRaw::new() },
                    ),
                };
                Some(graph.add_node_traced(value, alloc))
            },
        }
    }
}

/// The attributes of a value as the graph holds them; a value without
/// attributes has none.
pub open spec fn attributes_of(value: Value) -> Map<u64, IdPair> {
    match value {
        Value::Object(object) => object.properties@,
        Value::Module { mref, properties } => properties@,
        Value::Dict { object, data } => object.properties@,
        Value::Function { name, properties, annotations, defsite, parent } => properties@,
        Value::Class { name, properties } => properties@,
        _ => Map::empty(),
    }
}

impl RuntimeContext {
    /// Whether `properties` are the attributes `members` as the graph holds
    /// them: under each key stand the node of the string that names the
    /// attribute and the node of the object that it is bound to.
    pub open spec fn linked(
        &self,
        graph: &ObjectGraph,
        members: Map<u64, IdPair>,
        properties: Map<u64, IdPair>,
    ) -> bool {
        &&& forall|k: u64| members.contains_key(k) <==> properties.contains_key(k)
        &&& forall|k: u64| #[trigger]
            members.contains_key(k) ==> {
                &&& graph.strings().contains_key(k)
                &&& properties[k].0 == graph.strings()[k]
                &&& self.node_of(graph, members[k].1) == Some(properties[k].1)
            }
    }

    /// Whether the attributes `members` can surely be turned into values:
    /// each is bound to an object, and the graph has room for two more nodes
    /// for each of them.
    pub open spec fn can_link(&self, graph: &ObjectGraph, members: Map<u64, IdPair>) -> bool {
        &&& members.dom().finite()
        &&& forall|k: u64|
            members.contains_key(k) ==> (#[trigger] members[k]).1 < self.state().objects.len()
        &&& graph.nodes().len() + 2 * members.dom().len() <= u32::MAX
    }

    /// Turns the attributes `members` of an object into attributes of a
    /// value: for each of them, in the order of their keys, the name gets
    /// its string node and the object bound to it gets its node, as
    /// [`RuntimeContext::into_value`] gives it. At most two nodes are added
    /// for each attribute.
    ///
    /// `None` where an attribute is bound to an id that names no object, or
    /// the graph is full; never where [`RuntimeContext::can_link`] holds.
    pub fn into_value_dict(
        &self,
        members: &PyDictRaw,
        graph: &mut ObjectGraph,
        ast: &Ast,
        interner: &SpanInterner,
    ) -> (result: Option<PyDictRaw>)
        requires
            old(graph).wf(),
        ensures
            final(graph).wf(),
            extends(old(graph), final(graph)),
            members@.dom().finite(),
            final(graph).nodes().len() <= old(graph).nodes().len() + 2 * members@.dom().len(),
            match result {
                Some(properties) => self.linked(final(graph), members@, properties@),
                None => !self.can_link(old(graph), members@),
            },
    {
        let entries = members.entries();
        let mut properties = PyDictRaw::new();
        let mut j: usize = 0;
        while j < entries.len()
            invariant
                graph.wf(),
                extends(old(graph), graph),
                j <= entries@.len(),
                members@.dom().finite(),
                entries@.len() == members@.dom().len(),
                graph.nodes().len() <= old(graph).nodes().len() + 2 * j,
                forall|a: int, b: int| 0 <= a < b < entries@.len() ==> entries@[a].0 < entries@[b].0,
                forall|i: int|
                    0 <= i < entries@.len() ==> members@.contains_pair(
                        (#[trigger] entries@[i]).0,
                        entries@[i].1,
                    ),
                forall|k: u64|
                    properties@.contains_key(k) <==> exists|i: int|
                        0 <= i < j && (#[trigger] entries@[i]).0 == k,
                forall|i: int|
                    0 <= i < j ==> {
                        let k = (#[trigger] entries@[i]).0;
                        &&& graph.strings().contains_key(k)
                        &&& properties@[k].0 == graph.strings()[k]
                        &&& self.node_of(graph, entries@[i].1.1) == Some(properties@[k].1)
                    },
            decreases entries@.len() - j,
        {
            let (key, (name, bound)) = entries[j];
            let ghost before = *graph;
            let ghost held = properties@;
            assert(members@.contains_pair(entries@[j as int].0, entries@[j as int].1));
            if !graph.can_grow() {
                return None;
            }
            let text = copy_text(
                if name <= usize::MAX as u64 {
                    interner.group_text(name as usize)
                } else {
                    None
                },
            );
            let label = graph.add_string_node(key, Value::String(text));
            let ghost middle = *graph;
            let node = match self.into_value(bound, graph, ast, interner) {
                Some(n) => n,
                None => {
                    return None;
                },
            };
            let _ = properties.insert(key, (label, node));
            proof {
                assert(extends(&before, &middle));
                assert(extends(&middle, graph));
                assert forall|k: u64| properties@.contains_key(k) <==> exists|i: int|
                    0 <= i < j + 1 && (#[trigger] entries@[i]).0 == k by {
                    if properties@.contains_key(k) {
                        if k == key {
                            assert(entries@[j as int].0 == k);
                        } else {
                            assert(held.contains_key(k));
                            let i = choose|i: int| 0 <= i < j && (#[trigger] entries@[i]).0 == k;
                            assert(entries@[i].0 == k);
                        }
                    }
                    if exists|i: int| 0 <= i < j + 1 && (#[trigger] entries@[i]).0 == k {
                        let i = choose|i: int| 0 <= i < j + 1 && (#[trigger] entries@[i]).0 == k;
                        if i < j {
                            assert(held.contains_key(k));
                        }
                    }
                }
                assert forall|i: int| 0 <= i < j + 1 implies {
                    let k = (#[trigger] entries@[i]).0;
                    &&& graph.strings().contains_key(k)
                    &&& properties@[k].0 == graph.strings()[k]
                    &&& self.node_of(graph, entries@[i].1.1) == Some(properties@[k].1)
                } by {
                    let k = entries@[i].0;
                    if i < j {
                        assert(entries@[i].0 < entries@[j as int].0);
                        assert(before.strings().contains_key(k));
                        assert(middle.strings().contains_key(k));
                        assert(self.node_of(&before, entries@[i].1.1) == Some(held[k].1));
                        let a = entries@[i].1.1;
                        if self.state().objects[a as int].value is Str {
                            let g = self.state().objects[a as int].value->Str_0 as u64;
                            assert(before.strings().contains_key(g));
                            assert(middle.strings().contains_key(g));
                        } else {
                            assert(before.allocs().contains_key(a));
                            assert(middle.allocs().contains_key(a));
                        }
                    } else {
                        assert(middle.strings().contains_key(key));
                    }
                }
                assert forall|k: u64| #[trigger] old(graph).strings().contains_key(k) implies
                    graph.strings().contains_key(k) && graph.strings()[k] == old(graph).strings()[k] by {
                    assert(before.strings().contains_key(k));
                    assert(middle.strings().contains_key(k));
                }
                assert forall|k: u64| #[trigger] old(graph).allocs().contains_key(k) implies
                    graph.allocs().contains_key(k) && graph.allocs()[k] == old(graph).allocs()[k] by {
                    assert(before.allocs().contains_key(k));
                    assert(middle.allocs().contains_key(k));
                }
            }
            j += 1;
        }
        proof {
            assert forall|k: u64| members@.contains_key(k) <==> properties@.contains_key(k) by {
                if members@.contains_key(k) {
                    let i = choose|i: int|
                        0 <= i < entries@.len() && (#[trigger] entries@[i]).0 == k;
                    assert(entries@[i].0 == k);
                }
                if properties@.contains_key(k) {
                    let i = choose|i: int| 0 <= i < j && (#[trigger] entries@[i]).0 == k;
                    assert(members@.contains_pair(entries@[i].0, entries@[i].1));
                }
            }
            assert forall|k: u64| #[trigger] members@.contains_key(k) implies {
                &&& graph.strings().contains_key(k)
                &&& properties@[k].0 == graph.strings()[k]
                &&& self.node_of(graph, members@[k].1) == Some(properties@[k].1)
            } by {
                let i = choose|i: int| 0 <= i < entries@.len() && (#[trigger] entries@[i]).0 == k;
                assert(members@.contains_pair(entries@[i].0, entries@[i].1));
            }
        }
        Some(properties)
    }

    /// Whether the node of the object `alloc` can surely be filled in: the
    /// object has a node of its own, is neither a string nor an integer,
    /// its attributes are bound to objects, as are its items if it is a
    /// dictionary, and the graph has room for two more nodes for each of
    /// them.
    pub open spec fn can_fill(&self, graph: &ObjectGraph, alloc: ObjAllocId) -> bool {
        let object = self.state().objects[alloc as int];
        &&& alloc < self.state().objects.len()
        &&& graph.allocs().contains_key(alloc)
        &&& !(object.value is Int || object.value is Str)
        &&& self.can_link(graph, object.members)
        &&& object.value is Dict ==> {
            &&& object.items.dom().finite()
            &&& forall|k: u64|
                object.items.contains_key(k) ==> (#[trigger] object.items[k]).1
                    < self.state().objects.len()
            &&& graph.nodes().len() + 2 * object.members.dom().len() + 2
                * object.items.dom().len() <= u32::MAX
        }
    }

    /// Fills in the attributes of the node of the object `alloc`, which
    /// must have a node already: the node's value is made anew, the same
    /// as before but with the attributes that
    /// [`RuntimeContext::into_value_dict`] gives. The items of a dictionary
    /// are filled in likewise.
    ///
    /// Says whether this was done; it was not if the object has no node, is
    /// a string or an integer, or its attributes could not be turned into
    /// values. It is done wherever [`RuntimeContext::can_fill`] holds.
    pub fn link(&self, alloc: ObjAllocId, graph: &mut ObjectGraph, ast: &Ast, interner: &SpanInterner) -> (done:
        bool)
        requires
            old(graph).wf(),
        ensures
            final(graph).wf(),
            final(graph).nodes().len() >= old(graph).nodes().len(),
            forall|k: u64| #[trigger]
                old(graph).strings().contains_key(k) ==> final(graph).strings().contains_key(k)
                    && final(graph).strings()[k] == old(graph).strings()[k],
            forall|k: u64| #[trigger]
                old(graph).allocs().contains_key(k) ==> final(graph).allocs().contains_key(k)
                    && final(graph).allocs()[k] == old(graph).allocs()[k],
            self.can_fill(old(graph), alloc) ==> done,
            done ==> {
                let object = self.state().objects[alloc as int];
                let node = old(graph).allocs()[alloc];
                &&& alloc < self.state().objects.len()
                &&& old(graph).allocs().contains_key(alloc)
                &&& forall|n: int|
                    0 <= n < old(graph).nodes().len() && n != node ==> final(graph).nodes()[n]
                        == old(graph).nodes()[n]
                &&& self.linked(
                    final(graph),
                    object.members,
                    attributes_of(final(graph).nodes()[node as int]),
                )
                &&& object.value is Dict ==> (
                final(graph).nodes()[node as int] matches Value::Dict { object: inner, data }
                    && self.linked(final(graph), object.items, data@))
            },
    {
        if alloc >= self.objects.len() as u64 {
            return false;
        }
        let object = &self.objects[alloc as usize];
        assert(self.state().objects[alloc as int] == object@);
        let node = match graph.index_of_alloc(alloc) {
            Some(n) => n,
            None => {
                return false;
            },
        };
        let ghost start = *graph;
        let properties = match self.into_value_dict(&object.members, graph, ast, interner) {
            Some(p) => p,
            None => {
                return false;
            },
        };
        let ghost middle = *graph;
        let value = match object.value {
            PyValue::Int(_) | PyValue::Str(_) => {
                return false;
            },
            PyValue::Function { def } => {
                let name = match ast.get(def) {
                    Some(spanned) => match &spanned.inner {
                        AstNode::FuncDef(f) => copy_text(interner.group_text(f.name.group())),
                        _ => Vec::new(),
                    },
                    None => Vec::new(),
                };
                Value::Function {
                    name,
                    properties,
                    annotations: PyDictRaw::new(),
                    defsite: None,
                    parent: None,
                }
            },
            PyValue::Class { name } => Value::Class {
                name: copy_text(interner.group_text(name.group())),
                properties,
            },
            PyValue::Dict => {
                let data = match self.into_value_dict(&object.items, graph, ast, interner) {
                    Some(d) => d,
                    None => {
                        return false;
                    },
                };
                proof {
                    self.lemma_linked_stays(&middle, graph, object.members@, properties@);
                }
                Value::Dict { object: Object { type_id: object.type_id, properties }, data }
            },
            _ => Value::Object(Object { type_id: object.type_id, properties }),
        };
        let ghost filled = *graph;
        assert(extends(&start, &filled));
        assert(start.allocs().contains_key(alloc));
        assert(filled.allocs().contains_key(alloc));
        graph.replace_node(node, value);
        proof {
            self.lemma_linked_same_tables(&filled, graph, object.members@, attributes_of(value));
            if object.value is Dict {
                self.lemma_linked_same_tables(
                    &filled,
                    graph,
                    object.items@,
                    value->Dict_data@,
                );
            }
        }
        true
    }

    proof fn lemma_linked_stays(
        &self,
        before: &ObjectGraph,
        after: &ObjectGraph,
        members: Map<u64, IdPair>,
        properties: Map<u64, IdPair>,
    )
        requires
            extends(before, after),
            self.linked(before, members, properties),
        ensures
            self.linked(after, members, properties),
    {
        assert forall|k: u64| #[trigger] members.contains_key(k) implies {
            &&& after.strings().contains_key(k)
            &&& properties[k].0 == after.strings()[k]
            &&& self.node_of(after, members[k].1) == Some(properties[k].1)
        } by {
            assert(before.strings().contains_key(k));
            let a = members[k].1;
            if self.state().objects[a as int].value is Str {
                let g = self.state().objects[a as int].value->Str_0 as u64;
                assert(before.strings().contains_key(g));
            } else {
                assert(before.allocs().contains_key(a));
            }
        }
    }

    proof fn lemma_linked_same_tables(
        &self,
        before: &ObjectGraph,
        after: &ObjectGraph,
        members: Map<u64, IdPair>,
        properties: Map<u64, IdPair>,
    )
        requires
            after.strings() == before.strings(),
            after.allocs() == before.allocs(),
            self.linked(before, members, properties),
        ensures
            self.linked(after, members, properties),
    {
        assert forall|k: u64| #[trigger] members.contains_key(k) implies {
            &&& after.strings().contains_key(k)
            &&& properties[k].0 == after.strings()[k]
            &&& self.node_of(after, members[k].1) == Some(properties[k].1)
        } by {
            assert(before.strings().contains_key(k));
        }
    }
}

} // verus!
