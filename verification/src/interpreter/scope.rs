//! The scopes of the interpreter: what names are bound to while code runs.
//!
//! The bindings of a scope live in a `dashmap` map from the group of a name
//! to the id of the object bound to it.

use crate::ast::{Ast, AstNode};
use crate::context::ModuleRef;
use crate::interpreter::object_graph::ObjAllocId;
use crate::scope::ScopeRoot;
use vstd::prelude::*;

verus! {

/// `dashmap::DashMap`, the concurrent map of the `dashmap` crate. The
/// verifier sees nothing inside a value of it.
#[verifier::external_type_specification]
#[verifier::external_body]
#[verifier::reject_recursive_types(K)]
#[verifier::reject_recursive_types(V)]
#[verifier::reject_recursive_types(S)]
pub struct ExDashMap<K, V, S>(dashmap::DashMap<K, V, S>);

/// A map from the group of a name to a number: the bindings of a scope,
/// or the places of the entries of a rib.
pub type Namespace = dashmap::DashMap<u64, u64, std::collections::hash_map::RandomState>;

/// The pairs that such a map holds.
pub uninterp spec fn namespace_entries(namespace: Namespace) -> Map<u64, u64>;

/// `DashMap::new`: a map without entries.
#[verifier::external_body]
pub(crate) fn namespace_new() -> (fresh: Namespace)
    ensures
        namespace_entries(fresh) =~= Map::empty(),
{
    dashmap::DashMap::new()
}

/// `DashMap::insert`: binds `key` to `value`; every other binding stays.
/// The map is only ever reached through the value that owns it, so the
/// exclusive borrow stands for the lock that the map takes.
#[verifier::external_body]
pub(crate) fn namespace_insert(namespace: &mut Namespace, key: u64, value: u64)
    ensures
        namespace_entries(*final(namespace)) == namespace_entries(*old(namespace)).insert(
            key,
            value,
        ),
{
    namespace.insert(key, value);
}

/// `DashMap::get`: what `key` is bound to, if it is bound.
#[verifier::external_body]
pub(crate) fn namespace_get(namespace: &Namespace, key: u64) -> (value: Option<u64>)
    ensures
        value == if namespace_entries(*namespace).contains_key(key) {
            Some(namespace_entries(*namespace)[key])
        } else {
            None
        },
{
    namespace.get(&key).map(|entry| *entry.value())
}

/// A scope of the running program.
pub struct DynamicScope {
    pub root: ScopeRoot,
    pub mref: ModuleRef,
    pub namespace: Namespace,
}

impl View for DynamicScope {
    type V = Map<u64, u64>;

    open spec fn view(&self) -> Map<u64, u64> {
        namespace_entries(self.namespace)
    }
}

impl DynamicScope {
    /// A scope without bindings.
    pub fn new(root: ScopeRoot, mref: ModuleRef) -> (scope: Self)
        ensures
            scope@ == Map::<u64, u64>::empty(),
            scope.root == root,
            scope.mref == mref,
    {
        DynamicScope { root, mref, namespace: namespace_new() }
    }

    /// Binds the name with the group `name` to the object `value`.
    pub fn define(&mut self, name: usize, value: ObjAllocId)
        ensures
            final(self)@ == old(self)@.insert(name as u64, value),
            final(self).root == old(self).root,
            final(self).mref == old(self).mref,
    {
        namespace_insert(&mut self.namespace, name as u64, value);
    }

    /// The object that the name with the group `name` is bound to.
    pub fn lookup(&self, name: usize) -> (value: Option<ObjAllocId>)
        ensures
            value == if self@.contains_key(name as u64) {
                Some(self@[name as u64])
            } else {
                None
            },
    {
        namespace_get(&self.namespace, name as u64)
    }

    /// Whether annotations without a value may stand here: in the body of a
    /// class and at the top level of a module.
    pub fn may_contain_annotations(&self, ast: &Ast) -> (may: bool)
        ensures
            may == match self.root {
                ScopeRoot::Module => true,
                ScopeRoot::Class(_) => true,
                ScopeRoot::AstObject(n) => n < ast@.len() && ast@[n as int].inner is ClassDef,
                ScopeRoot::Func(_) => false,
            },
    {
        match self.root {
            ScopeRoot::Module => true,
            ScopeRoot::Class(_) => true,
            ScopeRoot::AstObject(n) => match ast.get(n) {
                Some(spanned) => match &spanned.inner {
                    AstNode::ClassDef(_) => true,
                    _ => false,
                },
                None => false,
            },
            ScopeRoot::Func(_) => false,
        }
    }
}

} // verus!
