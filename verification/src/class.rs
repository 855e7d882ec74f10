//! Classes: the type of a class and the types of its properties.

use crate::scope::LocalScope;
use crate::span::SpanRef;
use crate::typing::{FunctionType, LocalTypeId, TypeMap, TypeShape};
use vstd::prelude::*;

verus! {

/// A class of the program: the scope of its body, its type, and the types
/// of its properties by name.
#[derive(Debug)]
pub struct Class {
    pub scope: LocalScope,
    pub kind: LocalTypeId,
    pub properties: Vec<(SpanRef, LocalTypeId)>,
}

/// Whether the property `property` can stand for the method `template`: it
/// has the method's name, and its type is a function of that name with the
/// same arguments.
pub open spec fn fits_method(
    types: Seq<TypeShape>,
    property: (SpanRef, LocalTypeId),
    template: FunctionType,
) -> bool {
    &&& property.0.spec_group() == template@.name
    &&& property.1 < types.len()
    &&& types[property.1 as int] is Function
    &&& types[property.1 as int]->Function_0.name == template@.name
    &&& types[property.1 as int]->Function_0.args == template@.args
}

/// The return type of the first property, from the place `from` on, that
/// can stand for the method `template`.
pub open spec fn unified_method(
    types: Seq<TypeShape>,
    properties: Seq<(SpanRef, LocalTypeId)>,
    template: FunctionType,
    from: int,
) -> Option<LocalTypeId>
    decreases properties.len() - from,
{
    if from < 0 || from >= properties.len() {
        None
    } else if fits_method(types, properties[from], template) {
        Some(types[properties[from].1 as int]->Function_0.ret)
    } else {
        unified_method(types, properties, template, from + 1)
    }
}

/// No name stands twice among the properties: they are a map from the
/// name of a property to its type.
pub open spec fn names_once(properties: Seq<(SpanRef, LocalTypeId)>) -> bool {
    forall|i: int, j: int|
        0 <= i < j < properties.len() ==> properties[i].0.spec_group()
            != properties[j].0.spec_group()
}

impl Class {
    /// No property stands twice under one name.
    pub open spec fn wf(&self) -> bool {
        names_once(self.properties@)
    }

    /// Looks for a method of this class that can stand for `template` and
    /// gives what it returns.
    pub fn try_unify_method(&self, type_map: &TypeMap, template: &FunctionType) -> (ret: Option<
        LocalTypeId,
    >)
        ensures
            ret == unified_method(type_map@, self.properties@, *template, 0),
    {
        let mut i: usize = 0;
        while i < self.properties.len()
            invariant
                i <= self.properties@.len(),
                unified_method(type_map@, self.properties@, *template, 0) == unified_method(
                    type_map@,
                    self.properties@,
                    *template,
                    i as int,
                ),
            decreases self.properties@.len() - i,
        {
            let (name, kind) = self.properties[i];
            if name.group() == template.name.group() && type_map.unify_func(kind, template) {
                match type_map.get_function(kind) {
                    Some(f) => {
                        return Some(f.ret);
                    },
                    None => {},
                }
            }
            i += 1;
        }
        None
    }
}

} // verus!
