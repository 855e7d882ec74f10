//! The ids of the objects of the runtime.

use vstd::prelude::*;
use vstd::std_specs::convert::FromSpecImpl;

verus! {

/// The id of an object. It is never zero; the largest number stands for an
/// id that has not been given yet.
#[derive(PartialEq, Eq, Structural, PartialOrd, Ord, Hash, Clone, Copy, Debug)]
pub struct ObjectId(u64);

impl ObjectId {
    /// The number behind the id.
    pub closed spec fn value(self) -> u64 {
        self.0
    }

    /// The id with the number `n`; there is none for zero.
    pub fn new(n: u64) -> (id: Option<ObjectId>)
        ensures
            n == 0 ==> id.is_none(),
            n != 0 ==> id.is_some() && id.unwrap().value() == n,
    {
        if n == 0 {
            None
        } else {
            Some(ObjectId(n))
        }
    }

    /// The number behind the id.
    pub fn get(self) -> (n: u64)
        ensures
            n == self.value(),
    {
        self.0
    }

    /// Whether the id has not been given yet.
    pub fn is_uninit(&self) -> (uninit: bool)
        ensures
            uninit == (self.value() == u64::MAX),
    {
        self.0 == u64::MAX
    }
}

impl Default for ObjectId {
    /// The id that has not been given yet.
    fn default() -> (id: ObjectId)
        ensures
            id.value() == u64::MAX,
    {
        ObjectId(u64::MAX)
    }
}

impl From<ObjectId> for u64 {
    fn from(object_id: ObjectId) -> (n: u64) {
        object_id.0
    }
}

impl FromSpecImpl<ObjectId> for u64 {
    open spec fn obeys_from_spec() -> bool {
        true
    }

    open spec fn from_spec(object_id: ObjectId) -> u64 {
        object_id.value()
    }
}

} // verus!
