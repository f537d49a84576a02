//! Identity of service objects and the messages of their life cycle.

use vstd::prelude::*;

verus! {

/// Internal representation of an object id.
///
/// It is struct name + the object id (as in [WithId]).
/// It is used for lookups across this project
#[derive(Debug)]
pub struct ObjectId(pub String, pub String);

impl ObjectId {
    pub fn new(struct_name: String, object_id: String) -> (r: ObjectId)
        ensures
            r.0 == struct_name,
            r.1 == object_id,
    {
        ObjectId(struct_name, object_id)
    }
}

/// Common interface to get a string Id for an object
///
/// This is particularly useful for the registry, as every object
/// in the registry needs to have an Id for retrieval
pub trait WithId {
    fn set_id(&mut self, id: String);

    fn id(&self) -> &str;
}

/// Define a name for a given Struct so it can be used at runtime.
///
/// Each type gives its own name, which must be the same on every server
/// of the cluster.
pub trait IdentifiableType {
    fn user_defined_type_id() -> &'static str;

    /// Same as `user_defined_type_id`, but it can be called directly from
    /// the struct instance.
    fn instance_type_id(&self) -> (r: &'static str)
        ensures
            call_ensures(Self::user_defined_type_id, (), r),
    {
        Self::user_defined_type_id()
    }
}

/// Message that is sent to the object when it reaches specific
/// parts of its life cycle
#[derive(Debug, PartialEq, Eq, Structural)]
pub enum LifecycleMessage {
    Load,
}

impl IdentifiableType for LifecycleMessage {
    fn user_defined_type_id() -> (r: &'static str)
        ensures
            r@ == "LifecycleMessage"@,
    {
        "LifecycleMessage"
    }
}

} // verus!
