//! Where service object states are stored.

use vstd::prelude::*;

use crate::text::join3;

verus! {

/// The Redis key of one state of one object:
/// `{prefix}state:{object_kind}:{object_id}:{state_type}`.
pub open spec fn state_key(prefix: Seq<char>, object_kind: Seq<char>, object_id: Seq<char>, state_type: Seq<char>) -> Seq<char> {
    prefix + "state:"@ + object_kind + ":"@ + object_id + ":"@ + state_type
}

/// The Redis key of one state of one object.
pub fn state_key_of(key_prefix: &str, object_kind: &str, object_id: &str, state_type: &str) -> (r: String)
    ensures
        r@ == state_key(key_prefix@, object_kind@, object_id@, state_type@),
{
    join3(key_prefix, "state:", object_kind).concat(":").concat(object_id).concat(":").concat(state_type)
}

} // verus!
