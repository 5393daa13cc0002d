//! Object identifiers: non-zero numbers; custom objects start at 1024.

use vstd::prelude::*;

verus! {

/// The identifier of an object: a non-zero number.
#[derive(Clone, Copy, Debug, PartialEq, Eq, Hash, PartialOrd, Ord, Structural)]
pub struct ObjectId(u64);

impl View for ObjectId {
    type V = u64;

    closed spec fn view(&self) -> u64 {
        self.0
    }
}

impl ObjectId {
    #[verifier::type_invariant]
    spec fn non_zero(self) -> bool {
        self.0 != 0
    }

    /// The identifier `id`, unless it is zero.
    pub fn new(id: u64) -> (r: Option<ObjectId>)
        ensures
            match r {
                Some(o) => id != 0 && o@ == id,
                None => id == 0,
            },
    {
        if id == 0 {
            None
        } else {
            Some(ObjectId(id))
        }
    }

    /// The number of the identifier.
    pub fn get(self) -> (r: u64)
        ensures
            r == self@,
            r != 0,
    {
        proof {
            use_type_invariant(&self);
        }
        self.0
    }
}

/// The smallest number a custom object may have.
pub const FIRST_CUSTOM_OBJECT_ID: u64 = 1024;

/// The identifier of a custom object: at least [`FIRST_CUSTOM_OBJECT_ID`].
#[derive(Clone, Copy, Debug, PartialEq, Eq, Hash, Structural)]
pub struct CustomObjectId(ObjectId);

impl View for CustomObjectId {
    type V = u64;

    closed spec fn view(&self) -> u64 {
        self.0@
    }
}

impl CustomObjectId {
    #[verifier::type_invariant]
    spec fn custom(self) -> bool {
        self.0@ >= FIRST_CUSTOM_OBJECT_ID
    }

    /// The first custom object identifier.
    pub fn first() -> (r: CustomObjectId)
        ensures
            r@ == FIRST_CUSTOM_OBJECT_ID,
    {
        CustomObjectId(ObjectId(1024))
    }

    /// The custom identifier `value`, or `Err(())` below the first one.
    pub fn try_from(value: u64) -> (r: Result<CustomObjectId, ()>)
        ensures
            match r {
                Ok(id) => value >= FIRST_CUSTOM_OBJECT_ID && id@ == value,
                Err(()) => value < FIRST_CUSTOM_OBJECT_ID,
            },
    {
        if value < 1024 {
            Err(())
        } else {
            Ok(CustomObjectId(ObjectId(value)))
        }
    }

    /// The identifier as a plain object identifier.
    pub fn into_object_id(self) -> (r: ObjectId)
        ensures
            r@ == self@,
            r@ >= FIRST_CUSTOM_OBJECT_ID,
    {
        proof {
            use_type_invariant(&self);
        }
        self.0
    }
}

} // verus!
