//! Identifiers of session objects.

use vstd::prelude::*;

verus! {

/// Identifies one object of the session.
#[derive(Clone, Copy, Debug, PartialEq, Eq, Structural, Hash)]
pub struct ObjectId {
    raw: u32,
}

impl ObjectId {
    /// The number behind this identifier.
    pub closed spec fn raw(self) -> u32 {
        self.raw
    }

    /// The identifier that stands for the number `raw`.
    pub fn from_raw_id(raw: u32) -> (id: ObjectId)
        ensures
            id.raw() == raw,
    {
        ObjectId { raw }
    }

    /// The number that this identifier stands for.
    pub fn raw_id(&self) -> (raw: u32)
        ensures
            raw == self.raw(),
    {
        self.raw
    }

    /// Two identifiers with the same number are the same identifier.
    pub proof fn lemma_raw_injective(a: ObjectId, b: ObjectId)
        requires
            a.raw() == b.raw(),
        ensures
            a == b,
    {
    }
}

} // verus!
