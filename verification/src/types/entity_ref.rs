//! Entity references — opaque, addressable identifiers.

use vstd::prelude::*;

verus! {

/// An opaque, stable reference to an entity. Entities have no intrinsic
/// type — interpretation arises from facts asserted about them.
#[derive(Clone, Copy, Debug, PartialEq, Eq, Structural, Hash, PartialOrd, Ord)]
pub struct EntityRef(pub u64);

impl EntityRef {
    /// Construct an `EntityRef` from a raw `u64`.
    pub fn new(id: u64) -> (r: Self)
        ensures
            r.0 == id,
    {
        EntityRef(id)
    }

    /// The raw `u64` inside the reference.
    pub fn as_u64(self) -> (r: u64)
        ensures
            r == self.0,
    {
        self.0
    }

    /// Human-readable rendering, `EntityRef(<n>)`.
    pub fn to_display_string(self) -> (s: String)
        ensures
            s@ == "EntityRef("@ + crate::text::decimal(self.0 as nat) + ")"@,
    {
        let mut s = String::from_str("EntityRef(");
        crate::text::push_decimal(&mut s, self.0);
        s.append(")");
        s
    }
}

} // verus!
