use vstd::prelude::*;

verus! {

/// Identifier of an engine object (a material label, a mesh buffer, an image).
#[derive(Clone, Copy, PartialEq, Eq, Structural, Debug)]
pub struct Id {
    pub value: u64,
}

/// The identifier that names nothing.
pub const NULL_ID_VALUE: u64 = 0xffff_ffff_ffff_ffffu64;

impl Id {
    /// Wraps a raw value as an identifier.
    pub fn new(value: u64) -> (id: Id)
        ensures
            id.value == value,
    {
        Id { value }
    }

    /// The identifier that names nothing.
    pub fn null() -> (id: Id)
        ensures
            id.value == NULL_ID_VALUE,
    {
        Id { value: NULL_ID_VALUE }
    }

    /// Whether this identifier names nothing.
    pub fn is_null(&self) -> (b: bool)
        ensures
            b == (self.value == NULL_ID_VALUE),
    {
        self.value == NULL_ID_VALUE
    }
}

} // verus!
