use vstd::prelude::*;
use crate::class::ClassId;

verus! {

/// The primitive kinds of the machine.
#[derive(Clone, Copy, Debug, PartialEq, Eq, Structural)]
pub enum BaseType {
    Byte,
    Char,
    Double,
    Float,
    Int,
    Long,
    Short,
    Boolean,
}

/// What the elements of an array are: a primitive kind, references to
/// instances of a class, or references to other arrays.
#[derive(Clone, Copy, Debug, PartialEq, Eq, Structural)]
pub enum ArrayEntryType {
    Base(BaseType),
    Object(ClassId),
    Array,
}

impl BaseType {
    /// Whether values of this kind are held as 32-bit integral values:
    /// booleans, bytes, chars, shorts and ints alike.
    pub open spec fn is_int_like(self) -> bool {
        self is Boolean || self is Byte || self is Char || self is Short || self is Int
    }
}

} // verus!
