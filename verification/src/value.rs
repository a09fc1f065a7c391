use vstd::prelude::*;

verus! {

/// Handle to an object instance. Handles are freely copied: every copy
/// denotes the same object. Address zero denotes no object.
#[derive(Clone, Copy, Debug, PartialEq, Eq, Structural)]
pub struct ObjectRef {
    pub address: u64,
}

/// Handle to a managed array. Handles are freely copied: every copy denotes
/// the same array. Address zero denotes no array.
#[derive(Clone, Copy, Debug, PartialEq, Eq, Structural)]
pub struct ArrayRef {
    pub address: u64,
}

/// A value of the machine. The floating-point variants hold the IEEE 754 bit
/// pattern of the number.
#[derive(Clone, Copy, Debug, PartialEq, Eq, Structural)]
pub enum Value {
    Int(i32),
    Long(i64),
    Float(u32),
    Double(u64),
    Object(ObjectRef),
    Array(ArrayRef),
    Null,
}

impl Value {
    /// Whether the value is a 64-bit integral or floating value.
    pub open spec fn is_wide(self) -> bool {
        self is Long || self is Double
    }
}

} // verus!
