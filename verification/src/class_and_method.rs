use vstd::prelude::*;
use crate::class::ClassId;

verus! {

/// A resolved class together with one of its methods, given by the method's
/// position among the methods of the class: the unit of invocation.
#[derive(Clone, Copy, Debug, PartialEq, Eq, Structural)]
pub struct ClassAndMethod {
    pub class: ClassId,
    pub method: usize,
}

} // verus!
