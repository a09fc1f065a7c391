use vstd::prelude::*;

verus! {

/// Failures reported by the virtual machine's own components.
#[derive(Debug, PartialEq, Eq)]
pub enum VmError {
    /// No class with the given name could be resolved.
    ClassNotFoundException(String),
    /// The request does not fit the state of the machine: a value of the
    /// wrong kind for a slot, an operand stack used beyond its bounds, an
    /// object of an unexpected shape.
    ValidationException,
    /// A native method has no registered implementation.
    NotImplemented,
    /// An array was accessed at an index that is not below its length.
    ArrayIndexOutOfBoundsException,
}

/// What a failure is, with its strings as sequences of chars.
pub enum VmErrorView {
    ClassNotFoundException(Seq<char>),
    ValidationException,
    NotImplemented,
    ArrayIndexOutOfBoundsException,
}

impl View for VmError {
    type V = VmErrorView;

    open spec fn view(&self) -> VmErrorView {
        match self {
            VmError::ClassNotFoundException(name) => VmErrorView::ClassNotFoundException(name@),
            VmError::ValidationException => VmErrorView::ValidationException,
            VmError::NotImplemented => VmErrorView::NotImplemented,
            VmError::ArrayIndexOutOfBoundsException => VmErrorView::ArrayIndexOutOfBoundsException,
        }
    }
}

} // verus!
