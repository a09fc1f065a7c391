use vstd::prelude::*;
use crate::value::ObjectRef;
use crate::vm_error::{VmError, VmErrorView};

verus! {

/// An exception of the guest program: the handle of the exception object.
#[derive(Clone, Copy, Debug, PartialEq, Eq, Structural)]
pub struct JavaException(pub ObjectRef);

/// Why an invocation failed: the machine itself failed, or the guest
/// program threw an exception that its callers may catch.
#[derive(Debug, PartialEq, Eq)]
pub enum MethodCallFailed {
    InternalError(VmError),
    ExceptionThrown(JavaException),
}

/// What a failed invocation is, with its strings as sequences of chars.
pub enum MethodCallFailedView {
    InternalError(VmErrorView),
    ExceptionThrown(JavaException),
}

impl View for MethodCallFailed {
    type V = MethodCallFailedView;

    open spec fn view(&self) -> MethodCallFailedView {
        match self {
            MethodCallFailed::InternalError(error) => MethodCallFailedView::InternalError(error@),
            MethodCallFailed::ExceptionThrown(exception) => MethodCallFailedView::ExceptionThrown(
                *exception,
            ),
        }
    }
}

} // verus!
