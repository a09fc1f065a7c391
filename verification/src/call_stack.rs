use vstd::prelude::*;
use crate::call_frame::{initial_frame, CallFrame, CallFrameView};
use crate::class_and_method::ClassAndMethod;
use crate::value::{ObjectRef, Value};
use crate::vm_error::VmError;

verus! {

/// The depth that a call stack allows unless it is made with another.
pub const DEFAULT_MAX_DEPTH: usize = 1024;

/// The frames of the activations in progress, the innermost last. The
/// stack never grows beyond the depth it was made with.
#[derive(Debug)]
pub struct CallStack {
    frames: Vec<CallFrame>,
    max_depth: usize,
}

impl View for CallStack {
    type V = Seq<CallFrameView>;

    closed spec fn view(&self) -> Seq<CallFrameView> {
        self.frames@.map_values(|frame: CallFrame| frame@)
    }
}

impl CallStack {
    /// The greatest number of frames that the stack holds.
    pub closed spec fn max_depth(&self) -> nat {
        self.max_depth as nat
    }

    /// The stack is no deeper than it may be, and every frame is well
    /// formed.
    pub closed spec fn wf(&self) -> bool {
        &&& self.frames@.len() <= self.max_depth
        &&& forall|at: int| 0 <= at < self.frames@.len() ==> (#[trigger] self.frames@[at]).wf()
    }

    pub fn new() -> (result: CallStack)
        ensures
            result.wf(),
            result@ == Seq::<CallFrameView>::empty(),
            result.max_depth() == DEFAULT_MAX_DEPTH,
    {
        Self::with_max_depth(DEFAULT_MAX_DEPTH)
    }

    pub fn with_max_depth(max_depth: usize) -> (result: CallStack)
        ensures
            result.wf(),
            result@ == Seq::<CallFrameView>::empty(),
            result.max_depth() == max_depth,
    {
        let result = CallStack { frames: Vec::new(), max_depth };
        assert(result@ =~= Seq::<CallFrameView>::empty());
        result
    }

    /// The number of activations in progress.
    pub fn depth(&self) -> (result: usize)
        ensures
            result == self@.len(),
    {
        self.frames.len()
    }

    /// Pushes the frame for a new activation. Fails, changing nothing, when
    /// the stack is as deep as it may be.
    pub fn add_frame(
        &mut self,
        class_and_method: ClassAndMethod,
        receiver: Option<ObjectRef>,
        args: Vec<Value>,
        max_stack: usize,
    ) -> (result: Result<(), VmError>)
        requires
            old(self).wf(),
        ensures
            final(self).wf(),
            final(self).max_depth() == old(self).max_depth(),
            old(self)@.len() < old(self).max_depth() ==> result == Ok::<(), VmError>(())
                && final(self)@ == old(self)@.push(
                initial_frame(class_and_method, receiver, args@, max_stack),
            ),
            old(self)@.len() >= old(self).max_depth() ==> result == Err::<(), VmError>(
                VmError::ValidationException,
            ) && final(self)@ == old(self)@,
    {
        if self.frames.len() < self.max_depth {
            let frame = CallFrame::new(class_and_method, receiver, args, max_stack);
            self.frames.push(frame);
            assert(self@ =~= old(self)@.push(
                initial_frame(class_and_method, receiver, args@, max_stack),
            ));
            Ok(())
        } else {
            Err(VmError::ValidationException)
        }
    }

    /// Pops the innermost frame. Fails on an empty stack.
    pub fn pop_frame(&mut self) -> (result: Result<(), VmError>)
        requires
            old(self).wf(),
        ensures
            final(self).wf(),
            final(self).max_depth() == old(self).max_depth(),
            old(self)@.len() > 0 ==> result == Ok::<(), VmError>(()) && final(self)@ == old(self)@.drop_last(),
            old(self)@.len() == 0 ==> result == Err::<(), VmError>(VmError::ValidationException)
                && final(self)@ == old(self)@,
    {
        match self.frames.pop() {
            Some(_) => {
                assert(self@ =~= old(self)@.drop_last());
                Ok(())
            },
            None => Err(VmError::ValidationException),
        }
    }

    /// The innermost frame.
    pub fn top(&self) -> (result: Option<&CallFrame>)
        ensures
            match result {
                Some(frame) => self@.len() > 0 && frame@ == self@.last(),
                None => self@.len() == 0,
            },
    {
        let depth = self.frames.len();
        if depth > 0 {
            Some(&self.frames[depth - 1])
        } else {
            None
        }
    }

    /// The innermost frame, to work on: what is done to it is done to the
    /// frame on the stack, and no other frame changes.
    pub fn top_mut(&mut self) -> (result: &mut CallFrame)
        requires
            old(self).wf(),
            old(self)@.len() > 0,
        ensures
            result.wf(),
            result@ == old(self)@.last(),
            final(self)@ == old(self)@.update(old(self)@.len() - 1, final(result)@),
            final(self).max_depth() == old(self).max_depth(),
            final(result).wf() ==> final(self).wf(),
    {
        let depth = self.frames.len();
        &mut self.frames[depth - 1]
    }
}

} // verus!
