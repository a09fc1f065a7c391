use vstd::prelude::*;
use crate::class_and_method::ClassAndMethod;
use crate::exceptions::MethodCallFailed;
use crate::value::{ObjectRef, Value};
use crate::value_stack::ValueStack;

verus! {

/// What an invocation gives: the value returned, if the method returns one,
/// or the failure.
pub type MethodCallResult = Result<Option<Value>, MethodCallFailed>;

/// One method activation: the method, its local variables and its operand
/// stack.
#[derive(Debug)]
pub struct CallFrame {
    class_and_method: ClassAndMethod,
    locals: Vec<Value>,
    stack: ValueStack,
}

/// What a frame is: the method, the local variables, and the entries and
/// capacity of the operand stack.
pub struct CallFrameView {
    pub class_and_method: ClassAndMethod,
    pub locals: Seq<Value>,
    pub stack: Seq<Value>,
    pub max_stack: nat,
}

impl View for CallFrame {
    type V = CallFrameView;

    closed spec fn view(&self) -> CallFrameView {
        CallFrameView {
            class_and_method: self.class_and_method,
            locals: self.locals@,
            stack: self.stack@,
            max_stack: self.stack.capacity(),
        }
    }
}

/// The local variables at the start of an activation: the receiver, if the
/// method has one, followed by the arguments.
pub open spec fn initial_locals(receiver: Option<ObjectRef>, args: Seq<Value>) -> Seq<Value> {
    match receiver {
        Some(object) => seq![Value::Object(object)] + args,
        None => args,
    }
}

/// The frame at the start of an activation: the initial local variables and
/// an empty operand stack of the method's declared maximum depth.
pub open spec fn initial_frame(
    class_and_method: ClassAndMethod,
    receiver: Option<ObjectRef>,
    args: Seq<Value>,
    max_stack: usize,
) -> CallFrameView {
    CallFrameView {
        class_and_method,
        locals: initial_locals(receiver, args),
        stack: Seq::empty(),
        max_stack: max_stack as nat,
    }
}

impl CallFrame {
    /// The operand stack never holds more entries than its capacity.
    pub closed spec fn wf(&self) -> bool {
        self.stack.wf()
    }

    /// The frame for a new activation of `class_and_method`.
    pub fn new(
        class_and_method: ClassAndMethod,
        receiver: Option<ObjectRef>,
        args: Vec<Value>,
        max_stack: usize,
    ) -> (result: CallFrame)
        ensures
            result.wf(),
            result@ == initial_frame(class_and_method, receiver, args@, max_stack),
    {
        let mut locals: Vec<Value> = Vec::new();
        if let Some(object) = receiver {
            locals.push(Value::Object(object));
        }
        let ghost first = locals@;
        let mut index: usize = 0;
        while index < args.len()
            invariant
                index <= args.len(),
                locals@ == first + args@.take(index as int),
            decreases args.len() - index,
        {
            locals.push(args[index]);
            assert(locals@ =~= first + args@.take(index + 1));
            index = index + 1;
        }
        assert(locals@ =~= initial_locals(receiver, args@));
        CallFrame { class_and_method, locals, stack: ValueStack::with_max_size(max_stack) }
    }

    pub fn class_and_method(&self) -> (result: ClassAndMethod)
        ensures
            result == self@.class_and_method,
    {
        self.class_and_method
    }

    /// The operand stack.
    pub fn stack(&self) -> (result: &ValueStack)
        requires
            self.wf(),
        ensures
            result.wf(),
            result@ == self@.stack,
            result.capacity() == self@.max_stack,
    {
        &self.stack
    }

    /// The operand stack, to work on: what is done to it is done to the
    /// frame's, and nothing else of the frame changes.
    pub fn stack_mut(&mut self) -> (result: &mut ValueStack)
        requires
            old(self).wf(),
        ensures
            result.wf(),
            result@ == old(self)@.stack,
            result.capacity() == old(self)@.max_stack,
            final(self)@ == (CallFrameView {
                stack: final(result)@,
                max_stack: final(result).capacity(),
                ..old(self)@
            }),
            final(result).wf() ==> final(self).wf(),
    {
        &mut self.stack
    }

    /// The local variable at `index`, if the frame has one there.
    pub fn local(&self, index: usize) -> (result: Option<Value>)
        ensures
            index < self@.locals.len() ==> result == Some(self@.locals[index as int]),
            index >= self@.locals.len() ==> result is None,
    {
        if index < self.locals.len() {
            Some(self.locals[index])
        } else {
            None
        }
    }

    /// Sets the local variable at `index`. A frame without a local
    /// variable there is left as it is.
    pub fn set_local(&mut self, index: usize, value: Value) -> (result: bool)
        ensures
            final(self).wf() == old(self).wf(),
            result == (index < old(self)@.locals.len()),
            result ==> final(self)@ == (CallFrameView {
                locals: old(self)@.locals.update(index as int, value),
                ..old(self)@
            }),
            !result ==> final(self)@ == old(self)@,
    {
        if index < self.locals.len() {
            self.locals.set(index, value);
            true
        } else {
            false
        }
    }
}

} // verus!
