use vstd::prelude::*;
use crate::value::Value;
use crate::vm_error::VmError;

verus! {

/// Bounded operand stack of one method activation.
#[derive(Debug)]
pub struct ValueStack {
    stack: Vec<Value>,
    max_size: usize,
}

impl View for ValueStack {
    type V = Seq<Value>;

    /// The entries, bottom first: the last element is the top of the stack.
    closed spec fn view(&self) -> Seq<Value> {
        self.stack@
    }
}

impl std::ops::Index<usize> for ValueStack {
    type Output = Value;

    fn index(&self, index: usize) -> (result: &Value)
        ensures
            *result == self@[index as int],
    {
        &self.stack[index]
    }
}

impl vstd::std_specs::core::IndexSpecImpl<usize> for ValueStack {
    /// Indexing is defined for the positions that hold an entry.
    open spec fn index_req(&self, index: &usize) -> bool {
        *index < self@.len()
    }
}

impl ValueStack {
    /// The maximum number of entries, fixed at construction.
    pub closed spec fn capacity(&self) -> nat {
        self.max_size as nat
    }

    /// The stack never holds more entries than its capacity.
    pub open spec fn wf(&self) -> bool {
        self@.len() <= self.capacity()
    }

    /// What `pop2` gives on a stack: its result and the stack afterwards.
    pub open spec fn pop2_outcome(stack: Seq<Value>) -> (Result<Value, VmError>, Seq<Value>) {
        let len = stack.len() as int;
        if len == 0 {
            (Err(VmError::ValidationException), stack)
        } else if stack.last().is_wide() {
            (Ok(stack.last()), stack.drop_last())
        } else if len == 1 {
            (Err(VmError::ValidationException), Seq::empty())
        } else {
            (Ok(stack.last()), stack.take(len - 2))
        }
    }

    /// What `dup` gives on a stack with the given capacity. A stack that is
    /// full or empty is left as it is.
    pub open spec fn dup_outcome(stack: Seq<Value>, capacity: nat) -> (Result<(), VmError>, Seq<Value>) {
        if stack.len() >= capacity || stack.len() == 0 {
            (Err(VmError::ValidationException), stack)
        } else {
            (Ok(()), stack.push(stack.last()))
        }
    }

    /// What `dup_x1` gives on a stack with the given capacity. A full stack
    /// is left as it is; one with fewer than two entries is left empty.
    pub open spec fn dup_x1_outcome(stack: Seq<Value>, capacity: nat) -> (
        Result<(), VmError>,
        Seq<Value>,
    ) {
        let len = stack.len() as int;
        if len >= capacity {
            (Err(VmError::ValidationException), stack)
        } else if len < 2 {
            (Err(VmError::ValidationException), Seq::empty())
        } else {
            let a = stack[len - 1];
            let b = stack[len - 2];
            (Ok(()), stack.take(len - 2) + seq![a, b, a])
        }
    }

    /// What `dup_x2` gives on a stack with the given capacity. A full stack
    /// is left as it is; one with fewer than three entries is left empty.
    pub open spec fn dup_x2_outcome(stack: Seq<Value>, capacity: nat) -> (
        Result<(), VmError>,
        Seq<Value>,
    ) {
        let len = stack.len() as int;
        if len >= capacity {
            (Err(VmError::ValidationException), stack)
        } else if len < 3 {
            (Err(VmError::ValidationException), Seq::empty())
        } else {
            let a = stack[len - 1];
            let b = stack[len - 2];
            let c = stack[len - 3];
            (Ok(()), stack.take(len - 3) + seq![a, c, b, a])
        }
    }

    /// What `dup2` gives on a stack with the given capacity. A full stack is
    /// left as it is; one with fewer than two entries is left empty; one
    /// with room for a single entry more is left with `b` on top of it.
    pub open spec fn dup2_outcome(stack: Seq<Value>, capacity: nat) -> (
        Result<(), VmError>,
        Seq<Value>,
    ) {
        let len = stack.len() as int;
        if len >= capacity {
            (Err(VmError::ValidationException), stack)
        } else if len < 2 {
            (Err(VmError::ValidationException), Seq::empty())
        } else {
            let a = stack[len - 1];
            let b = stack[len - 2];
            if len + 2 > capacity {
                (Err(VmError::ValidationException), stack.take(len - 2) + seq![b, a, b])
            } else {
                (Ok(()), stack.take(len - 2) + seq![b, a, b, a])
            }
        }
    }

    /// What `dup2_x1` gives on a stack with the given capacity. A full
    /// stack is left as it is; one with fewer than three entries is left
    /// empty; one with room for a single entry more is left one entry short
    /// of the result.
    pub open spec fn dup2_x1_outcome(stack: Seq<Value>, capacity: nat) -> (
        Result<(), VmError>,
        Seq<Value>,
    ) {
        let len = stack.len() as int;
        if len >= capacity {
            (Err(VmError::ValidationException), stack)
        } else if len < 3 {
            (Err(VmError::ValidationException), Seq::empty())
        } else {
            let a = stack[len - 1];
            let b = stack[len - 2];
            let c = stack[len - 3];
            if len + 2 > capacity {
                (Err(VmError::ValidationException), stack.take(len - 3) + seq![b, a, c, b])
            } else {
                (Ok(()), stack.take(len - 3) + seq![b, a, c, b, a])
            }
        }
    }

    /// What `dup2_x2` gives on a stack with the given capacity. A full
    /// stack is left as it is; one with fewer than four entries is left
    /// empty; one with room for a single entry more is left one entry short
    /// of the result.
    pub open spec fn dup2_x2_outcome(stack: Seq<Value>, capacity: nat) -> (
        Result<(), VmError>,
        Seq<Value>,
    ) {
        let len = stack.len() as int;
        if len >= capacity {
            (Err(VmError::ValidationException), stack)
        } else if len < 4 {
            (Err(VmError::ValidationException), Seq::empty())
        } else {
            let a = stack[len - 1];
            let b = stack[len - 2];
            let c = stack[len - 3];
            let d = stack[len - 4];
            if len + 2 > capacity {
                (Err(VmError::ValidationException), stack.take(len - 4) + seq![b, a, d, c, b])
            } else {
                (Ok(()), stack.take(len - 4) + seq![b, a, d, c, b, a])
            }
        }
    }

    /// What `swap` gives on a stack. One with fewer than two entries is
    /// left empty.
    pub open spec fn swap_outcome(stack: Seq<Value>) -> (Result<(), VmError>, Seq<Value>) {
        let len = stack.len() as int;
        if len < 2 {
            (Err(VmError::ValidationException), Seq::empty())
        } else {
            let a = stack[len - 1];
            let b = stack[len - 2];
            (Ok(()), stack.take(len - 2) + seq![a, b])
        }
    }

    /// An empty stack that holds up to `max_size` entries. Storage is
    /// taken as the stack grows, not ahead of it.
    pub fn with_max_size(max_size: usize) -> (result: Self)
        ensures
            result.wf(),
            result@ == Seq::<Value>::empty(),
            result.capacity() == max_size,
    {
        Self { stack: Vec::new(), max_size }
    }

    pub fn len(&self) -> (result: usize)
        ensures
            result == self@.len(),
    {
        self.stack.len()
    }

    pub fn push(&mut self, value: Value) -> (result: Result<(), VmError>)
        requires
            old(self).wf(),
        ensures
            final(self).wf(),
            final(self).capacity() == old(self).capacity(),
            old(self)@.len() < old(self).capacity() ==> result == Ok::<(), VmError>(())
                && final(self)@ == old(self)@.push(value),
            old(self)@.len() >= old(self).capacity() ==> result == Err::<(), VmError>(
                VmError::ValidationException,
            ) && final(self)@ == old(self)@,
    {
        if self.stack.len() < self.max_size {
            self.stack.push(value);
            Ok(())
        } else {
            Err(VmError::ValidationException)
        }
    }

    pub fn pop(&mut self) -> (result: Result<Value, VmError>)
        requires
            old(self).wf(),
        ensures
            final(self).wf(),
            final(self).capacity() == old(self).capacity(),
            old(self)@.len() > 0 ==> result == Ok::<Value, VmError>(old(self)@.last())
                && final(self)@ == old(self)@.drop_last(),
            old(self)@.len() == 0 ==> result == Err::<Value, VmError>(VmError::ValidationException)
                && final(self)@ == old(self)@,
    {
        match self.stack.pop() {
            Some(value) => Ok(value),
            None => Err(VmError::ValidationException),
        }
    }

    /// Pops one entry if the top is a wide value, two entries otherwise,
    /// and returns the entry that was on top. When the top is not wide and
    /// nothing lies below it, the call fails after the top was popped.
    pub fn pop2(&mut self) -> (result: Result<Value, VmError>)
        requires
            old(self).wf(),
        ensures
            final(self).wf(),
            final(self).capacity() == old(self).capacity(),
            result == Self::pop2_outcome(old(self)@).0,
            final(self)@ == Self::pop2_outcome(old(self)@).1,
    {
        let value = self.pop()?;
        match value {
            Value::Long(_) | Value::Double(_) => Ok(value),
            _ => match self.pop() {
                Ok(_) => {
                    assert(self@ =~= old(self)@.take(old(self)@.len() - 2));
                    Ok(value)
                },
                Err(error) => Err(error),
            },
        }
    }

    /// Drops the entries above the lowest `len`. A stack of at most `len`
    /// entries is left as it is.
    pub fn truncate(&mut self, len: usize) -> (result: Result<(), VmError>)
        requires
            old(self).wf(),
        ensures
            final(self).wf(),
            final(self).capacity() == old(self).capacity(),
            len > old(self).capacity() ==> result == Err::<(), VmError>(VmError::ValidationException)
                && final(self)@ == old(self)@,
            len <= old(self).capacity() ==> result == Ok::<(), VmError>(()) && final(self)@ == if len
                < old(self)@.len() {
                old(self)@.take(len as int)
            } else {
                old(self)@
            },
    {
        if len > self.max_size {
            Err(VmError::ValidationException)
        } else {
            self.stack.truncate(len);
            assert(self.stack@ =~= if len < old(self)@.len() {
                old(self)@.take(len as int)
            } else {
                old(self)@
            });
            Ok(())
        }
    }

    pub fn get(&self, index: usize) -> (result: Option<&Value>)
        ensures
            index < self@.len() ==> result == Some(&self@[index as int]),
            index >= self@.len() ==> result is None,
    {
        if index < self.stack.len() {
            Some(&self.stack[index])
        } else {
            None
        }
    }

    /// Iterates over the entries, bottom first.
    pub fn iter(&self) -> (result: std::slice::Iter<'_, Value>)
        ensures
            vstd::std_specs::slice::into_iter_elts(result) == self@,
    {
        let entries = self.stack.as_slice();
        let result = entries.iter();
        proof {
            vstd::std_specs::slice::axiom_spec_slice_iter(entries);
        }
        result
    }

    /// `[.., a] -> [.., a, a]`
    pub fn dup(&mut self) -> (result: Result<(), VmError>)
        requires
            old(self).wf(),
        ensures
            final(self).wf(),
            final(self).capacity() == old(self).capacity(),
            result == Self::dup_outcome(old(self)@, old(self).capacity()).0,
            final(self)@ == Self::dup_outcome(old(self)@, old(self).capacity()).1,
    {
        if self.stack.len() < self.max_size {
            let len = self.stack.len();
            if len == 0 {
                Err(VmError::ValidationException)
            } else {
                let head = self.stack[len - 1];
                self.stack.push(head);
                Ok(())
            }
        } else {
            Err(VmError::ValidationException)
        }
    }

    /// `[.., b, a] -> [.., a, b, a]`
    pub fn dup_x1(&mut self) -> (result: Result<(), VmError>)
        requires
            old(self).wf(),
        ensures
            final(self).wf(),
            final(self).capacity() == old(self).capacity(),
            result == Self::dup_x1_outcome(old(self)@, old(self).capacity()).0,
            final(self)@ == Self::dup_x1_outcome(old(self)@, old(self).capacity()).1,
    {
        if self.stack.len() < self.max_size {
            let value1 = self.pop()?;
            let value2 = self.pop()?;
            self.push(value1)?;
            self.push(value2)?;
            let result = self.push(value1);
            assert(self@ =~= old(self)@.take(old(self)@.len() - 2) + seq![value1, value2, value1]);
            result
        } else {
            Err(VmError::ValidationException)
        }
    }

    /// `[.., c, b, a] -> [.., a, c, b, a]`
    pub fn dup_x2(&mut self) -> (result: Result<(), VmError>)
        requires
            old(self).wf(),
        ensures
            final(self).wf(),
            final(self).capacity() == old(self).capacity(),
            result == Self::dup_x2_outcome(old(self)@, old(self).capacity()).0,
            final(self)@ == Self::dup_x2_outcome(old(self)@, old(self).capacity()).1,
    {
        if self.stack.len() < self.max_size {
            let value1 = self.pop()?;
            let value2 = self.pop()?;
            let value3 = self.pop()?;
            self.push(value1)?;
            self.push(value3)?;
            self.push(value2)?;
            let result = self.push(value1);
            assert(self@ =~= old(self)@.take(old(self)@.len() - 3) + seq![
                value1,
                value3,
                value2,
                value1,
            ]);
            result
        } else {
            Err(VmError::ValidationException)
        }
    }

    /// `[.., b, a] -> [.., b, a, b, a]`
    pub fn dup2(&mut self) -> (result: Result<(), VmError>)
        requires
            old(self).wf(),
        ensures
            final(self).wf(),
            final(self).capacity() == old(self).capacity(),
            result == Self::dup2_outcome(old(self)@, old(self).capacity()).0,
            final(self)@ == Self::dup2_outcome(old(self)@, old(self).capacity()).1,
    {
        if self.stack.len() < self.max_size {
            let value1 = self.pop()?;
            let value2 = self.pop()?;
            self.push(value2)?;
            self.push(value1)?;
            self.push(value2)?;
            assert(self@ =~= old(self)@.take(old(self)@.len() - 2) + seq![value2, value1, value2]);
            let result = self.push(value1);
            assert(result is Ok ==> self@ =~= old(self)@.take(old(self)@.len() - 2) + seq![
                value2,
                value1,
                value2,
                value1,
            ]);
            result
        } else {
            Err(VmError::ValidationException)
        }
    }

    /// `[.., c, b, a] -> [.., b, a, c, b, a]`
    pub fn dup2_x1(&mut self) -> (result: Result<(), VmError>)
        requires
            old(self).wf(),
        ensures
            final(self).wf(),
            final(self).capacity() == old(self).capacity(),
            result == Self::dup2_x1_outcome(old(self)@, old(self).capacity()).0,
            final(self)@ == Self::dup2_x1_outcome(old(self)@, old(self).capacity()).1,
    {
        if self.stack.len() < self.max_size {
            let value1 = self.pop()?;
            let value2 = self.pop()?;
            let value3 = self.pop()?;
            self.push(value2)?;
            self.push(value1)?;
            self.push(value3)?;
            self.push(value2)?;
            assert(self@ =~= old(self)@.take(old(self)@.len() - 3) + seq![
                value2,
                value1,
                value3,
                value2,
            ]);
            let result = self.push(value1);
            assert(result is Ok ==> self@ =~= old(self)@.take(old(self)@.len() - 3) + seq![
                value2,
                value1,
                value3,
                value2,
                value1,
            ]);
            result
        } else {
            Err(VmError::ValidationException)
        }
    }

    /// `[.., d, c, b, a] -> [.., b, a, d, c, b, a]`
    pub fn dup2_x2(&mut self) -> (result: Result<(), VmError>)
        requires
            old(self).wf(),
        ensures
            final(self).wf(),
            final(self).capacity() == old(self).capacity(),
            result == Self::dup2_x2_outcome(old(self)@, old(self).capacity()).0,
            final(self)@ == Self::dup2_x2_outcome(old(self)@, old(self).capacity()).1,
    {
        if self.stack.len() < self.max_size {
            let value1 = self.pop()?;
            let value2 = self.pop()?;
            let value3 = self.pop()?;
            let value4 = self.pop()?;
            self.push(value2)?;
            self.push(value1)?;
            self.push(value4)?;
            self.push(value3)?;
            self.push(value2)?;
            assert(self@ =~= old(self)@.take(old(self)@.len() - 4) + seq![
                value2,
                value1,
                value4,
                value3,
                value2,
            ]);
            let result = self.push(value1);
            assert(result is Ok ==> self@ =~= old(self)@.take(old(self)@.len() - 4) + seq![
                value2,
                value1,
                value4,
                value3,
                value2,
                value1,
            ]);
            result
        } else {
            Err(VmError::ValidationException)
        }
    }

    /// `[.., b, a] -> [.., a, b]`
    pub fn swap(&mut self) -> (result: Result<(), VmError>)
        requires
            old(self).wf(),
        ensures
            final(self).wf(),
            final(self).capacity() == old(self).capacity(),
            result == Self::swap_outcome(old(self)@).0,
            final(self)@ == Self::swap_outcome(old(self)@).1,
    {
        let value1 = self.pop()?;
        let value2 = self.pop()?;
        self.push(value1)?;
        let result = self.push(value2);
        assert(self@ =~= old(self)@.take(old(self)@.len() - 2) + seq![value1, value2]);
        result
    }
}

} // verus!
