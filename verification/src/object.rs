use vstd::prelude::*;
use crate::class::{Class, ClassId, FieldType};
use crate::value::Value;
use crate::vm_error::VmError;

verus! {

/// An instance of a class: the class and one value per field.
#[derive(Debug)]
pub struct Object {
    class_id: ClassId,
    fields: Vec<Value>,
}

/// What an instance is: its class and the values of its fields.
pub struct ObjectView {
    pub class_id: ClassId,
    pub fields: Seq<Value>,
}

impl View for Object {
    type V = ObjectView;

    closed spec fn view(&self) -> ObjectView {
        ObjectView { class_id: self.class_id, fields: self.fields@ }
    }
}

/// The fields of a new instance: the zero of each field's type.
pub open spec fn zeroed_fields(fields: Seq<FieldType>) -> Seq<Value> {
    Seq::new(fields.len(), |index: int| fields[index].zero())
}

impl Object {
    /// A new instance of `class`, every field holding the zero of its
    /// type. No constructor logic is run.
    pub fn new(class: &Class) -> (result: Object)
        ensures
            result@.class_id == class@.id,
            result@.fields == zeroed_fields(class@.fields),
    {
        let mut fields: Vec<Value> = Vec::with_capacity(class.fields.len());
        let mut index: usize = 0;
        while index < class.fields.len()
            invariant
                index <= class.fields.len(),
                fields@.len() == index,
                forall|at: int| 0 <= at < index ==> fields@[at] == class.fields@[at].zero(),
            decreases class.fields.len() - index,
        {
            fields.push(class.fields[index].zero_value());
            index = index + 1;
        }
        assert(fields@ =~= zeroed_fields(class@.fields));
        Object { class_id: class.id, fields }
    }

    pub fn class_id(&self) -> (result: ClassId)
        ensures
            result == self@.class_id,
    {
        self.class_id
    }

    /// The value of the field at `index`, if the instance has such a field.
    pub fn get_field(&self, index: usize) -> (result: Option<Value>)
        ensures
            index < self@.fields.len() ==> result == Some(self@.fields[index as int]),
            index >= self@.fields.len() ==> result is None,
    {
        if index < self.fields.len() {
            Some(self.fields[index])
        } else {
            None
        }
    }

    /// Sets the field at `index`. An instance without such a field is left
    /// as it is.
    pub fn set_field(&mut self, index: usize, value: Value) -> (result: Result<(), VmError>)
        ensures
            final(self)@.class_id == old(self)@.class_id,
            index < old(self)@.fields.len() ==> result == Ok::<(), VmError>(())
                && final(self)@.fields == old(self)@.fields.update(index as int, value),
            index >= old(self)@.fields.len() ==> result == Err::<(), VmError>(
                VmError::ValidationException,
            ) && final(self)@ == old(self)@,
    {
        if index < self.fields.len() {
            self.fields.set(index, value);
            Ok(())
        } else {
            Err(VmError::ValidationException)
        }
    }
}

} // verus!
