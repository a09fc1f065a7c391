use vstd::prelude::*;
use crate::array::{
    code_units_of, header_of, item_of, length_of, lemma_header, lemma_store,
    lemma_store_keeps_others, lemma_store_then_read, store, tag_of, well_formed, Array, HEADER_LEN,
    SLOT_LEN,
};
use crate::array_entry_type::{ArrayEntryType, BaseType};
use crate::class::Class;
use crate::object::{zeroed_fields, Object, ObjectView};
use crate::value::{ArrayRef, ObjectRef, Value};
use crate::vm_error::VmError;

verus! {

/// Owner of every object and array of the machine. Storage is handed out
/// and never taken back: nothing is collected. The object or array with
/// address `n` is the `n`-th that was allocated.
#[derive(Debug)]
pub struct ObjectAllocator {
    objects: Vec<Object>,
    arrays: Vec<Array>,
}

/// The storage of a new array: its header, then `length` slots of zero
/// bytes.
pub open spec fn zeroed_storage(elements_type: ArrayEntryType, length: u32) -> Seq<u8> {
    header_of(length, elements_type) + Seq::new((SLOT_LEN * length) as nat, |at: int| 0u8)
}

/// The storage of an array of chars for the given code units, after the
/// first `count` of them were stored in it: zeroed at first, then one unit
/// after the other stored as a 32-bit integral value.
pub open spec fn char_storage(units: Seq<u16>, count: nat) -> Seq<u8>
    decreases count,
{
    if count == 0 {
        zeroed_storage(ArrayEntryType::Base(BaseType::Char), units.len() as u32)
    } else {
        store(
            char_storage(units, (count - 1) as nat),
            count - 1,
            Value::Int(units[count - 1] as i32),
        )
    }
}

/// The storage of an array of chars is well formed, counts one element for
/// each code unit, and holds in its first `count` elements the first
/// `count` code units.
pub proof fn lemma_char_storage(units: Seq<u16>, count: nat)
    requires
        count <= units.len() <= u32::MAX,
    ensures
        well_formed(char_storage(units, count)),
        length_of(char_storage(units, count)) == units.len(),
        tag_of(char_storage(units, count)) == Some(ArrayEntryType::Base(BaseType::Char)),
        forall|at: int|
            0 <= at < count ==> #[trigger] item_of(char_storage(units, count), at) == Value::Int(
                units[at] as i32,
            ),
    decreases count,
{
    if count == 0 {
        lemma_header(
            units.len() as u32,
            ArrayEntryType::Base(BaseType::Char),
            Seq::new((SLOT_LEN * (units.len() as u32)) as nat, |at: int| 0u8),
        );
    } else {
        let before = char_storage(units, (count - 1) as nat);
        let value = Value::Int(units[count - 1] as i32);
        lemma_char_storage(units, (count - 1) as nat);
        lemma_store(before, count - 1, value);
        lemma_store_then_read(before, count - 1, value);
        assert forall|at: int| 0 <= at < count implies #[trigger] item_of(
            char_storage(units, count),
            at,
        ) == Value::Int(units[at] as i32) by {
            if at < count - 1 {
                lemma_store_keeps_others(before, count - 1, value, at);
            }
        }
    }
}

/// The code units of an array of chars that was filled with code units are
/// those code units.
pub proof fn lemma_char_storage_units(units: Seq<u16>)
    requires
        units.len() <= u32::MAX,
    ensures
        code_units_of(char_storage(units, units.len())) == units,
{
    lemma_char_storage(units, units.len());
    assert(code_units_of(char_storage(units, units.len())) =~= units);
}

impl ObjectAllocator {
    /// The objects, in the order of their allocation.
    pub closed spec fn objects(&self) -> Seq<ObjectView> {
        self.objects@.map_values(|object: Object| object@)
    }

    /// The storage of each array, in the order of their allocation.
    pub closed spec fn arrays(&self) -> Seq<Seq<u8>> {
        self.arrays@.map_values(|array: Array| array@)
    }

    /// Every array is well formed and known under the address of its
    /// position.
    pub closed spec fn wf(&self) -> bool {
        forall|at: int|
            0 <= at < self.arrays@.len() ==> (#[trigger] self.arrays@[at]).wf()
                && self.arrays@[at].identity().address == at + 1
    }

    /// The object that a handle denotes, if it denotes one.
    pub open spec fn object_at(&self, object: ObjectRef) -> Option<ObjectView> {
        if 1 <= object.address <= self.objects().len() {
            Some(self.objects()[object.address - 1])
        } else {
            None
        }
    }

    /// The storage of the array that a handle denotes, if it denotes one.
    pub open spec fn array_at(&self, array: ArrayRef) -> Option<Seq<u8>> {
        if 1 <= array.address <= self.arrays().len() {
            Some(self.arrays()[array.address - 1])
        } else {
            None
        }
    }

    pub fn new() -> (result: ObjectAllocator)
        ensures
            result.wf(),
            result.objects() == Seq::<ObjectView>::empty(),
            result.arrays() == Seq::<Seq<u8>>::empty(),
    {
        ObjectAllocator { objects: Vec::new(), arrays: Vec::new() }
    }

    /// The numbers of objects and of arrays allocated so far.
    pub fn counts(&self) -> (result: (usize, usize))
        ensures
            result.0 == self.objects().len(),
            result.1 == self.arrays().len(),
    {
        (self.objects.len(), self.arrays.len())
    }

    /// Allocates an instance of `class`, every field holding the zero of
    /// its type.
    pub fn allocate(&mut self, class: &Class) -> (result: ObjectRef)
        requires
            old(self).wf(),
            old(self).objects().len() < usize::MAX,
        ensures
            final(self).wf(),
            result.address == old(self).objects().len() + 1,
            final(self).objects() == old(self).objects().push(
                ObjectView { class_id: class@.id, fields: zeroed_fields(class@.fields) },
            ),
            final(self).arrays() == old(self).arrays(),
    {
        let object = Object::new(class);
        self.objects.push(object);
        assert(self.objects() =~= old(self).objects().push(
            ObjectView { class_id: class@.id, fields: zeroed_fields(class@.fields) },
        ));
        ObjectRef { address: self.objects.len() as u64 }
    }

    /// Allocates an array of `length` elements of type `elements_type`,
    /// every slot zeroed. Fails, changing nothing, when the length does not
    /// fit the header or the storage would exceed the address space.
    pub fn allocate_array(&mut self, elements_type: ArrayEntryType, length: usize) -> (result: Result<
        ArrayRef,
        VmError,
    >)
        requires
            old(self).wf(),
            old(self).arrays().len() < usize::MAX,
        ensures
            final(self).wf(),
            final(self).objects() == old(self).objects(),
            match result {
                Ok(array) => length <= u32::MAX && HEADER_LEN + SLOT_LEN * length <= usize::MAX
                    && array.address == old(self).arrays().len() + 1 && final(self).arrays() == old(self).arrays().push(zeroed_storage(elements_type, length as u32)),
                Err(error) => error == VmError::ValidationException && !(length <= u32::MAX
                    && HEADER_LEN + SLOT_LEN * length <= usize::MAX) && final(self).arrays() == old(self).arrays(),
            },
    {
        if length > u32::MAX as usize || length > (usize::MAX - HEADER_LEN) / SLOT_LEN {
            return Err(VmError::ValidationException);
        }
        let size = Array::size(length);
        let storage: Vec<u8> = vec![0u8; size];
        let ptr = ArrayRef { address: (self.arrays.len() + 1) as u64 };
        let array = Array::new(elements_type, length, ptr, storage);
        assert(array@ =~= zeroed_storage(elements_type, length as u32));
        self.arrays.push(array);
        assert(self.arrays() =~= old(self).arrays().push(zeroed_storage(elements_type, length as u32)));
        Ok(ptr)
    }

    /// The object that a handle denotes.
    pub fn get_object(&self, object: ObjectRef) -> (result: Option<&Object>)
        ensures
            match result {
                Some(found) => self.object_at(object) == Some(found@),
                None => self.object_at(object) is None,
            },
    {
        if object.address >= 1 && object.address <= self.objects.len() as u64 {
            Some(&self.objects[(object.address - 1) as usize])
        } else {
            None
        }
    }

    /// The array that a handle denotes.
    pub fn get_array(&self, array: ArrayRef) -> (result: Option<&Array>)
        requires
            self.wf(),
        ensures
            match result {
                Some(found) => self.array_at(array) == Some(found@) && found.wf()
                    && found.identity() == array,
                None => self.array_at(array) is None,
            },
    {
        if array.address >= 1 && array.address <= self.arrays.len() as u64 {
            Some(&self.arrays[(array.address - 1) as usize])
        } else {
            None
        }
    }

    /// Sets a field of the object that a handle denotes. Fails, changing
    /// nothing, when the handle denotes no object or the object has no such
    /// field.
    pub fn set_field(&mut self, object: ObjectRef, index: usize, value: Value) -> (result: Result<
        (),
        VmError,
    >)
        requires
            old(self).wf(),
        ensures
            final(self).wf(),
            final(self).arrays() == old(self).arrays(),
            match result {
                Ok(_) => old(self).object_at(object) matches Some(before) && index
                    < before.fields.len() && final(self).objects() == old(self).objects().update(
                    object.address - 1,
                    ObjectView {
                        class_id: before.class_id,
                        fields: before.fields.update(index as int, value),
                    },
                ),
                Err(error) => error == VmError::ValidationException && !(old(self).object_at(
                    object,
                ) matches Some(before) && index < before.fields.len()) && final(self).objects()
                    == old(self).objects(),
            },
    {
        if object.address >= 1 && object.address <= self.objects.len() as u64 {
            let at = (object.address - 1) as usize;
            let result = self.objects[at].set_field(index, value);
            proof {
                if result is Ok {
                    assert(self.objects() =~= old(self).objects().update(
                        at as int,
                        ObjectView {
                            class_id: old(self).objects()[at as int].class_id,
                            fields: old(self).objects()[at as int].fields.update(index as int, value),
                        },
                    ));
                } else {
                    assert(self.objects() =~= old(self).objects());
                }
            }
            result
        } else {
            Err(VmError::ValidationException)
        }
    }

    /// Stores a value in an element of the array that a handle denotes, as
    /// `Array::set_item_at` does. Fails with a validation error, changing
    /// nothing, when the handle denotes no array.
    pub fn set_array_item(&mut self, array: ArrayRef, index: usize, value: Value) -> (result: Result<
        (),
        VmError,
    >)
        requires
            old(self).wf(),
        ensures
            final(self).wf(),
            final(self).objects() == old(self).objects(),
            final(self).arrays().len() == old(self).arrays().len(),
            forall|other: int|
                0 <= other < old(self).arrays().len() && other != array.address - 1
                    ==> final(self).arrays()[other] == old(self).arrays()[other],
            old(self).array_at(array) is None ==> result == Err::<(), VmError>(
                VmError::ValidationException,
            ) && final(self).arrays() == old(self).arrays(),
            old(self).array_at(array) matches Some(storage) ==> {
                &&& final(self).array_at(array) is Some
                &&& index >= length_of(storage) ==> result == Err::<(), VmError>(
                    VmError::ArrayIndexOutOfBoundsException,
                ) && final(self).array_at(array) == Some(storage)
                &&& index < length_of(storage) && !crate::array::accepts(tag_of(storage)->0, value)
                    ==> result == Err::<(), VmError>(VmError::ValidationException)
                    && final(self).array_at(array) == Some(storage)
                &&& index < length_of(storage) && crate::array::accepts(tag_of(storage)->0, value)
                    ==> result == Ok::<(), VmError>(()) && final(self).array_at(array) == Some(
                    crate::array::store(storage, index as int, value),
                )
            },
    {
        if array.address >= 1 && array.address <= self.arrays.len() as u64 {
            let at = (array.address - 1) as usize;
            assert(self.arrays@[at as int].wf());
            let result = self.arrays[at].set_item_at(index, value);
            assert(forall|other: int|
                0 <= other < self.arrays@.len() && other != at ==> self.arrays@[other] == old(self).arrays@[other]);
            result
        } else {
            Err(VmError::ValidationException)
        }
    }

    /// Allocates an array of chars that holds the given code units. Fails,
    /// changing nothing, when the units do not fit an array.
    pub fn allocate_char_array(&mut self, units: &Vec<u16>) -> (result: Result<ArrayRef, VmError>)
        requires
            old(self).wf(),
            old(self).arrays().len() < usize::MAX,
        ensures
            final(self).wf(),
            final(self).objects() == old(self).objects(),
            match result {
                Ok(array) => units@.len() <= u32::MAX && HEADER_LEN + SLOT_LEN * units@.len()
                    <= usize::MAX && array.address == old(self).arrays().len() + 1
                    && final(self).arrays() == old(self).arrays().push(
                    char_storage(units@, units@.len()),
                ),
                Err(error) => error == VmError::ValidationException && !(units@.len() <= u32::MAX
                    && HEADER_LEN + SLOT_LEN * units@.len() <= usize::MAX) && final(self).arrays() == old(self).arrays(),
            },
    {
        let array = match self.allocate_array(
            ArrayEntryType::Base(BaseType::Char),
            units.len(),
        ) {
            Ok(array) => array,
            Err(error) => {
                return Err(error);
            },
        };
        let ghost before = old(self).arrays();
        let mut index: usize = 0;
        while index < units.len()
            invariant
                index <= units.len(),
                units@.len() <= u32::MAX,
                array.address == before.len() + 1,
                self.wf(),
                self.objects() == old(self).objects(),
                self.arrays() == before.push(char_storage(units@, index as nat)),
            decreases units.len() - index,
        {
            proof {
                lemma_char_storage(units@, index as nat);
            }
            let ghost current = self.arrays();
            let _ = self.set_array_item(array, index, Value::Int(units[index] as i32));
            assert(self.arrays() =~= before.push(char_storage(units@, (index + 1) as nat)))
                by {
                assert(self.arrays().len() == current.len());
                assert forall|other: int| 0 <= other < before.len() implies self.arrays()[other]
                    == before[other] by {
                    assert(current[other] == before[other]);
                }
            }
            index = index + 1;
        }
        Ok(array)
    }
}

} // verus!
