use vstd::prelude::*;
use vstd::bytes::{
    lemma_auto_spec_u32_to_from_le_bytes, lemma_auto_spec_u64_to_from_le_bytes,
    spec_u32_from_le_bytes, spec_u32_to_le_bytes, spec_u64_from_le_bytes, spec_u64_to_le_bytes,
    u32_from_le_bytes, u32_to_le_bytes, u64_from_le_bytes, u64_to_le_bytes,
};
use vstd::slice::slice_subrange;
use crate::array_entry_type::{ArrayEntryType, BaseType};
use crate::class::ClassId;
use crate::value::{ArrayRef, ObjectRef, Value};
use crate::vm_error::VmError;

verus! {

// Storage layout of an array:
//   4 bytes with the length,
//   8 bytes with the element-type tag,
//   then one slot of 8 bytes per element, whatever the element's width.
// All numbers are little-endian.

/// Number of bytes that precede the first element slot.
pub const HEADER_LEN: usize = 12;

/// Number of bytes of one element slot.
pub const SLOT_LEN: usize = 8;

/// The number that stands for a primitive kind in an element-type tag.
pub open spec fn base_code(base: BaseType) -> u64 {
    match base {
        BaseType::Boolean => 4,
        BaseType::Char => 5,
        BaseType::Float => 6,
        BaseType::Double => 7,
        BaseType::Byte => 8,
        BaseType::Short => 9,
        BaseType::Int => 10,
        BaseType::Long => 11,
    }
}

/// The 64-bit word that holds an element-type tag: the kind in the low half
/// and, for object references, the component class in the high half.
pub open spec fn tag_word(elements_type: ArrayEntryType) -> u64 {
    match elements_type {
        ArrayEntryType::Base(base) => base_code(base),
        ArrayEntryType::Object(class_id) => (1 + class_id.0 * 0x1_0000_0000) as u64,
        ArrayEntryType::Array => 2,
    }
}

/// The element-type tag that a 64-bit word holds, if it holds one.
pub open spec fn word_tag(word: u64) -> Option<ArrayEntryType> {
    let kind = word % 0x1_0000_0000;
    let class = word / 0x1_0000_0000;
    if kind == 1 {
        Some(ArrayEntryType::Object(ClassId(class as u32)))
    } else if class != 0 {
        None
    } else if kind == 2 {
        Some(ArrayEntryType::Array)
    } else if kind == 4 {
        Some(ArrayEntryType::Base(BaseType::Boolean))
    } else if kind == 5 {
        Some(ArrayEntryType::Base(BaseType::Char))
    } else if kind == 6 {
        Some(ArrayEntryType::Base(BaseType::Float))
    } else if kind == 7 {
        Some(ArrayEntryType::Base(BaseType::Double))
    } else if kind == 8 {
        Some(ArrayEntryType::Base(BaseType::Byte))
    } else if kind == 9 {
        Some(ArrayEntryType::Base(BaseType::Short))
    } else if kind == 10 {
        Some(ArrayEntryType::Base(BaseType::Int))
    } else if kind == 11 {
        Some(ArrayEntryType::Base(BaseType::Long))
    } else {
        None
    }
}

/// Every element-type tag is read back from the word that holds it.
pub proof fn lemma_tag_round_trip(elements_type: ArrayEntryType)
    ensures
        word_tag(tag_word(elements_type)) == Some(elements_type),
{
}

/// Whether a slot of an array with the given element type can hold `value`:
/// the value's variant is the one the element type calls for. Null is a
/// value of reference slots only, and a reference with address zero is no
/// value of any slot.
pub open spec fn accepts(elements_type: ArrayEntryType, value: Value) -> bool {
    match elements_type {
        ArrayEntryType::Base(base) => match base {
            BaseType::Long => value is Long,
            BaseType::Float => value is Float,
            BaseType::Double => value is Double,
            _ => value is Int,
        },
        ArrayEntryType::Object(_) => value is Null || (value matches Value::Object(object)
            && object.address != 0),
        ArrayEntryType::Array => value is Null || (value matches Value::Array(array)
            && array.address != 0),
    }
}

/// The 64-bit word that a slot holds for `value`. Values of 32 bits fill the
/// low half; the null reference is the all-zero word.
pub open spec fn value_word(value: Value) -> u64 {
    match value {
        Value::Int(number) => (number as u32) as u64,
        Value::Long(number) => number as u64,
        Value::Float(bits) => bits as u64,
        Value::Double(bits) => bits,
        Value::Object(object) => object.address,
        Value::Array(array) => array.address,
        Value::Null => 0,
    }
}

/// The value that a slot's 64-bit word stands for in an array with the given
/// element type.
pub open spec fn word_value(elements_type: ArrayEntryType, word: u64) -> Value {
    match elements_type {
        ArrayEntryType::Base(base) => match base {
            BaseType::Long => Value::Long(word as i64),
            BaseType::Float => Value::Float(word as u32),
            BaseType::Double => Value::Double(word),
            _ => Value::Int((word as u32) as i32),
        },
        ArrayEntryType::Object(_) => if word == 0 {
            Value::Null
        } else {
            Value::Object(ObjectRef { address: word })
        },
        ArrayEntryType::Array => if word == 0 {
            Value::Null
        } else {
            Value::Array(ArrayRef { address: word })
        },
    }
}

/// A value that a slot accepts is read back from the word that holds it.
pub proof fn lemma_value_round_trip(elements_type: ArrayEntryType, value: Value)
    requires
        accepts(elements_type, value),
    ensures
        word_value(elements_type, value_word(value)) == value,
{
    match value {
        Value::Int(number) => {
            assert((((number as u32) as u64) as u32) as i32 == number) by (bit_vector);
        },
        Value::Long(number) => {
            assert((number as u64) as i64 == number) by (bit_vector);
        },
        Value::Float(bits) => {
            assert((bits as u64) as u32 == bits) by (bit_vector);
        },
        _ => {},
    }
}

/// The word that holds an element-type tag.
fn encode_tag(elements_type: ArrayEntryType) -> (word: u64)
    ensures
        word == tag_word(elements_type),
{
    match elements_type {
        ArrayEntryType::Base(BaseType::Boolean) => 4,
        ArrayEntryType::Base(BaseType::Char) => 5,
        ArrayEntryType::Base(BaseType::Float) => 6,
        ArrayEntryType::Base(BaseType::Double) => 7,
        ArrayEntryType::Base(BaseType::Byte) => 8,
        ArrayEntryType::Base(BaseType::Short) => 9,
        ArrayEntryType::Base(BaseType::Int) => 10,
        ArrayEntryType::Base(BaseType::Long) => 11,
        ArrayEntryType::Object(class_id) => 1 + (class_id.0 as u64) * 0x1_0000_0000,
        ArrayEntryType::Array => 2,
    }
}

/// The element-type tag that a word holds, if any.
fn decode_tag(word: u64) -> (elements_type: Option<ArrayEntryType>)
    ensures
        elements_type == word_tag(word),
{
    let kind: u64 = word % 0x1_0000_0000;
    let class: u64 = word / 0x1_0000_0000;
    if kind == 1 {
        Some(ArrayEntryType::Object(ClassId(class as u32)))
    } else if class != 0 {
        None
    } else if kind == 2 {
        Some(ArrayEntryType::Array)
    } else if kind == 4 {
        Some(ArrayEntryType::Base(BaseType::Boolean))
    } else if kind == 5 {
        Some(ArrayEntryType::Base(BaseType::Char))
    } else if kind == 6 {
        Some(ArrayEntryType::Base(BaseType::Float))
    } else if kind == 7 {
        Some(ArrayEntryType::Base(BaseType::Double))
    } else if kind == 8 {
        Some(ArrayEntryType::Base(BaseType::Byte))
    } else if kind == 9 {
        Some(ArrayEntryType::Base(BaseType::Short))
    } else if kind == 10 {
        Some(ArrayEntryType::Base(BaseType::Int))
    } else if kind == 11 {
        Some(ArrayEntryType::Base(BaseType::Long))
    } else {
        None
    }
}

/// The word to store for `value` in a slot of the given element type, or
/// `None` if such a slot does not accept the value.
fn encode_value(elements_type: ArrayEntryType, value: Value) -> (word: Option<u64>)
    ensures
        accepts(elements_type, value) ==> word == Some(value_word(value)),
        !accepts(elements_type, value) ==> word is None,
{
    match elements_type {
        ArrayEntryType::Base(BaseType::Long) => match value {
            Value::Long(number) => Some(#[verifier::truncate] (number as u64)),
            _ => None,
        },
        ArrayEntryType::Base(BaseType::Float) => match value {
            Value::Float(bits) => Some(bits as u64),
            _ => None,
        },
        ArrayEntryType::Base(BaseType::Double) => match value {
            Value::Double(bits) => Some(bits),
            _ => None,
        },
        ArrayEntryType::Base(_) => match value {
            Value::Int(number) => Some((#[verifier::truncate] (number as u32)) as u64),
            _ => None,
        },
        ArrayEntryType::Object(_) => match value {
            Value::Object(object) => if object.address != 0 {
                Some(object.address)
            } else {
                None
            },
            Value::Null => Some(0),
            _ => None,
        },
        ArrayEntryType::Array => match value {
            Value::Array(array) => if array.address != 0 {
                Some(array.address)
            } else {
                None
            },
            Value::Null => Some(0),
            _ => None,
        },
    }
}

/// The value that a slot's word stands for.
fn decode_value(elements_type: ArrayEntryType, word: u64) -> (value: Value)
    ensures
        value == word_value(elements_type, word),
{
    match elements_type {
        ArrayEntryType::Base(BaseType::Long) => Value::Long(#[verifier::truncate] (word as i64)),
        ArrayEntryType::Base(BaseType::Float) => Value::Float(#[verifier::truncate] (word as u32)),
        ArrayEntryType::Base(BaseType::Double) => Value::Double(word),
        ArrayEntryType::Base(_) => Value::Int(
            #[verifier::truncate]
            ((#[verifier::truncate] (word as u32)) as i32),
        ),
        ArrayEntryType::Object(_) => if word == 0 {
            Value::Null
        } else {
            Value::Object(ObjectRef { address: word })
        },
        ArrayEntryType::Array => if word == 0 {
            Value::Null
        } else {
            Value::Array(ArrayRef { address: word })
        },
    }
}

/// The length that the header of `storage` records.
pub open spec fn length_of(storage: Seq<u8>) -> u32 {
    spec_u32_from_le_bytes(storage.subrange(0, 4))
}

/// The element type that the header of `storage` records, if the tag's
/// bytes hold one.
pub open spec fn tag_of(storage: Seq<u8>) -> Option<ArrayEntryType> {
    word_tag(spec_u64_from_le_bytes(storage.subrange(4, HEADER_LEN as int)))
}

/// Storage is well formed when its header is followed by exactly one slot
/// for each element that the header counts, and the header's tag is an
/// element type.
pub open spec fn well_formed(storage: Seq<u8>) -> bool {
    &&& storage.len() == HEADER_LEN + SLOT_LEN * length_of(storage)
    &&& tag_of(storage) is Some
}

/// The bytes of the slot of the element at `index`.
pub open spec fn slot_of(storage: Seq<u8>, index: int) -> Seq<u8> {
    storage.subrange(HEADER_LEN + SLOT_LEN * index, HEADER_LEN + SLOT_LEN * index + SLOT_LEN)
}

/// The element at `index`: its slot's bytes, read as the header's element
/// type says.
pub open spec fn item_of(storage: Seq<u8>, index: int) -> Value {
    word_value(tag_of(storage)->0, spec_u64_from_le_bytes(slot_of(storage, index)))
}

/// The header for an array of the given length and element type.
pub open spec fn header_of(length: u32, elements_type: ArrayEntryType) -> Seq<u8> {
    spec_u32_to_le_bytes(length) + spec_u64_to_le_bytes(tag_word(elements_type))
}

/// The storage after `value` was stored at `index`: the eight bytes of that
/// slot are replaced by the value's word, and no other byte changes.
pub open spec fn store(storage: Seq<u8>, index: int, value: Value) -> Seq<u8> {
    storage.subrange(0, HEADER_LEN + SLOT_LEN * index) + spec_u64_to_le_bytes(value_word(value))
        + storage.subrange(HEADER_LEN + SLOT_LEN * index + SLOT_LEN, storage.len() as int)
}

/// The low 16 bits of the element at `index` of an array of 32-bit
/// integral values.
pub open spec fn code_unit_of(storage: Seq<u8>, index: int) -> u16 {
    match item_of(storage, index) {
        Value::Int(number) => number as u16,
        _ => 0,
    }
}

/// Storage made of a header and of eight bytes for each element that the
/// header counts is well formed, and has the header's length and element
/// type.
pub proof fn lemma_header(length: u32, elements_type: ArrayEntryType, slots: Seq<u8>)
    requires
        slots.len() == SLOT_LEN * length,
    ensures
        well_formed(header_of(length, elements_type) + slots),
        length_of(header_of(length, elements_type) + slots) == length,
        tag_of(header_of(length, elements_type) + slots) == Some(elements_type),
{
    lemma_auto_spec_u32_to_from_le_bytes();
    lemma_auto_spec_u64_to_from_le_bytes();
    lemma_tag_round_trip(elements_type);
    let storage = header_of(length, elements_type) + slots;
    assert(storage.subrange(0, 4) =~= spec_u32_to_le_bytes(length));
    assert(storage.subrange(4, HEADER_LEN as int) =~= spec_u64_to_le_bytes(tag_word(elements_type)));
}

/// Storing a value changes neither the header nor any other slot, and the
/// slot written holds the value's word.
pub proof fn lemma_store(storage: Seq<u8>, index: int, value: Value)
    requires
        well_formed(storage),
        0 <= index < length_of(storage),
    ensures
        store(storage, index, value).len() == storage.len(),
        length_of(store(storage, index, value)) == length_of(storage),
        tag_of(store(storage, index, value)) == tag_of(storage),
        well_formed(store(storage, index, value)),
        slot_of(store(storage, index, value), index) == spec_u64_to_le_bytes(value_word(value)),
        forall|other: int|
            0 <= other < length_of(storage) && other != index ==> #[trigger] slot_of(
                store(storage, index, value),
                other,
            ) == slot_of(storage, other),
{
    lemma_auto_spec_u64_to_from_le_bytes();
    let stored = store(storage, index, value);
    assert(stored.subrange(0, 4) =~= storage.subrange(0, 4));
    assert(stored.subrange(4, HEADER_LEN as int) =~= storage.subrange(4, HEADER_LEN as int));
    assert(slot_of(stored, index) =~= spec_u64_to_le_bytes(value_word(value)));
    assert forall|other: int| 0 <= other < length_of(storage) && other != index implies #[trigger] slot_of(
        stored,
        other,
    ) == slot_of(storage, other) by {
        assert(slot_of(stored, other) =~= slot_of(storage, other));
    }
}

/// Reading an element back after storing a value that its slot accepts
/// gives that value.
pub proof fn lemma_store_then_read(storage: Seq<u8>, index: int, value: Value)
    requires
        well_formed(storage),
        0 <= index < length_of(storage),
        accepts(tag_of(storage)->0, value),
    ensures
        item_of(store(storage, index, value), index) == value,
{
    lemma_store(storage, index, value);
    lemma_auto_spec_u64_to_from_le_bytes();
    lemma_value_round_trip(tag_of(storage)->0, value);
}

/// Storing a value leaves every other element as it was.
pub proof fn lemma_store_keeps_others(storage: Seq<u8>, index: int, value: Value, other: int)
    requires
        well_formed(storage),
        0 <= index < length_of(storage),
        0 <= other < length_of(storage),
        other != index,
    ensures
        item_of(store(storage, index, value), other) == item_of(storage, other),
{
    lemma_store(storage, index, value);
}

/// Whether the elements of an array of the given type are 32-bit integral
/// values.
pub open spec fn holds_ints(elements_type: ArrayEntryType) -> bool {
    match elements_type {
        ArrayEntryType::Base(base) => base.is_int_like(),
        _ => false,
    }
}

/// The low 16 bits of every element, in index order.
pub open spec fn code_units_of(storage: Seq<u8>) -> Seq<u16> {
    Seq::new(length_of(storage) as nat, |index: int| code_unit_of(storage, index))
}

/// Whether the elements of an array of type `from` can be copied as they
/// are into an array of type `to`: both hold values of the same variant.
pub open spec fn compatible(from: ArrayEntryType, to: ArrayEntryType) -> bool {
    match (from, to) {
        (ArrayEntryType::Base(from_base), ArrayEntryType::Base(to_base)) => from_base == to_base || (
        from_base.is_int_like() && to_base.is_int_like()),
        (ArrayEntryType::Object(_), ArrayEntryType::Object(_)) => true,
        (ArrayEntryType::Array, ArrayEntryType::Array) => true,
        _ => false,
    }
}

/// The storage of the destination after `length` elements were copied into
/// it from position `from_pos` of `from`, starting at position `to_pos`:
/// the slots in that range hold the bytes of the source's slots, and no
/// other byte changes.
pub open spec fn copied(from: Seq<u8>, from_pos: int, to: Seq<u8>, to_pos: int, length: int) -> Seq<u8> {
    to.subrange(0, HEADER_LEN + SLOT_LEN * to_pos) + from.subrange(
        HEADER_LEN + SLOT_LEN * from_pos,
        HEADER_LEN + SLOT_LEN * (from_pos + length),
    ) + to.subrange(HEADER_LEN + SLOT_LEN * (to_pos + length), to.len() as int)
}

/// Copying keeps the destination's header, gives each slot in the range the
/// bytes of the matching slot of the source, and leaves the other slots as
/// they were. Between compatible arrays the elements copied read the same
/// in the destination as in the source.
pub proof fn lemma_copied(from: Seq<u8>, from_pos: int, to: Seq<u8>, to_pos: int, length: int)
    requires
        well_formed(from),
        well_formed(to),
        0 <= from_pos,
        0 <= to_pos,
        0 <= length,
        from_pos + length <= length_of(from),
        to_pos + length <= length_of(to),
    ensures
        copied(from, from_pos, to, to_pos, length).len() == to.len(),
        length_of(copied(from, from_pos, to, to_pos, length)) == length_of(to),
        tag_of(copied(from, from_pos, to, to_pos, length)) == tag_of(to),
        well_formed(copied(from, from_pos, to, to_pos, length)),
        forall|index: int|
            0 <= index < length ==> #[trigger] slot_of(
                copied(from, from_pos, to, to_pos, length),
                to_pos + index,
            ) == slot_of(from, from_pos + index),
        forall|index: int|
            0 <= index < length_of(to) && !(to_pos <= index < to_pos + length) ==> #[trigger] slot_of(
                copied(from, from_pos, to, to_pos, length),
                index,
            ) == slot_of(to, index),
        compatible(tag_of(from)->0, tag_of(to)->0) ==> forall|index: int|
            0 <= index < length ==> #[trigger] item_of(
                copied(from, from_pos, to, to_pos, length),
                to_pos + index,
            ) == item_of(from, from_pos + index),
{
    let result = copied(from, from_pos, to, to_pos, length);
    assert(result.subrange(0, 4) =~= to.subrange(0, 4));
    assert(result.subrange(4, HEADER_LEN as int) =~= to.subrange(4, HEADER_LEN as int));
    assert forall|index: int| 0 <= index < length implies #[trigger] slot_of(
        result,
        to_pos + index,
    ) == slot_of(from, from_pos + index) by {
        assert(slot_of(result, to_pos + index) =~= slot_of(from, from_pos + index));
    }
    assert forall|index: int|
        0 <= index < length_of(to) && !(to_pos <= index < to_pos + length) implies #[trigger] slot_of(
        result,
        index,
    ) == slot_of(to, index) by {
        assert(slot_of(result, index) =~= slot_of(to, index));
    }
}

/// A managed array: a fixed number of elements of one type, held in raw
/// storage that its allocator supplied.
#[derive(Debug)]
pub struct Array {
    reference: ArrayRef,
    data: Vec<u8>,
}

impl View for Array {
    type V = Seq<u8>;

    /// The array's storage: header and element slots.
    closed spec fn view(&self) -> Seq<u8> {
        self.data@
    }
}

impl Array {
    /// The handle under which the allocator knows this array.
    pub closed spec fn identity(&self) -> ArrayRef {
        self.reference
    }

    /// The array's storage is well formed and its handle is not null.
    pub open spec fn wf(&self) -> bool {
        &&& well_formed(self@)
        &&& self.identity().address != 0
    }

    /// The number of elements.
    pub open spec fn spec_len(&self) -> u32 {
        length_of(self@)
    }

    /// The element type.
    pub open spec fn elements_type(&self) -> ArrayEntryType {
        tag_of(self@)->0
    }

    /// The elements, in index order.
    pub open spec fn items(&self) -> Seq<Value> {
        Seq::new(self.spec_len() as nat, |index: int| item_of(self@, index))
    }

    /// The number of bytes of storage that an array of `length` elements
    /// takes.
    pub fn size(length: usize) -> (result: usize)
        requires
            HEADER_LEN + SLOT_LEN * length <= usize::MAX,
        ensures
            result == HEADER_LEN + SLOT_LEN * length,
    {
        HEADER_LEN + length * SLOT_LEN
    }

    /// Makes an array of `length` elements of type `elements_type` over
    /// `storage`, known under the handle `ptr`. Only the header is written:
    /// the element slots keep the bytes that the storage came with.
    pub fn new(elements_type: ArrayEntryType, length: usize, ptr: ArrayRef, storage: Vec<u8>) -> (result: Self)
        requires
            length <= u32::MAX,
            storage@.len() == HEADER_LEN + SLOT_LEN * length,
            ptr.address != 0,
        ensures
            result.wf(),
            result.identity() == ptr,
            result.spec_len() == length,
            result.elements_type() == elements_type,
            result@ == header_of(length as u32, elements_type) + storage@.subrange(
                HEADER_LEN as int,
                storage@.len() as int,
            ),
    {
        let mut data = storage;
        let length_bytes = u32_to_le_bytes(length as u32);
        let tag_bytes = u64_to_le_bytes(encode_tag(elements_type));
        let ghost header = header_of(length as u32, elements_type);
        let mut at: usize = 0;
        while at < 4
            invariant
                at <= 4,
                length_bytes@ == spec_u32_to_le_bytes(length as u32),
                length_bytes@.len() == 4,
                data@.len() == storage@.len(),
                storage@.len() >= HEADER_LEN,
                data@ == length_bytes@.subrange(0, at as int) + storage@.subrange(
                    at as int,
                    storage@.len() as int,
                ),
            decreases 4 - at,
        {
            data.set(at, length_bytes[at]);
            at = at + 1;
        }
        let mut at: usize = 0;
        while at < 8
            invariant
                at <= 8,
                length_bytes@ == spec_u32_to_le_bytes(length as u32),
                length_bytes@.len() == 4,
                tag_bytes@ == spec_u64_to_le_bytes(tag_word(elements_type)),
                tag_bytes@.len() == 8,
                data@.len() == storage@.len(),
                storage@.len() >= HEADER_LEN,
                data@ == length_bytes@ + tag_bytes@.subrange(0, at as int) + storage@.subrange(
                    4 + at as int,
                    storage@.len() as int,
                ),
            decreases 8 - at,
        {
            data.set(4 + at, tag_bytes[at]);
            at = at + 1;
        }
        proof {
            lemma_auto_spec_u32_to_from_le_bytes();
            lemma_auto_spec_u64_to_from_le_bytes();
            lemma_tag_round_trip(elements_type);
            assert(data@ =~= header + storage@.subrange(HEADER_LEN as int, storage@.len() as int));
            assert(data@.subrange(0, 4) =~= spec_u32_to_le_bytes(length as u32));
            assert(data@.subrange(4, HEADER_LEN as int) =~= spec_u64_to_le_bytes(
                tag_word(elements_type),
            ));
        }
        Self { reference: ptr, data }
    }

    /// The handle under which the allocator knows this array.
    pub fn reference(&self) -> (result: ArrayRef)
        ensures
            result == self.identity(),
    {
        self.reference
    }

    /// The array's storage: header and element slots.
    pub fn storage(&self) -> (result: &Vec<u8>)
        ensures
            result@ == self@,
    {
        &self.data
    }

    pub fn len(&self) -> (result: u32)
        requires
            self.wf(),
        ensures
            result == self.spec_len(),
    {
        u32_from_le_bytes(slice_subrange(self.data.as_slice(), 0, 4))
    }

    pub fn is_empty(&self) -> (result: bool)
        requires
            self.wf(),
        ensures
            result == (self.spec_len() == 0),
    {
        self.len() == 0
    }

    pub fn get_elements_type(&self) -> (result: ArrayEntryType)
        requires
            self.wf(),
        ensures
            result == self.elements_type(),
    {
        let word = u64_from_le_bytes(slice_subrange(self.data.as_slice(), 4, HEADER_LEN));
        decode_tag(word).unwrap()
    }

    /// The element at `index`, read from its slot as the element type says.
    pub fn get_item_at(&self, index: usize) -> (result: Result<Value, VmError>)
        requires
            self.wf(),
        ensures
            index >= self.spec_len() ==> result == Err::<Value, VmError>(
                VmError::ArrayIndexOutOfBoundsException,
            ),
            index < self.spec_len() ==> result == Ok::<Value, VmError>(item_of(self@, index as int)),
    {
        if index >= self.len() as usize {
            Err(VmError::ArrayIndexOutOfBoundsException)
        } else {
            let total = self.data.len();
            assert(total == HEADER_LEN + SLOT_LEN * self.spec_len());
            let offset = HEADER_LEN + index * SLOT_LEN;
            let word = u64_from_le_bytes(
                slice_subrange(self.data.as_slice(), offset, offset + SLOT_LEN),
            );
            Ok(decode_value(self.get_elements_type(), word))
        }
    }

    /// Stores `value` in the slot of the element at `index`. A failed call
    /// leaves the storage as it was.
    pub fn set_item_at(&mut self, index: usize, value: Value) -> (result: Result<(), VmError>)
        requires
            old(self).wf(),
        ensures
            final(self).wf(),
            final(self).identity() == old(self).identity(),
            final(self).spec_len() == old(self).spec_len(),
            final(self).elements_type() == old(self).elements_type(),
            index >= old(self).spec_len() ==> result == Err::<(), VmError>(
                VmError::ArrayIndexOutOfBoundsException,
            ) && final(self)@ == old(self)@,
            index < old(self).spec_len() && !accepts(old(self).elements_type(), value) ==> result
                == Err::<(), VmError>(VmError::ValidationException) && final(self)@ == old(self)@,
            index < old(self).spec_len() && accepts(old(self).elements_type(), value) ==> result
                == Ok::<(), VmError>(()) && final(self)@ == store(old(self)@, index as int, value),
    {
        if index >= self.len() as usize {
            Err(VmError::ArrayIndexOutOfBoundsException)
        } else {
            match encode_value(self.get_elements_type(), value) {
                None => Err(VmError::ValidationException),
                Some(word) => {
                    let total = self.data.len();
                    assert(total == HEADER_LEN + SLOT_LEN * self.spec_len());
                    let offset = HEADER_LEN + index * SLOT_LEN;
                    let bytes = u64_to_le_bytes(word);
                    let mut at: usize = 0;
                    while at < SLOT_LEN
                        invariant
                            at <= SLOT_LEN,
                            offset == HEADER_LEN + index * SLOT_LEN,
                            bytes@.len() == SLOT_LEN,
                            self.data@.len() == total,
                            old(self).data@.len() == total,
                            offset + SLOT_LEN <= total,
                            self.reference == old(self).reference,
                            self.data@ == old(self).data@.subrange(0, offset as int)
                                + bytes@.subrange(0, at as int) + old(self).data@.subrange(
                                offset + at,
                                old(self).data@.len() as int,
                            ),
                        decreases SLOT_LEN - at,
                    {
                        self.data.set(offset + at, bytes[at]);
                        at = at + 1;
                    }
                    proof {
                        assert(self.data@ =~= store(old(self)@, index as int, value));
                        lemma_store(old(self)@, index as int, value);
                    }
                    Ok(())
                },
            }
        }
    }

    /// Whether `self` and `other` are one and the same array. Two arrays
    /// with equal contents are still two arrays.
    pub fn is_same_as(&self, other: &Array) -> (result: bool)
        ensures
            result == (self.identity() == other.identity()),
    {
        self.reference.address == other.reference.address
    }

    /// The 32-bit integral value at `index` of an array of such values.
    fn int_at(&self, index: usize) -> (result: i32)
        requires
            self.wf(),
            index < self.spec_len(),
            self.elements_type() matches ArrayEntryType::Base(base) && base.is_int_like(),
        ensures
            item_of(self@, index as int) == Value::Int(result),
    {
        let total = self.data.len();
        assert(total == HEADER_LEN + SLOT_LEN * self.spec_len());
        let offset = HEADER_LEN + index * SLOT_LEN;
        let word = u64_from_le_bytes(slice_subrange(self.data.as_slice(), offset, offset + SLOT_LEN));
        #[verifier::truncate]
        ((#[verifier::truncate] (word as u32)) as i32)
    }

    /// The low 16 bits of every element of an array of chars, in index
    /// order.
    pub fn utf16_code_points(&self) -> (result: Result<Vec<u16>, VmError>)
        requires
            self.wf(),
        ensures
            match result {
                Ok(units) => self.elements_type() == ArrayEntryType::Base(BaseType::Char) && units@
                    == code_units_of(self@),
                Err(error) => self.elements_type() != ArrayEntryType::Base(BaseType::Char) && error
                    == VmError::ValidationException,
            },
    {
        match self.get_elements_type() {
            ArrayEntryType::Base(BaseType::Char) => {
                let len = self.len() as usize;
                let mut vec: Vec<u16> = Vec::with_capacity(len);
                let mut index: usize = 0;
                while index < len
                    invariant
                        self.wf(),
                        self.elements_type() == ArrayEntryType::Base(BaseType::Char),
                        len == self.spec_len(),
                        index <= len,
                        vec@.len() == index,
                        forall|at: int| 0 <= at < index ==> vec@[at] == code_unit_of(self@, at),
                    decreases len - index,
                {
                    let next_codepoint = #[verifier::truncate] (self.int_at(index) as u16);
                    vec.push(next_codepoint);
                    index = index + 1;
                }
                assert(vec@ =~= code_units_of(self@));
                Ok(vec)
            },
            _ => Err(VmError::ValidationException),
        }
    }

    /// Copies every element of `other` into `self`, starting at index 0.
    pub fn copy_from(&mut self, other: &Array) -> (result: Result<(), VmError>)
        requires
            old(self).wf(),
            other.wf(),
        ensures
            final(self).wf(),
            final(self).identity() == old(self).identity(),
            (result, final(self)@) == copy_outcome(other@, 0, old(self)@, 0, other.spec_len() as int),
    {
        let length = other.len() as usize;
        array_copy(other, 0, self, 0, length)
    }
}

/// What a copy of `length` elements from position `from_pos` of `from` to
/// position `to_pos` of `to` gives: its result and the destination's
/// storage afterwards. Arrays of incompatible element types are refused
/// with a validation error; between compatible arrays, a range that leaves
/// either array is refused with an out-of-bounds error. A copy that is
/// refused changes nothing.
pub open spec fn copy_outcome(from: Seq<u8>, from_pos: int, to: Seq<u8>, to_pos: int, length: int) -> (
    Result<(), VmError>,
    Seq<u8>,
) {
    if !compatible(tag_of(from)->0, tag_of(to)->0) {
        (Err(VmError::ValidationException), to)
    } else if from_pos + length > length_of(from) || to_pos + length > length_of(to) {
        (Err(VmError::ArrayIndexOutOfBoundsException), to)
    } else {
        (Ok(()), copied(from, from_pos, to, to_pos, length))
    }
}

/// Whether elements can be copied as they are between arrays of the two
/// element types.
fn is_compatible(from: ArrayEntryType, to: ArrayEntryType) -> (result: bool)
    ensures
        result == compatible(from, to),
{
    match from {
        ArrayEntryType::Base(BaseType::Long) => match to {
            ArrayEntryType::Base(BaseType::Long) => true,
            _ => false,
        },
        ArrayEntryType::Base(BaseType::Float) => match to {
            ArrayEntryType::Base(BaseType::Float) => true,
            _ => false,
        },
        ArrayEntryType::Base(BaseType::Double) => match to {
            ArrayEntryType::Base(BaseType::Double) => true,
            _ => false,
        },
        ArrayEntryType::Base(_) => match to {
            ArrayEntryType::Base(BaseType::Long) => false,
            ArrayEntryType::Base(BaseType::Float) => false,
            ArrayEntryType::Base(BaseType::Double) => false,
            ArrayEntryType::Base(_) => true,
            _ => false,
        },
        ArrayEntryType::Object(_) => match to {
            ArrayEntryType::Object(_) => true,
            _ => false,
        },
        ArrayEntryType::Array => match to {
            ArrayEntryType::Array => true,
            _ => false,
        },
    }
}

/// Copies `length` elements from position `src_pos` of `src` to position
/// `dest_pos` of `dest`, slot by slot.
pub fn array_copy(src: &Array, src_pos: usize, dest: &mut Array, dest_pos: usize, length: usize) -> (result:
    Result<(), VmError>)
    requires
        src.wf(),
        old(dest).wf(),
    ensures
        final(dest).wf(),
        final(dest).identity() == old(dest).identity(),
        (result, final(dest)@) == copy_outcome(
            src@,
            src_pos as int,
            old(dest)@,
            dest_pos as int,
            length as int,
        ),
{
    if !is_compatible(src.get_elements_type(), dest.get_elements_type()) {
        return Err(VmError::ValidationException);
    }
    let src_len = src.len() as usize;
    let dest_len = dest.len() as usize;
    if src_pos > src_len || length > src_len - src_pos || dest_pos > dest_len || length > dest_len
        - dest_pos {
        return Err(VmError::ArrayIndexOutOfBoundsException);
    }
    let src_total = src.data.len();
    let dest_total = dest.data.len();
    assert(src_total == HEADER_LEN + SLOT_LEN * src.spec_len());
    assert(dest_total == HEADER_LEN + SLOT_LEN * dest.spec_len());
    let src_offset = HEADER_LEN + src_pos * SLOT_LEN;
    let dest_offset = HEADER_LEN + dest_pos * SLOT_LEN;
    let count = length * SLOT_LEN;
    let mut at: usize = 0;
    while at < count
        invariant
            at <= count,
            src_offset + count <= src_total,
            dest_offset + count <= dest_total,
            src.data@.len() == src_total,
            dest.data@.len() == dest_total,
            old(dest).data@.len() == dest_total,
            dest.reference == old(dest).reference,
            dest.data@ == old(dest).data@.subrange(0, dest_offset as int) + src.data@.subrange(
                src_offset as int,
                src_offset + at,
            ) + old(dest).data@.subrange(dest_offset + at, dest_total as int),
        decreases count - at,
    {
        dest.data.set(dest_offset + at, src.data[src_offset + at]);
        at = at + 1;
    }
    proof {
        assert(dest.data@ =~= copied(
            src@,
            src_pos as int,
            old(dest)@,
            dest_pos as int,
            length as int,
        ));
        lemma_copied(src@, src_pos as int, old(dest)@, dest_pos as int, length as int);
    }
    Ok(())
}

} // verus!
