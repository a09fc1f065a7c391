use rjvm_vm::array::{array_copy, Array, HEADER_LEN, SLOT_LEN};
use rjvm_vm::array_entry_type::{ArrayEntryType, BaseType};
use rjvm_vm::class::ClassId;
use rjvm_vm::value::{ArrayRef, ObjectRef, Value};
use rjvm_vm::vm_error::VmError;

fn new_array(elements_type: ArrayEntryType, length: usize, address: u64) -> Array {
    let storage = vec![0u8; Array::size(length)];
    Array::new(elements_type, length, ArrayRef { address }, storage)
}

fn int_array(length: usize) -> Array {
    new_array(ArrayEntryType::Base(BaseType::Int), length, 1)
}

#[test]
fn size_is_the_header_and_eight_bytes_for_each_element() {
    assert_eq!(12, HEADER_LEN);
    assert_eq!(8, SLOT_LEN);
    assert_eq!(12, Array::size(0));
    assert_eq!(20, Array::size(1));
    assert_eq!(52, Array::size(5));
}

#[test]
fn new_writes_the_length_and_the_element_type_into_the_header() {
    let array = int_array(5);
    assert_eq!(5, array.len());
    assert!(!array.is_empty());
    assert_eq!(ArrayEntryType::Base(BaseType::Int), array.get_elements_type());
    assert_eq!(52, array.storage().len());
    assert_eq!(
        &[5u8, 0, 0, 0, 10, 0, 0, 0, 0, 0, 0, 0][..],
        &array.storage()[..12]
    );
}

#[test]
fn new_keeps_the_component_class_of_an_array_of_objects() {
    let elements_type = ArrayEntryType::Object(ClassId(7));
    let array = new_array(elements_type, 2, 3);
    assert_eq!(elements_type, array.get_elements_type());
    assert_eq!(
        &[2u8, 0, 0, 0, 1, 0, 0, 0, 7, 0, 0, 0][..],
        &array.storage()[..12]
    );
}

#[test]
fn new_does_not_touch_the_element_slots() {
    let mut storage = vec![0u8; Array::size(2)];
    for (at, byte) in storage.iter_mut().enumerate() {
        *byte = at as u8 + 100;
    }
    let array = Array::new(
        ArrayEntryType::Base(BaseType::Long),
        2,
        ArrayRef { address: 1 },
        storage,
    );
    let expected: Vec<u8> = (12..28u8).map(|at| at + 100).collect();
    assert_eq!(&expected[..], &array.storage()[12..]);
    assert_eq!(
        Ok(Value::Long(i64::from_le_bytes([112, 113, 114, 115, 116, 117, 118, 119]))),
        array.get_item_at(0)
    );
}

#[test]
fn an_array_without_elements_is_empty() {
    let array = int_array(0);
    assert_eq!(0, array.len());
    assert!(array.is_empty());
    assert_eq!(Err(VmError::ArrayIndexOutOfBoundsException), array.get_item_at(0));
}

#[test]
fn every_element_type_is_read_back_from_the_header() {
    let all = [
        ArrayEntryType::Base(BaseType::Boolean),
        ArrayEntryType::Base(BaseType::Byte),
        ArrayEntryType::Base(BaseType::Char),
        ArrayEntryType::Base(BaseType::Short),
        ArrayEntryType::Base(BaseType::Int),
        ArrayEntryType::Base(BaseType::Long),
        ArrayEntryType::Base(BaseType::Float),
        ArrayEntryType::Base(BaseType::Double),
        ArrayEntryType::Object(ClassId(0)),
        ArrayEntryType::Object(ClassId(u32::MAX)),
        ArrayEntryType::Array,
    ];
    for elements_type in all {
        let array = new_array(elements_type, 1, 1);
        assert_eq!(elements_type, array.get_elements_type());
        assert_eq!(1, array.len());
    }
}

#[test]
fn access_fails_out_of_bounds_exactly_from_the_length_on() {
    let mut array = int_array(5);
    for index in 0..5 {
        assert_eq!(Ok(Value::Int(0)), array.get_item_at(index));
        assert_eq!(Ok(()), array.set_item_at(index, Value::Int(index as i32)));
    }
    for index in [5usize, 6, usize::MAX] {
        assert_eq!(
            Err(VmError::ArrayIndexOutOfBoundsException),
            array.get_item_at(index)
        );
        assert_eq!(
            Err(VmError::ArrayIndexOutOfBoundsException),
            array.set_item_at(index, Value::Int(1))
        );
    }
}

#[test]
fn the_bounds_are_checked_before_the_value() {
    let mut array = int_array(1);
    assert_eq!(
        Err(VmError::ArrayIndexOutOfBoundsException),
        array.set_item_at(1, Value::Long(1))
    );
}

#[test]
fn an_int_written_at_an_index_is_read_back_there() {
    let mut array = int_array(5);
    assert_eq!(Ok(()), array.set_item_at(3, Value::Int(42)));
    assert_eq!(Ok(Value::Int(42)), array.get_item_at(3));
    assert_eq!(Ok(Value::Int(0)), array.get_item_at(2));
    assert_eq!(Ok(Value::Int(0)), array.get_item_at(4));
    assert_eq!(Err(VmError::ArrayIndexOutOfBoundsException), array.get_item_at(5));
}

#[test]
fn a_write_replaces_the_eight_bytes_of_its_slot_only() {
    let mut array = int_array(3);
    let before = array.storage().clone();
    assert_eq!(Ok(()), array.set_item_at(1, Value::Int(-2)));
    let after = array.storage();
    assert_eq!(&before[..20], &after[..20]);
    assert_eq!(&[0xfeu8, 0xff, 0xff, 0xff, 0, 0, 0, 0][..], &after[20..28]);
    assert_eq!(&before[28..], &after[28..]);
}

#[test]
fn values_of_every_kind_are_read_back_as_written() {
    let cases = [
        (ArrayEntryType::Base(BaseType::Boolean), Value::Int(1)),
        (ArrayEntryType::Base(BaseType::Byte), Value::Int(-128)),
        (ArrayEntryType::Base(BaseType::Char), Value::Int(0xffff)),
        (ArrayEntryType::Base(BaseType::Short), Value::Int(-32768)),
        (ArrayEntryType::Base(BaseType::Int), Value::Int(i32::MIN)),
        (ArrayEntryType::Base(BaseType::Int), Value::Int(i32::MAX)),
        (ArrayEntryType::Base(BaseType::Long), Value::Long(i64::MIN)),
        (ArrayEntryType::Base(BaseType::Long), Value::Long(i64::MAX)),
        (ArrayEntryType::Base(BaseType::Float), Value::Float(1.5f32.to_bits())),
        (ArrayEntryType::Base(BaseType::Float), Value::Float(f32::NAN.to_bits())),
        (ArrayEntryType::Base(BaseType::Double), Value::Double((-2.25f64).to_bits())),
        (ArrayEntryType::Base(BaseType::Double), Value::Double(u64::MAX)),
        (ArrayEntryType::Object(ClassId(3)), Value::Object(ObjectRef { address: 1 })),
        (ArrayEntryType::Object(ClassId(3)), Value::Object(ObjectRef { address: u64::MAX })),
        (ArrayEntryType::Object(ClassId(3)), Value::Null),
        (ArrayEntryType::Array, Value::Array(ArrayRef { address: 9 })),
        (ArrayEntryType::Array, Value::Null),
    ];
    for (elements_type, value) in cases {
        let mut array = new_array(elements_type, 3, 1);
        for index in 0..3 {
            assert_eq!(Ok(()), array.set_item_at(index, value));
            assert_eq!(Ok(value), array.get_item_at(index));
        }
    }
}

#[test]
fn a_zeroed_slot_reads_as_zero_or_null() {
    assert_eq!(Ok(Value::Int(0)), int_array(1).get_item_at(0));
    assert_eq!(
        Ok(Value::Long(0)),
        new_array(ArrayEntryType::Base(BaseType::Long), 1, 1).get_item_at(0)
    );
    assert_eq!(
        Ok(Value::Float(0)),
        new_array(ArrayEntryType::Base(BaseType::Float), 1, 1).get_item_at(0)
    );
    assert_eq!(
        Ok(Value::Double(0)),
        new_array(ArrayEntryType::Base(BaseType::Double), 1, 1).get_item_at(0)
    );
    assert_eq!(
        Ok(Value::Null),
        new_array(ArrayEntryType::Object(ClassId(1)), 1, 1).get_item_at(0)
    );
    assert_eq!(Ok(Value::Null), new_array(ArrayEntryType::Array, 1, 1).get_item_at(0));
}

#[test]
fn a_value_of_another_kind_is_refused_and_the_slot_stays() {
    let object = Value::Object(ObjectRef { address: 1 });
    let array_ref = Value::Array(ArrayRef { address: 1 });
    let cases = [
        (ArrayEntryType::Base(BaseType::Int), Value::Int(7), Value::Float(1)),
        (ArrayEntryType::Base(BaseType::Int), Value::Int(7), Value::Long(1)),
        (ArrayEntryType::Base(BaseType::Int), Value::Int(7), Value::Null),
        (ArrayEntryType::Base(BaseType::Char), Value::Int(7), object),
        (ArrayEntryType::Base(BaseType::Long), Value::Long(7), Value::Int(1)),
        (ArrayEntryType::Base(BaseType::Long), Value::Long(7), Value::Double(1)),
        (ArrayEntryType::Base(BaseType::Float), Value::Float(7), Value::Int(1)),
        (ArrayEntryType::Base(BaseType::Double), Value::Double(7), Value::Long(1)),
        (ArrayEntryType::Object(ClassId(1)), object, Value::Int(1)),
        (ArrayEntryType::Object(ClassId(1)), object, array_ref),
        (ArrayEntryType::Array, array_ref, object),
        (ArrayEntryType::Array, array_ref, Value::Long(1)),
    ];
    for (elements_type, accepted, refused) in cases {
        let mut array = new_array(elements_type, 2, 1);
        assert_eq!(Ok(()), array.set_item_at(1, accepted));
        let before = array.storage().clone();
        assert_eq!(Err(VmError::ValidationException), array.set_item_at(1, refused));
        assert_eq!(&before, array.storage());
        assert_eq!(Ok(accepted), array.get_item_at(1));
    }
}

#[test]
fn a_reference_with_address_zero_is_refused() {
    let mut objects = new_array(ArrayEntryType::Object(ClassId(1)), 1, 1);
    assert_eq!(
        Err(VmError::ValidationException),
        objects.set_item_at(0, Value::Object(ObjectRef { address: 0 }))
    );
    let mut arrays = new_array(ArrayEntryType::Array, 1, 1);
    assert_eq!(
        Err(VmError::ValidationException),
        arrays.set_item_at(0, Value::Array(ArrayRef { address: 0 }))
    );
}

#[test]
fn null_overwrites_a_reference_with_the_zero_pattern() {
    let mut array = new_array(ArrayEntryType::Object(ClassId(1)), 1, 1);
    assert_eq!(
        Ok(()),
        array.set_item_at(0, Value::Object(ObjectRef { address: 0x0102030405060708 }))
    );
    assert_eq!(&[8u8, 7, 6, 5, 4, 3, 2, 1][..], &array.storage()[12..20]);
    assert_eq!(Ok(()), array.set_item_at(0, Value::Null));
    assert_eq!(&[0u8; 8][..], &array.storage()[12..20]);
    assert_eq!(Ok(Value::Null), array.get_item_at(0));
}

#[test]
fn is_same_as_compares_identity_not_contents() {
    let first = new_array(ArrayEntryType::Base(BaseType::Int), 2, 1);
    let second = new_array(ArrayEntryType::Base(BaseType::Int), 2, 2);
    assert_eq!(first.storage(), second.storage());
    assert!(first.is_same_as(&first));
    assert!(!first.is_same_as(&second));
    assert_eq!(ArrayRef { address: 2 }, second.reference());
}

#[test]
fn copy_from_copies_every_element_of_the_other_array() {
    let mut source = int_array(2);
    source.set_item_at(0, Value::Int(11)).unwrap();
    source.set_item_at(1, Value::Int(22)).unwrap();
    let mut target = new_array(ArrayEntryType::Base(BaseType::Int), 3, 2);
    target.set_item_at(2, Value::Int(33)).unwrap();
    assert_eq!(Ok(()), target.copy_from(&source));
    assert_eq!(Ok(Value::Int(11)), target.get_item_at(0));
    assert_eq!(Ok(Value::Int(22)), target.get_item_at(1));
    assert_eq!(Ok(Value::Int(33)), target.get_item_at(2));
    assert_eq!(3, target.len());
}

#[test]
fn copy_from_a_longer_array_fails_and_changes_nothing() {
    let mut source = int_array(3);
    source.set_item_at(0, Value::Int(11)).unwrap();
    let mut target = new_array(ArrayEntryType::Base(BaseType::Int), 2, 2);
    let before = target.storage().clone();
    assert_eq!(
        Err(VmError::ArrayIndexOutOfBoundsException),
        target.copy_from(&source)
    );
    assert_eq!(&before, target.storage());
}

#[test]
fn copy_from_an_array_of_another_kind_fails() {
    let source = new_array(ArrayEntryType::Base(BaseType::Long), 1, 1);
    let mut target = new_array(ArrayEntryType::Base(BaseType::Int), 1, 2);
    assert_eq!(Err(VmError::ValidationException), target.copy_from(&source));
    let source = new_array(ArrayEntryType::Array, 4, 1);
    assert_eq!(Err(VmError::ValidationException), target.copy_from(&source));
}

#[test]
fn array_copy_copies_a_range_between_compatible_arrays() {
    let mut source = new_array(ArrayEntryType::Base(BaseType::Short), 4, 1);
    for index in 0..4 {
        source.set_item_at(index, Value::Int(index as i32 + 1)).unwrap();
    }
    let mut target = new_array(ArrayEntryType::Base(BaseType::Int), 5, 2);
    for index in 0..5 {
        target.set_item_at(index, Value::Int(-1)).unwrap();
    }
    assert_eq!(Ok(()), array_copy(&source, 1, &mut target, 2, 2));
    let copied: Vec<_> = (0..5).map(|index| target.get_item_at(index).unwrap()).collect();
    assert_eq!(
        vec![
            Value::Int(-1),
            Value::Int(-1),
            Value::Int(2),
            Value::Int(3),
            Value::Int(-1)
        ],
        copied
    );
}

#[test]
fn array_copy_refuses_a_range_that_leaves_an_array() {
    let source = int_array(4);
    let mut target = new_array(ArrayEntryType::Base(BaseType::Int), 4, 2);
    assert_eq!(
        Err(VmError::ArrayIndexOutOfBoundsException),
        array_copy(&source, 3, &mut target, 0, 2)
    );
    assert_eq!(
        Err(VmError::ArrayIndexOutOfBoundsException),
        array_copy(&source, 0, &mut target, 3, 2)
    );
    assert_eq!(
        Err(VmError::ArrayIndexOutOfBoundsException),
        array_copy(&source, 5, &mut target, 0, 0)
    );
    assert_eq!(
        Err(VmError::ArrayIndexOutOfBoundsException),
        array_copy(&source, 0, &mut target, 0, usize::MAX)
    );
    assert_eq!(Ok(()), array_copy(&source, 4, &mut target, 4, 0));
}

#[test]
fn utf16_code_points_are_the_low_sixteen_bits_of_each_char() {
    let mut array = new_array(ArrayEntryType::Base(BaseType::Char), 3, 1);
    array.set_item_at(0, Value::Int(0x48)).unwrap();
    array.set_item_at(1, Value::Int(0x1_20ac)).unwrap();
    array.set_item_at(2, Value::Int(-1)).unwrap();
    assert_eq!(Ok(vec![0x48u16, 0x20ac, 0xffff]), array.utf16_code_points());
}

#[test]
fn utf16_code_points_of_an_empty_char_array_are_none() {
    let array = new_array(ArrayEntryType::Base(BaseType::Char), 0, 1);
    assert_eq!(Ok(Vec::new()), array.utf16_code_points());
}

#[test]
fn utf16_code_points_are_defined_for_char_arrays_only() {
    for elements_type in [
        ArrayEntryType::Base(BaseType::Int),
        ArrayEntryType::Base(BaseType::Short),
        ArrayEntryType::Base(BaseType::Byte),
        ArrayEntryType::Base(BaseType::Long),
        ArrayEntryType::Object(ClassId(1)),
        ArrayEntryType::Array,
    ] {
        let array = new_array(elements_type, 2, 1);
        assert_eq!(Err(VmError::ValidationException), array.utf16_code_points());
    }
}
