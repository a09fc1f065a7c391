use rjvm_vm::value::Value;
use rjvm_vm::value_stack::ValueStack;
use rjvm_vm::vm_error::VmError;

#[test]
fn can_do_push_pop_and_indexing() {
    let mut stack = ValueStack::with_max_size(3);
    stack.push(Value::Int(1)).expect("should be able to push");
    stack.push(Value::Int(2)).expect("should be able to push");
    stack.push(Value::Int(3)).expect("should be able to push");

    assert_eq!(Ok(Value::Int(3)), stack.pop());
    assert_eq!(Some(&Value::Int(1)), stack.get(0));
    assert_eq!(Value::Int(2), stack[1]);
    assert_eq!(2, stack.len());

    stack.truncate(1).expect("should be able to truncate");
    assert_eq!(1, stack.len());
    assert_eq!(Ok(Value::Int(1)), stack.pop());
}

#[test]
fn cannot_push_above_capacity() {
    let mut stack = ValueStack::with_max_size(1);
    stack.push(Value::Int(1)).expect("should be able to push");
    assert!(stack.push(Value::Int(2)).is_err());
}

#[test]
fn can_invoke_dup() {
    let mut stack = ValueStack::with_max_size(2);
    stack.push(Value::Int(1)).expect("should be able to push");
    stack.dup().expect("should be able to dup");
    assert_eq!(2, stack.len());
    assert_eq!(Ok(Value::Int(1)), stack.pop());
    assert_eq!(Ok(Value::Int(1)), stack.pop());
}

#[test]
fn can_invoke_dup_x1() {
    let mut stack = ValueStack::with_max_size(3);
    stack.push(Value::Int(2)).expect("should be able to push");
    stack.push(Value::Int(1)).expect("should be able to push");
    stack.dup_x1().expect("should be able to dup_x1");
    assert_eq!(3, stack.len());
    assert_eq!(Ok(Value::Int(1)), stack.pop());
    assert_eq!(Ok(Value::Int(2)), stack.pop());
    assert_eq!(Ok(Value::Int(1)), stack.pop());
}

#[test]
fn can_invoke_dup_x2() {
    let mut stack = ValueStack::with_max_size(4);
    stack.push(Value::Int(3)).expect("should be able to push");
    stack.push(Value::Int(2)).expect("should be able to push");
    stack.push(Value::Int(1)).expect("should be able to push");
    stack.dup_x2().expect("should be able to dup_x2");
    assert_eq!(4, stack.len());
    assert_eq!(Ok(Value::Int(1)), stack.pop());
    assert_eq!(Ok(Value::Int(2)), stack.pop());
    assert_eq!(Ok(Value::Int(3)), stack.pop());
    assert_eq!(Ok(Value::Int(1)), stack.pop());
}

#[test]
fn can_invoke_dup2() {
    let mut stack = ValueStack::with_max_size(4);
    stack.push(Value::Int(2)).expect("should be able to push");
    stack.push(Value::Int(1)).expect("should be able to push");
    stack.dup2().expect("should be able to dup2");
    assert_eq!(4, stack.len());
    assert_eq!(Ok(Value::Int(1)), stack.pop());
    assert_eq!(Ok(Value::Int(2)), stack.pop());
    assert_eq!(Ok(Value::Int(1)), stack.pop());
    assert_eq!(Ok(Value::Int(2)), stack.pop());
}

#[test]
fn can_invoke_dup2_x1() {
    let mut stack = ValueStack::with_max_size(5);
    stack.push(Value::Int(3)).expect("should be able to push");
    stack.push(Value::Int(2)).expect("should be able to push");
    stack.push(Value::Int(1)).expect("should be able to push");
    stack.dup2_x1().expect("should be able to dup2_x1");
    assert_eq!(5, stack.len());
    assert_eq!(Ok(Value::Int(1)), stack.pop());
    assert_eq!(Ok(Value::Int(2)), stack.pop());
    assert_eq!(Ok(Value::Int(3)), stack.pop());
    assert_eq!(Ok(Value::Int(1)), stack.pop());
    assert_eq!(Ok(Value::Int(2)), stack.pop());
}

#[test]
fn can_invoke_dup2_x2() {
    let mut stack = ValueStack::with_max_size(6);
    stack.push(Value::Int(4)).expect("should be able to push");
    stack.push(Value::Int(3)).expect("should be able to push");
    stack.push(Value::Int(2)).expect("should be able to push");
    stack.push(Value::Int(1)).expect("should be able to push");
    stack.dup2_x2().expect("should be able to dup2_x2");
    assert_eq!(6, stack.len());
    assert_eq!(Ok(Value::Int(1)), stack.pop());
    assert_eq!(Ok(Value::Int(2)), stack.pop());
    assert_eq!(Ok(Value::Int(3)), stack.pop());
    assert_eq!(Ok(Value::Int(4)), stack.pop());
    assert_eq!(Ok(Value::Int(1)), stack.pop());
    assert_eq!(Ok(Value::Int(2)), stack.pop());
}

#[test]
fn can_invoke_pop2() {
    let mut stack = ValueStack::with_max_size(4);
    stack
        .push(Value::Double(0f64.to_bits()))
        .expect("should be able to push");
    stack.push(Value::Int(1)).expect("should be able to push");
    stack.push(Value::Int(2)).expect("should be able to push");
    stack.push(Value::Long(3)).expect("should be able to push");
    assert_eq!(Ok(Value::Long(3)), stack.pop2());
    assert_eq!(3, stack.len());
    assert_eq!(Ok(Value::Int(2)), stack.pop2());
    assert_eq!(1, stack.len());
    assert_eq!(Ok(Value::Double(0f64.to_bits())), stack.pop2());
}

#[test]
fn can_invoke_swap() {
    let mut stack = ValueStack::with_max_size(2);
    stack.push(Value::Int(1)).expect("should be able to push");
    stack.push(Value::Int(2)).expect("should be able to push");
    stack.swap().expect("should be able to swap");
    assert_eq!(2, stack.len());
    assert_eq!(Ok(Value::Int(1)), stack.pop());
    assert_eq!(Ok(Value::Int(2)), stack.pop());
}

fn entries(stack: &ValueStack) -> Vec<Value> {
    stack.iter().copied().collect()
}

fn stack_of(max_size: usize, values: &[i32]) -> ValueStack {
    let mut stack = ValueStack::with_max_size(max_size);
    for value in values {
        stack.push(Value::Int(*value)).expect("should be able to push");
    }
    stack
}

fn ints(values: &[i32]) -> Vec<Value> {
    values.iter().map(|value| Value::Int(*value)).collect()
}

#[test]
fn push_above_capacity_leaves_the_stack_unchanged() {
    let mut stack = stack_of(2, &[1, 2]);
    assert_eq!(Err(VmError::ValidationException), stack.push(Value::Int(3)));
    assert_eq!(2, stack.len());
    assert_eq!(ints(&[1, 2]), entries(&stack));
}

#[test]
fn a_stack_without_capacity_accepts_nothing() {
    let mut stack = ValueStack::with_max_size(0);
    assert_eq!(Err(VmError::ValidationException), stack.push(Value::Null));
    assert_eq!(Err(VmError::ValidationException), stack.dup());
    assert_eq!(0, stack.len());
}

#[test]
fn pop_on_an_empty_stack_fails() {
    let mut stack = ValueStack::with_max_size(2);
    assert_eq!(Err(VmError::ValidationException), stack.pop());
    assert_eq!(Err(VmError::ValidationException), stack.pop2());
    assert_eq!(0, stack.len());
}

#[test]
fn pop2_removes_one_wide_entry_or_two_narrow_ones() {
    let mut stack = ValueStack::with_max_size(4);
    stack.push(Value::Int(7)).unwrap();
    stack.push(Value::Double(1.5f64.to_bits())).unwrap();
    assert_eq!(Ok(Value::Double(1.5f64.to_bits())), stack.pop2());
    assert_eq!(1, stack.len());
    stack.push(Value::Float(2.5f32.to_bits())).unwrap();
    assert_eq!(Ok(Value::Float(2.5f32.to_bits())), stack.pop2());
    assert_eq!(0, stack.len());
}

#[test]
fn pop2_on_a_single_narrow_entry_fails_and_empties_the_stack() {
    let mut stack = stack_of(4, &[5]);
    assert_eq!(Err(VmError::ValidationException), stack.pop2());
    assert_eq!(0, stack.len());
}

#[test]
fn truncate_drops_the_entries_above_the_given_length() {
    let mut stack = stack_of(4, &[1, 2, 3]);
    assert_eq!(Ok(()), stack.truncate(2));
    assert_eq!(ints(&[1, 2]), entries(&stack));
    assert_eq!(Ok(()), stack.truncate(4));
    assert_eq!(ints(&[1, 2]), entries(&stack));
    assert_eq!(Ok(()), stack.truncate(0));
    assert_eq!(0, stack.len());
}

#[test]
fn truncate_above_capacity_fails() {
    let mut stack = stack_of(3, &[1, 2]);
    assert_eq!(Err(VmError::ValidationException), stack.truncate(4));
    assert_eq!(ints(&[1, 2]), entries(&stack));
}

#[test]
fn get_outside_the_stack_gives_nothing() {
    let stack = stack_of(3, &[1, 2]);
    assert_eq!(Some(&Value::Int(2)), stack.get(1));
    assert_eq!(None, stack.get(2));
}

#[test]
fn iter_walks_the_entries_bottom_first() {
    let stack = stack_of(3, &[9, 8, 7]);
    assert_eq!(ints(&[9, 8, 7]), entries(&stack));
}

#[test]
fn dup_x2_puts_the_top_below_the_third_entry() {
    let mut stack = stack_of(4, &[3, 2, 1]);
    assert_eq!(Ok(()), stack.dup_x2());
    assert_eq!(ints(&[1, 3, 2, 1]), entries(&stack));
}

#[test]
fn the_duplicate_family_permutes_the_top_entries() {
    let mut stack = stack_of(8, &[9, 1]);
    assert_eq!(Ok(()), stack.dup());
    assert_eq!(ints(&[9, 1, 1]), entries(&stack));

    let mut stack = stack_of(8, &[9, 2, 1]);
    assert_eq!(Ok(()), stack.dup_x1());
    assert_eq!(ints(&[9, 1, 2, 1]), entries(&stack));

    let mut stack = stack_of(8, &[9, 3, 2, 1]);
    assert_eq!(Ok(()), stack.dup_x2());
    assert_eq!(ints(&[9, 1, 3, 2, 1]), entries(&stack));

    let mut stack = stack_of(8, &[9, 2, 1]);
    assert_eq!(Ok(()), stack.dup2());
    assert_eq!(ints(&[9, 2, 1, 2, 1]), entries(&stack));

    let mut stack = stack_of(8, &[9, 3, 2, 1]);
    assert_eq!(Ok(()), stack.dup2_x1());
    assert_eq!(ints(&[9, 2, 1, 3, 2, 1]), entries(&stack));

    let mut stack = stack_of(8, &[9, 4, 3, 2, 1]);
    assert_eq!(Ok(()), stack.dup2_x2());
    assert_eq!(ints(&[9, 2, 1, 4, 3, 2, 1]), entries(&stack));

    let mut stack = stack_of(8, &[9, 2, 1]);
    assert_eq!(Ok(()), stack.swap());
    assert_eq!(ints(&[9, 1, 2]), entries(&stack));
}

#[test]
fn duplicates_fail_on_a_full_stack_and_leave_it_unchanged() {
    let mut stack = stack_of(4, &[4, 3, 2, 1]);
    assert_eq!(Err(VmError::ValidationException), stack.dup());
    assert_eq!(Err(VmError::ValidationException), stack.dup_x1());
    assert_eq!(Err(VmError::ValidationException), stack.dup_x2());
    assert_eq!(Err(VmError::ValidationException), stack.dup2());
    assert_eq!(Err(VmError::ValidationException), stack.dup2_x1());
    assert_eq!(Err(VmError::ValidationException), stack.dup2_x2());
    assert_eq!(ints(&[4, 3, 2, 1]), entries(&stack));
}

#[test]
fn dup_on_an_empty_stack_fails() {
    let mut stack = ValueStack::with_max_size(2);
    assert_eq!(Err(VmError::ValidationException), stack.dup());
    assert_eq!(0, stack.len());
}

#[test]
fn duplicates_with_too_few_entries_fail_and_empty_the_stack() {
    let mut stack = stack_of(8, &[1]);
    assert_eq!(Err(VmError::ValidationException), stack.dup_x1());
    assert_eq!(0, stack.len());

    let mut stack = stack_of(8, &[2, 1]);
    assert_eq!(Err(VmError::ValidationException), stack.dup_x2());
    assert_eq!(0, stack.len());

    let mut stack = stack_of(8, &[1]);
    assert_eq!(Err(VmError::ValidationException), stack.dup2());
    assert_eq!(0, stack.len());

    let mut stack = stack_of(8, &[2, 1]);
    assert_eq!(Err(VmError::ValidationException), stack.dup2_x1());
    assert_eq!(0, stack.len());

    let mut stack = stack_of(8, &[3, 2, 1]);
    assert_eq!(Err(VmError::ValidationException), stack.dup2_x2());
    assert_eq!(0, stack.len());

    let mut stack = stack_of(8, &[1]);
    assert_eq!(Err(VmError::ValidationException), stack.swap());
    assert_eq!(0, stack.len());
}

#[test]
fn two_entry_duplicates_with_room_for_one_fail_one_entry_short() {
    let mut stack = stack_of(3, &[2, 1]);
    assert_eq!(Err(VmError::ValidationException), stack.dup2());
    assert_eq!(ints(&[2, 1, 2]), entries(&stack));

    let mut stack = stack_of(4, &[3, 2, 1]);
    assert_eq!(Err(VmError::ValidationException), stack.dup2_x1());
    assert_eq!(ints(&[2, 1, 3, 2]), entries(&stack));

    let mut stack = stack_of(5, &[4, 3, 2, 1]);
    assert_eq!(Err(VmError::ValidationException), stack.dup2_x2());
    assert_eq!(ints(&[2, 1, 4, 3, 2]), entries(&stack));
}

#[test]
fn swap_works_on_a_full_stack() {
    let mut stack = stack_of(2, &[1, 2]);
    assert_eq!(Ok(()), stack.swap());
    assert_eq!(ints(&[2, 1]), entries(&stack));
}

#[test]
fn the_greatest_capacity_takes_no_storage_ahead() {
    let mut stack = ValueStack::with_max_size(usize::MAX);
    assert_eq!(Ok(()), stack.push(Value::Int(1)));
    assert_eq!(Ok(()), stack.truncate(usize::MAX));
    assert_eq!(1, stack.len());
}
