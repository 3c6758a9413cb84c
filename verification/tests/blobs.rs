use std::collections::HashMap;
use tropaion::compiler::bytecode::ByteCode;
use tropaion::compiler::compiler::CompilationResult;
use tropaion::error::runtime_error::{RuntimeError, ValueTypeVariant};
use tropaion::interpreter::interpreter::Interpreter;
use tropaion::interpreter::value::Value;
use tropaion::memory_blob::resolve_blob;

fn empty() -> Interpreter {
    Interpreter::new(CompilationResult { instructions: vec![ByteCode::Nop], lines: vec![1], functions: HashMap::new() })
}

fn ref_mismatch(ptr: u32, len: u32) -> RuntimeError {
    RuntimeError::TypeMismatch { expected: ValueTypeVariant::Int, got: Value::RefValue { ptr, len } }
}

#[test]
fn a_plain_value_resolves_to_itself() {
    let vm = empty();
    let mut blob = resolve_blob(Value::IntValue(3), &vm);
    assert_eq!(blob.next_int(), Ok(3));
    assert_eq!(blob.expect_end(), Ok(()));
}

#[test]
fn a_reference_is_renumbered_and_followed_by_its_words() {
    let mut vm = empty();
    vm.push_stack_frame(2);
    vm.push_int(7).unwrap();
    vm.store_local(0).unwrap();
    vm.push_int(8).unwrap();
    vm.store_local(1).unwrap();
    vm.create_stack_ptr(0, 2).unwrap();
    let root = vm.pop().unwrap();
    assert_eq!(root, Value::RefValue { ptr: 1, len: 2 });
    let mut blob = resolve_blob(root, &vm);
    assert_eq!(blob.next_int(), Err(ref_mismatch(0, 2)));
    assert_eq!(blob.next_int(), Ok(7));
    assert_eq!(blob.next_int(), Ok(8));
    assert_eq!(blob.expect_end(), Ok(()));
}

#[test]
fn a_cycle_is_copied_once() {
    let mut vm = empty();
    vm.push_stack_frame(2);
    vm.push_int(5).unwrap();
    vm.store_local(0).unwrap();
    vm.create_stack_ptr(0, 2).unwrap();
    vm.store_local(1).unwrap();
    vm.create_stack_ptr(0, 2).unwrap();
    let root = vm.pop().unwrap();
    let mut blob = resolve_blob(root, &vm);
    assert_eq!(blob.next_int(), Err(ref_mismatch(0, 2)));
    assert_eq!(blob.next_int(), Ok(5));
    assert_eq!(blob.next_int(), Err(ref_mismatch(0, 2)));
    assert_eq!(blob.expect_end(), Ok(()));
}

#[test]
fn nested_references_are_copied_depth_first() {
    let mut vm = empty();
    vm.push_stack_frame(3);
    // slot 2 holds 9; slot 1 refers to slot 2; slot 0 holds 4.
    vm.push_int(9).unwrap();
    vm.store_local(2).unwrap();
    vm.create_stack_ptr(2, 1).unwrap();
    vm.store_local(1).unwrap();
    vm.push_int(4).unwrap();
    vm.store_local(0).unwrap();
    vm.create_stack_ptr(0, 2).unwrap();
    let root = vm.pop().unwrap();
    let mut blob = resolve_blob(root, &vm);
    assert_eq!(blob.next_int(), Err(ref_mismatch(0, 2)));
    assert_eq!(blob.next_int(), Ok(4));
    assert_eq!(blob.next_int(), Err(ref_mismatch(2, 1)));
    assert_eq!(blob.next_int(), Ok(9));
    assert_eq!(blob.expect_end(), Ok(()));
}
