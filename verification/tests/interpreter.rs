use std::collections::HashMap;
use tropaion::compiler::bytecode::ByteCode;
use tropaion::compiler::codegen::FunctionInfo;
use tropaion::compiler::compiler::CompilationResult;
use tropaion::error::runtime_error::{RuntimeError, ValueTypeVariant};
use tropaion::interpreter::interpreter::{Interpreter, STACK_SIZE};
use tropaion::interpreter::value::{Value, ValueType};

fn machine(instructions: Vec<ByteCode>, functions: Vec<(&str, FunctionInfo)>) -> Interpreter {
    let lines = vec![1; instructions.len()];
    let mut map = HashMap::new();
    for (name, info) in functions {
        map.insert(name.to_string(), info);
    }
    Interpreter::new(CompilationResult { instructions, lines, functions: map })
}

fn empty() -> Interpreter {
    machine(vec![ByteCode::Nop, ByteCode::Nop, ByteCode::Nop, ByteCode::Nop], vec![])
}

#[test]
fn a_new_machine_starts_past_the_null_slot() {
    let mut vm = empty();
    assert_eq!(vm.stack_top(), 1);
    assert_eq!(vm.pop(), Ok(Value::Null));
    assert_eq!(vm.pop(), Err(RuntimeError::StackUnderflow("Attempting to pop")));
    assert_eq!(vm.stack_top(), 0);
}

#[test]
fn pushes_and_pops_are_last_in_first_out() {
    let mut vm = empty();
    assert_eq!(vm.push_int(3), Ok(()));
    assert_eq!(vm.push(Value::FloatValue(1.5f32.to_bits())), Ok(()));
    assert_eq!(vm.peek(), Ok(Value::FloatValue(1.5f32.to_bits())));
    assert_eq!(vm.pop(), Ok(Value::FloatValue(1.5f32.to_bits())));
    assert_eq!(vm.pop(), Ok(Value::IntValue(3)));
    assert_eq!(vm.stack_top(), 1);
}

#[test]
fn dup_and_swap_rearrange_the_top() {
    let mut vm = empty();
    vm.push_int(1).unwrap();
    vm.push_int(2).unwrap();
    vm.swap().unwrap();
    assert_eq!(vm.pop(), Ok(Value::IntValue(1)));
    vm.dup().unwrap();
    assert_eq!(vm.pop(), Ok(Value::IntValue(2)));
    assert_eq!(vm.pop(), Ok(Value::IntValue(2)));
}

#[test]
fn frames_hold_locals() {
    let mut vm = empty();
    assert_eq!(vm.get_stack_frame_start(), Err(RuntimeError::StackFrameMissing));
    assert_eq!(vm.load_local(0), Err(RuntimeError::StackFrameMissing));
    vm.push_stack_frame(3);
    assert_eq!(vm.get_stack_frame_start(), Ok(1));
    assert_eq!(vm.get_stack_frame_size(), Ok(3));
    assert_eq!(vm.stack_top(), 4);
    vm.push_int(42).unwrap();
    vm.store_local(2).unwrap();
    vm.load_local(2).unwrap();
    assert_eq!(vm.pop(), Ok(Value::IntValue(42)));
    assert_eq!(vm.load_at_ptr(3), Value::IntValue(42));
    vm.create_stack_ptr(2, 1).unwrap();
    assert_eq!(vm.pop(), Ok(Value::RefValue { ptr: 3, len: 1 }));
    assert_eq!(vm.pop_stack_frame(), Ok(()));
    assert_eq!(vm.stack_top(), 1);
    assert_eq!(vm.pop_stack_frame(), Err(RuntimeError::StackFrameMissing));
}

#[test]
fn bool_not_flips_truth() {
    let mut vm = empty();
    vm.push_int(0).unwrap();
    vm.bool_not().unwrap();
    assert_eq!(vm.pop(), Ok(Value::IntValue(1)));
    vm.push_int(7).unwrap();
    vm.bool_not().unwrap();
    assert_eq!(vm.pop(), Ok(Value::IntValue(0)));
    vm.push(Value::FloatValue(0)).unwrap();
    assert_eq!(
        vm.bool_not(),
        Err(RuntimeError::TypeMismatch { expected: ValueTypeVariant::Int, got: Value::FloatValue(0) })
    );
}

#[test]
fn integers_convert_to_floats() {
    let mut vm = empty();
    vm.push_int(-7).unwrap();
    vm.i2f().unwrap();
    assert_eq!(vm.pop(), Ok(Value::FloatValue((-7.0f32).to_bits())));
    vm.push_int(16_777_217).unwrap();
    vm.i2f().unwrap();
    assert_eq!(vm.pop(), Ok(Value::FloatValue((16_777_217i32 as f32).to_bits())));
}

#[test]
fn jumps_stay_within_the_program() {
    let mut vm = empty();
    assert_eq!(vm.goto(4), Err(RuntimeError::InstructionPtrOverflow));
    assert_eq!(vm.goto(3), Ok(()));
    assert_eq!(vm.goto(-2), Ok(()));
    vm.push_int(0).unwrap();
    assert_eq!(vm.if_ne(1), Ok(()));
    vm.push_int(0).unwrap();
    assert_eq!(vm.if_eq(1), Ok(()));
    vm.push(Value::FloatValue((-0.0f32).to_bits())).unwrap();
    assert_eq!(vm.if_eq(1), Ok(()));
    vm.push(Value::FloatValue(1.0f32.to_bits())).unwrap();
    assert_eq!(vm.if_eq(5), Ok(()));
    vm.push(Value::FloatValue(1.0f32.to_bits())).unwrap();
    assert_eq!(vm.if_ne(5), Err(RuntimeError::InstructionPtrOverflow));
    vm.push(Value::Null).unwrap();
    assert_eq!(vm.if_eq(0), Err(RuntimeError::TypeMismatch { expected: ValueTypeVariant::Number, got: Value::Null }));
}

#[test]
fn heap_blocks_hold_stored_words() {
    let mut vm = empty();
    vm.heap_alloc(2).unwrap();
    let block = vm.peek().unwrap();
    assert_eq!(block, Value::RefValue { ptr: STACK_SIZE as u32, len: 2 });
    vm.push_int(9).unwrap();
    vm.push(block).unwrap();
    vm.store_offset_local(1).unwrap();
    vm.load_offset_local(1).unwrap();
    assert_eq!(vm.pop(), Ok(Value::IntValue(9)));
    assert_eq!(vm.load_at_ptr(STACK_SIZE + 1), Value::IntValue(9));
    vm.push(block).unwrap();
    assert_eq!(vm.load_offset_local(3), Err(RuntimeError::OffsetOutOfBounds { len: 2, offset: 3 }));
    vm.push_int(5).unwrap();
    vm.push(Value::RefValue { ptr: 0, len: 1 }).unwrap();
    assert_eq!(vm.store_offset_local(0), Err(RuntimeError::NullPtrDeref));
}

#[test]
fn variable_offsets_come_from_the_stack() {
    let mut vm = empty();
    vm.push_stack_frame(2);
    vm.push_int(11).unwrap();
    vm.push(Value::RefValue { ptr: 1, len: 2 }).unwrap();
    vm.push_int(1).unwrap();
    vm.store_var_offset_local(ValueType::Int).unwrap();
    vm.push(Value::RefValue { ptr: 1, len: 2 }).unwrap();
    vm.push_int(1).unwrap();
    vm.load_var_offset_local(ValueType::Int).unwrap();
    assert_eq!(vm.pop(), Ok(Value::IntValue(11)));
    vm.push(Value::Null).unwrap();
    assert_eq!(
        vm.load_var_offset_local(ValueType::Int),
        Err(RuntimeError::TypeMismatch { expected: ValueTypeVariant::Int, got: Value::Null })
    );
}

#[test]
fn dynamic_allocation_refuses_negative_sizes() {
    let mut vm = empty();
    vm.push_int(-1).unwrap();
    assert_eq!(vm.dyn_heap_alloc(), Err(RuntimeError::IllegalAllocSize(-1)));
    vm.push_int(3).unwrap();
    vm.dyn_heap_alloc().unwrap();
    assert_eq!(vm.pop(), Ok(Value::RefValue { ptr: STACK_SIZE as u32, len: 3 }));
}

#[test]
fn a_call_moves_its_arguments_into_the_new_frame() {
    let info = FunctionInfo { index: 0, params_len: 2, start: 2, end: 3 };
    let mut vm = machine(vec![ByteCode::Nop, ByteCode::Nop, ByteCode::StackFrame(3), ByteCode::Nop], vec![("f", info)]);
    vm.push_int(10).unwrap();
    vm.push_int(20).unwrap();
    assert_eq!(vm.call(0), Ok(()));
    assert_eq!(vm.get_stack_frame_start(), Ok(1));
    assert_eq!(vm.stack_top(), 6);
    assert_eq!(vm.pop(), Ok(Value::IntValue(20)));
    assert_eq!(vm.pop(), Ok(Value::IntValue(10)));
}

#[test]
fn returning_nothing_right_after_a_call_restores_the_caller() {
    let info = FunctionInfo { index: 0, params_len: 2, start: 2, end: 3 };
    let mut vm = machine(vec![ByteCode::Nop, ByteCode::Nop, ByteCode::StackFrame(3), ByteCode::Nop], vec![("f", info)]);
    vm.push_int(10).unwrap();
    vm.push_int(20).unwrap();
    assert_eq!(vm.stack_top(), 3);
    vm.call(0).unwrap();
    assert_eq!(vm.ret(0), Ok(()));
    assert_eq!(vm.stack_top(), 1);
    assert_eq!(vm.get_stack_frame_start(), Err(RuntimeError::StackFrameMissing));
    assert_eq!(vm.ret(0), Err(RuntimeError::StackFrameMissing));
}

#[test]
fn a_call_needs_a_frame_instruction() {
    let info = FunctionInfo { index: 0, params_len: 0, start: 1, end: 1 };
    let mut vm = machine(vec![ByteCode::Nop, ByteCode::Nop], vec![("f", info)]);
    assert_eq!(vm.call(0), Err(RuntimeError::StackFrameExpected(ByteCode::Nop)));
}

#[test]
fn floats_convert_to_integers_as_rust_casts_do() {
    let samples: Vec<f32> = vec![
        0.0, -0.0, 1.0, -1.0, 1.9, -1.9, 0.5, -0.99, 123456.78, -8388608.5, 2147483520.0, 2147483648.0, -2147483648.0,
        -2147483904.0, 1e20, -1e20, f32::INFINITY, f32::NEG_INFINITY, f32::NAN, f32::MIN_POSITIVE, 16777216.0, 3e9,
    ];
    for f in samples {
        let mut vm = empty();
        vm.push(Value::FloatValue(f.to_bits())).unwrap();
        vm.f2i().unwrap();
        assert_eq!(vm.pop(), Ok(Value::IntValue(f as i32)), "for {}", f);
    }
    let mut bits: u32 = 12345;
    for _ in 0..500 {
        bits = bits.wrapping_mul(2654435761).wrapping_add(97);
        assert_eq!(tropaion::util::float_bits::i32_of_f32_bits(bits), f32::from_bits(bits) as i32, "for bits {:#x}", bits);
    }
}

#[test]
fn int_float_int_round_trip_is_exact_up_to_two_to_24() {
    let samples: [i32; 9] = [0, 1, -1, 12345, -98765, 8388607, 8388609, 16777216, -16777216];
    for v in samples {
        let mut vm = empty();
        vm.push_int(v).unwrap();
        vm.i2f().unwrap();
        vm.f2i().unwrap();
        assert_eq!(vm.pop(), Ok(Value::IntValue(v)), "for {}", v);
    }
    // Beyond 2^24 the float rounds: 16777217 comes back as 16777216.
    let mut vm = empty();
    vm.push_int(16777217).unwrap();
    vm.i2f().unwrap();
    vm.f2i().unwrap();
    assert_eq!(vm.pop(), Ok(Value::IntValue(16777216)));
}

fn compare(vm: &mut Interpreter, a: Value, b: Value) -> Value {
    vm.push(a).unwrap();
    vm.push(b).unwrap();
    vm.eq().unwrap();
    vm.pop().unwrap()
}

fn store(vm: &mut Interpreter, at: u32, v: Value) {
    vm.push(v).unwrap();
    vm.push(Value::RefValue { ptr: at, len: 1 }).unwrap();
    vm.store_offset_local(0).unwrap();
}

#[test]
fn numbers_compare_by_value() {
    let mut vm = empty();
    assert_eq!(compare(&mut vm, Value::IntValue(3), Value::IntValue(3)), Value::IntValue(1));
    assert_eq!(compare(&mut vm, Value::IntValue(3), Value::IntValue(4)), Value::IntValue(0));
    assert_eq!(compare(&mut vm, Value::FloatValue(0.0f32.to_bits()), Value::FloatValue((-0.0f32).to_bits())), Value::IntValue(1));
    assert_eq!(compare(&mut vm, Value::FloatValue(f32::NAN.to_bits()), Value::FloatValue(f32::NAN.to_bits())), Value::IntValue(0));
    assert_eq!(compare(&mut vm, Value::Null, Value::Null), Value::IntValue(1));
    assert_eq!(compare(&mut vm, Value::Null, Value::IntValue(0)), Value::IntValue(0));
    vm.push(Value::IntValue(1)).unwrap();
    vm.push(Value::IntValue(2)).unwrap();
    vm.ne().unwrap();
    assert_eq!(vm.pop(), Ok(Value::IntValue(1)));
}

#[test]
fn references_compare_by_their_words() {
    let mut vm = empty();
    vm.push_stack_frame(10);
    store(&mut vm, 2, Value::IntValue(7));
    store(&mut vm, 3, Value::IntValue(8));
    store(&mut vm, 5, Value::IntValue(7));
    store(&mut vm, 6, Value::IntValue(8));
    store(&mut vm, 8, Value::IntValue(9));
    assert_eq!(compare(&mut vm, Value::RefValue { ptr: 2, len: 2 }, Value::RefValue { ptr: 5, len: 2 }), Value::IntValue(1));
    assert_eq!(compare(&mut vm, Value::RefValue { ptr: 2, len: 2 }, Value::RefValue { ptr: 7, len: 2 }), Value::IntValue(0));
    assert_eq!(compare(&mut vm, Value::RefValue { ptr: 2, len: 2 }, Value::RefValue { ptr: 2, len: 3 }), Value::IntValue(0));
    assert_eq!(compare(&mut vm, Value::RefValue { ptr: 2, len: 1 }, Value::IntValue(7)), Value::IntValue(1));
    assert_eq!(compare(&mut vm, Value::IntValue(8), Value::RefValue { ptr: 3, len: 1 }), Value::IntValue(1));
}

#[test]
fn cyclic_references_terminate() {
    let mut vm = empty();
    vm.push_stack_frame(10);
    store(&mut vm, 2, Value::RefValue { ptr: 2, len: 1 });
    store(&mut vm, 3, Value::RefValue { ptr: 3, len: 1 });
    assert_eq!(compare(&mut vm, Value::RefValue { ptr: 2, len: 1 }, Value::RefValue { ptr: 3, len: 1 }), Value::IntValue(1));
    let mut seen = std::collections::HashSet::new();
    assert_eq!(vm.try_deref(Value::RefValue { ptr: 2, len: 1 }, &mut seen), None);
    let mut fresh = std::collections::HashSet::new();
    assert_eq!(vm.try_deref(Value::RefValue { ptr: 4, len: 1 }, &mut fresh), Some(Value::Null));
    assert_eq!(compare(&mut vm, Value::RefValue { ptr: 2, len: 1 }, Value::IntValue(0)), Value::IntValue(0));
}

#[test]
fn returned_references_into_the_frame_move_to_the_heap() {
    let info = FunctionInfo { index: 0, params_len: 0, start: 2, end: 3 };
    let mut vm = machine(vec![ByteCode::Nop, ByteCode::Nop, ByteCode::StackFrame(2), ByteCode::Nop], vec![("f", info)]);
    assert_eq!(vm.call(0), Ok(()));
    vm.push_int(42).unwrap();
    vm.store_local(0).unwrap();
    vm.create_stack_ptr(0, 1).unwrap();
    assert_eq!(vm.ret(1), Ok(()));
    assert_eq!(vm.stack_top(), 2);
    assert_eq!(vm.get_stack_frame_start(), Err(RuntimeError::StackFrameMissing));
    let moved = vm.pop().unwrap();
    assert_eq!(moved, Value::RefValue { ptr: STACK_SIZE as u32, len: 1 });
    assert_eq!(vm.load_at_ptr(STACK_SIZE), Value::IntValue(42));
}

#[test]
fn plain_values_return_as_they_are() {
    let info = FunctionInfo { index: 0, params_len: 1, start: 1, end: 2 };
    let mut vm = machine(vec![ByteCode::Nop, ByteCode::StackFrame(1), ByteCode::Nop], vec![("g", info)]);
    vm.push_int(5).unwrap();
    vm.call(0).unwrap();
    vm.push_int(9).unwrap();
    assert_eq!(vm.ret(2), Ok(()));
    assert_eq!(vm.pop(), Ok(Value::IntValue(9)));
    assert_eq!(vm.pop(), Ok(Value::IntValue(5)));
}

#[test]
fn returning_needs_a_frame_and_a_caller() {
    let mut vm = empty();
    assert_eq!(vm.ret(0), Err(RuntimeError::StackFrameMissing));
    vm.push_stack_frame(0);
    assert_eq!(vm.ret(0), Err(RuntimeError::EmptyCallstack));
}
