use tropaion::compiler::bytecode::ByteCode;
use tropaion::error::context::ErrorContext;
use tropaion::error::ok;
use tropaion::interpreter::runtime_error_context::RuntimeErrorContext;
use tropaion::error::runtime_error::{RuntimeError, ValueTypeVariant};
use tropaion::interpreter::bytecode_counter::get_count;
use tropaion::interpreter::profiling::{addresses_of_line, escape_html, ProfilingData};
use tropaion::interpreter::value::{Value, ValueType};
use tropaion::memory_blob::MemoryBlob;

#[test]
fn instruction_costs() {
    assert_eq!(get_count(&ByteCode::Nop), 1);
    assert_eq!(get_count(&ByteCode::Add), 5);
    assert_eq!(get_count(&ByteCode::Mul), 8);
    assert_eq!(get_count(&ByteCode::Div), 10);
    assert_eq!(get_count(&ByteCode::StackFrame(4)), 12);
    assert_eq!(get_count(&ByteCode::Ret(3)), 23);
    assert_eq!(get_count(&ByteCode::HeapAlloc(10)), 70);
    assert_eq!(get_count(&ByteCode::DynHeapAlloc), 80);
    assert_eq!(get_count(&ByteCode::Comment("x".to_string())), 0);
}

#[test]
fn reads_a_memory_blob() {
    let mut blob = MemoryBlob::new(vec![Value::IntValue(3), Value::FloatValue(1.5f32.to_bits()), Value::Null]);
    assert_eq!(blob.next_int(), Ok(3));
    assert_eq!(f32::from_bits(blob.next_float().unwrap()), 1.5);
    assert_eq!(blob.expect_end(), Err(RuntimeError::DanglingValue));
    assert_eq!(blob.next_int(), Err(RuntimeError::TypeMismatch { expected: ValueTypeVariant::Int, got: Value::Null }));
    assert_eq!(blob.expect_end(), Ok(()));
    assert_eq!(blob.next_int(), Err(RuntimeError::StackUnderflow("")));
}

#[test]
fn float_read_of_an_int_is_a_mismatch() {
    let mut blob = MemoryBlob::new(vec![Value::IntValue(3)]);
    assert_eq!(blob.next_float(), Err(RuntimeError::TypeMismatch { expected: ValueTypeVariant::Float, got: Value::IntValue(3) }));
}

#[test]
fn value_kinds() {
    assert!(ValueType::Int.assignable(&Value::IntValue(1)));
    assert!(!ValueType::Int.assignable(&Value::Null));
    assert!(ValueType::Address.assignable(&Value::RefValue { ptr: 1, len: 2 }));
    assert_eq!(ValueTypeVariant::of(ValueType::Float), ValueTypeVariant::Float);
    assert_eq!(Value::IntValue(7).try_as_int(), 7);
    assert_eq!(Value::FloatValue(9).try_as_float(), 9);
    assert_eq!(ok::<RuntimeError>(), Ok(()));
}

#[test]
fn records_profiles() {
    let mut p = ProfilingData::new();
    p.record(0, "Add", 1, 5);
    p.record(1, "Mul", 1, 8);
    p.record(0, "Add", 2, 5);
    assert_eq!(p.total_cost, 18);
    assert_eq!(p.insn_count, 3);
    assert_eq!(p.by_instruction, vec![("Add".to_string(), 10), ("Mul".to_string(), 8)]);
    assert_eq!(p.by_line.get(&1), Some(&13));
    assert_eq!(p.by_line.get(&2), Some(&5));
    assert_eq!(p.insn_stats.get(&0), Some(&(2, 10)));
    assert_eq!(p.insn_stats.get(&1), Some(&(1, 8)));
}

#[test]
fn escapes_html() {
    assert_eq!(escape_html("a<b>&c"), "a&lt;b&gt;&amp;c");
    assert_eq!(escape_html(""), "");
}

#[test]
fn runtime_error_backtrace() {
    let ctx = ErrorContext::line(RuntimeError::NullPtrDeref, 3);
    let rc = RuntimeErrorContext::new(ctx, vec![("main".to_string(), 3), ("f".to_string(), 10)]);
    assert_eq!(
        rc.format("E", vec![]),
        "E on line 3\n\nstack backtrace:\n    0: main\n        at line 3\n    1: f\n        at line 10\n"
    );
    let rc = RuntimeErrorContext::new(ErrorContext::unknown(RuntimeError::EmptyCallstack), vec![]);
    assert_eq!(rc.format("X", vec![]), "X\n\nstack backtrace:\n");
}

#[test]
fn instructions_are_grouped_by_source_line_in_program_order() {
    let lines = [0usize, 1, 1, 0, 2, 1];
    assert_eq!(addresses_of_line(&lines, 1), vec![1, 2, 5]);
    assert_eq!(addresses_of_line(&lines, 0), vec![0, 3]);
    assert_eq!(addresses_of_line(&lines, 2), vec![4]);
    assert!(addresses_of_line(&lines, 7).is_empty());
}
