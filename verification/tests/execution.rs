use std::collections::HashMap;
use tropaion::compiler::bytecode::ByteCode;
use tropaion::compiler::compiler::CompilationResult;
use tropaion::error::runtime_error::RuntimeError;
use tropaion::interpreter::interpreter::Interpreter;
use tropaion::interpreter::value::Value;
use tropaion::interpreter::profiling::ProfilingData;

fn empty() -> Interpreter {
    Interpreter::new(CompilationResult { instructions: vec![ByteCode::Nop], lines: vec![1], functions: HashMap::new() })
}

fn run(vm: &mut Interpreter, insns: Vec<ByteCode>) {
    for i in insns {
        vm.execute(i).unwrap();
    }
}

#[test]
fn arithmetic_instructions_compute_on_the_two_top_integers() {
    let mut vm = empty();
    run(&mut vm, vec![ByteCode::IConst(6), ByteCode::IConst(7), ByteCode::Mul]);
    assert_eq!(vm.pop(), Ok(Value::IntValue(42)));
    run(&mut vm, vec![ByteCode::IConst(-7), ByteCode::IConst(2), ByteCode::Div]);
    assert_eq!(vm.pop(), Ok(Value::IntValue(-3)));
    run(&mut vm, vec![ByteCode::IConst(-7), ByteCode::IConst(2), ByteCode::Mod]);
    assert_eq!(vm.pop(), Ok(Value::IntValue(-1)));
    run(&mut vm, vec![ByteCode::IConst(10), ByteCode::IConst(4), ByteCode::Sub]);
    assert_eq!(vm.pop(), Ok(Value::IntValue(6)));
}

#[test]
fn comparison_and_conversion_instructions_dispatch() {
    let mut vm = empty();
    run(&mut vm, vec![ByteCode::IConst(3), ByteCode::IConst(3), ByteCode::CmpEq]);
    assert_eq!(vm.pop(), Ok(Value::IntValue(1)));
    run(&mut vm, vec![ByteCode::IConst(3), ByteCode::I2F, ByteCode::F2I]);
    assert_eq!(vm.pop(), Ok(Value::IntValue(3)));
    run(&mut vm, vec![ByteCode::IConst(0), ByteCode::BoolNot]);
    assert_eq!(vm.pop(), Ok(Value::IntValue(1)));
}

#[test]
fn a_frame_instruction_outside_a_call_is_refused() {
    let mut vm = empty();
    assert_eq!(vm.execute(ByteCode::StackFrame(2)), Err(RuntimeError::UnexpectedStackFrame));
    assert_eq!(vm.execute(ByteCode::Pop), Ok(()));
    assert_eq!(vm.execute(ByteCode::Pop), Err(RuntimeError::StackUnderflow("Attempting to pop")));
}

#[test]
fn profiling_totals_equal_the_sums_of_the_tables() {
    let mut p = ProfilingData::new();
    p.record(0, "IConst", 1, 2);
    p.record(1, "IConst", 1, 2);
    p.record(2, "Add", 2, 5);
    p.record(0, "IConst", 1, 2);
    let by_name: u64 = p.by_instruction.iter().map(|(_, c)| *c).sum();
    let by_line: u64 = p.by_line.values().sum();
    let by_addr: u64 = p.insn_stats.values().map(|(_, c)| *c).sum();
    let runs: u64 = p.insn_stats.values().map(|(n, _)| *n).sum();
    assert_eq!(p.total_cost, 11);
    assert_eq!(by_name, p.total_cost);
    assert_eq!(by_line, p.total_cost);
    assert_eq!(by_addr, p.total_cost);
    assert_eq!(runs, p.insn_count);
    assert_eq!(p.insn_count, 4);
}
