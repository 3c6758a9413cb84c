use tropaion::analysis::type_registry::TypeRegistry;
use tropaion::ast::ast_type::AstType;
use tropaion::compiler::bytecode::ByteCode;
use tropaion::compiler::codegen::BytecodeGen;
use tropaion::error::compilation_error::CompilationError;
use tropaion::error::context::Span;
use tropaion::error::runtime_error::ValueTypeVariant;

#[test]
fn skippable_scope_and_exit_jump_land_after_the_scope() {
    let reg = TypeRegistry::new();
    let mut gen = BytecodeGen::new("fn f() {}".chars().collect());
    gen.register_func("f".to_string(), 1);
    gen.fn_start("f".to_string());
    gen.i_const(1);
    gen.new_skippable_scope_eq();
    gen.push_scope_exit_insn();
    gen.i_const(2);
    assert_eq!(gen.end_scope(), Ok(()));
    assert_eq!(
        gen.instructions,
        vec![ByteCode::StackFrame(0), ByteCode::IConst(1), ByteCode::IfEq(2), ByteCode::Goto(1), ByteCode::IConst(2)]
    );
    assert_eq!(gen.fn_end("f".to_string(), &reg), Ok(()));
    let info = *gen.functions.get("f").unwrap();
    assert_eq!((info.index, info.params_len, info.start, info.end), (0, 1, 0, 5));
}

#[test]
fn loop_jumps_back_to_its_start() {
    let mut gen = BytecodeGen::new(vec![]);
    gen.nop();
    gen.new_scope();
    gen.nop();
    assert_eq!(gen.get_scope_start_offset(), Ok(-2));
    gen.push_goto_scope_start_insn();
    assert_eq!(gen.instructions[2], ByteCode::Goto(-2));
    assert_eq!(gen.end_scope(), Ok(()));
    assert_eq!(gen.get_scope_start_offset(), Err(CompilationError::MissingScope));
}

#[test]
fn closing_a_plain_scope_as_skippable_reports_the_instruction() {
    let mut gen = BytecodeGen::new(vec![]);
    gen.new_skippable_scope_ne();
    gen.pop_insn();
    gen.nop();
    assert_eq!(gen.end_scope(), Err(CompilationError::ExpectedComparison(ByteCode::Nop)));
}

#[test]
fn stores_and_loads_variables() {
    let mut reg = TypeRegistry::new();
    let int = reg.register(AstType::Int);
    let float = reg.register(AstType::Float);
    let tuple = reg.register(AstType::TupleType(vec![int, float]));
    let mut gen = BytecodeGen::new(vec![]);
    gen.new_scope();
    assert_eq!(gen.store_new_var("x".to_string(), &reg, int), Ok(()));
    gen.i_load("x".to_string());
    assert_eq!(gen.store_value(&reg, &"x".to_string(), int), Ok(()));
    assert_eq!(gen.store_value(&reg, &"y".to_string(), int), Err(CompilationError::MissingVariable("y".to_string())));
    assert_eq!(gen.store_new_var("t".to_string(), &reg, tuple), Ok(()));
    assert_eq!(gen.store_new_var("x".to_string(), &reg, float), Ok(()));
    assert_eq!(
        gen.instructions,
        vec![
            ByteCode::IStore(0),
            ByteCode::ILoad(0),
            ByteCode::IStore(0),
            ByteCode::FStore(2),
            ByteCode::IStore(1),
            ByteCode::CreateStackPtr { offset: 1, consume_words: 2 },
            ByteCode::AStore(3),
            ByteCode::FStore(0),
        ]
    );
}

#[test]
fn boxed_values_get_locals_when_the_function_ends() {
    let mut reg = TypeRegistry::new();
    let int = reg.register(AstType::Int);
    let mut gen = BytecodeGen::new(vec![]);
    gen.register_func("g".to_string(), 0);
    gen.fn_start("g".to_string());
    assert_eq!(gen.store_boxed_value(&reg, int), Ok(()));
    assert_eq!(gen.instructions, vec![ByteCode::StackFrame(0), ByteCode::Nop, ByteCode::Nop]);
    assert_eq!(gen.fn_end("g".to_string(), &reg), Ok(()));
    assert_eq!(
        gen.instructions,
        vec![ByteCode::StackFrame(1), ByteCode::IStore(0), ByteCode::CreateStackPtr { offset: 0, consume_words: 1 }]
    );
}

#[test]
fn offsets_calls_and_returns() {
    let mut reg = TypeRegistry::new();
    let float = reg.register(AstType::Float);
    let arr = reg.register(AstType::ArrayType { underlying: float });
    let mut gen = BytecodeGen::new(vec![]);
    gen.register_func("a".to_string(), 0);
    gen.register_func("b".to_string(), 2);
    assert_eq!(gen.store_offset_value(&reg, 3, float), Ok(()));
    assert_eq!(gen.load_offset_value(&reg, 4, arr), Ok(()));
    assert_eq!(gen.store_var_offset(&reg, float), Ok(()));
    assert_eq!(gen.load_var_offset(&reg, arr), Ok(()));
    gen.call(&"b".to_string());
    gen.ret(5);
    gen.ret(70_000);
    gen.f_const(1.5f32.to_bits());
    gen.heap_alloc(8);
    assert_eq!(
        gen.instructions,
        vec![
            ByteCode::FStoreOffset(3),
            ByteCode::ALoadOffset(4),
            ByteCode::FStoreVarOffset,
            ByteCode::ALoadVarOffset,
            ByteCode::Call(1),
            ByteCode::Ret(5),
            ByteCode::RetLong(70_000),
            ByteCode::FConst(1.5f32.to_bits()),
            ByteCode::HeapAlloc(8),
        ]
    );
}

#[test]
fn instructions_carry_the_line_of_their_span() {
    let mut gen = BytecodeGen::new("a\nb\nc".chars().collect());
    gen.add();
    gen.push_span(Span::new(2, 3));
    gen.sub();
    gen.push_span(Span::new(4, 5));
    gen.mul();
    gen.pop_span();
    gen.div();
    gen.pop_span();
    gen.modulo();
    assert_eq!(gen.lines, vec![0, 2, 3, 2, 0]);
    assert_eq!(gen.instructions, vec![ByteCode::Add, ByteCode::Sub, ByteCode::Mul, ByteCode::Div, ByteCode::Mod]);
    gen.pop_insn();
    assert_eq!(gen.lines, vec![0, 2, 3, 2]);
}

#[test]
fn compilation_error_messages() {
    let reg = TypeRegistry::new();
    assert_eq!(CompilationError::illegal_call(AstType::Int, &reg), CompilationError::IllegalCall("int".to_string()));
    assert_eq!(CompilationError::illegal_indexing(AstType::Bool, &reg), CompilationError::IllegalIndexing("bool".to_string()));
    assert_eq!(
        CompilationError::type_mismatch(ValueTypeVariant::Int, AstType::Float, &reg),
        CompilationError::TypeMismatch { expected: ValueTypeVariant::Int, got: "float".to_string() }
    );
}
