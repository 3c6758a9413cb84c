use std::collections::HashMap;
use tropaion::analysis::mangling::{from_owner, mangle_name, mangle_name_type};
use tropaion::analysis::operator_table::OperatorTable;
use tropaion::analysis::symbol_table::{SymbolTable, TypeSymTable};
use tropaion::analysis::type_registry::{TypeEntry, TypeRegistry};
use tropaion::ast::ast_type::AstType;
use tropaion::ast::modifier::Modifier;
use tropaion::ast::statement::Parameter;
use tropaion::compiler::compiler::CompilationResult;
use tropaion::completion::code_completion::{method_is_public, find_member_dot, identifier_before, is_ident_byte, is_within_cursor};
use tropaion::completion::completion_type::CompletionType;
use tropaion::error::analysis_error::AnalysisError;
use tropaion::error::context::Span;
use tropaion::error::runtime_error::ValueTypeVariant;
use tropaion::interpreter::interpreter_builder::InterpreterBuilder;
use tropaion::intrinsics::builtin_injector::inject_default_panic;
use tropaion::intrinsics::type_injector::{get_injected_function_identifiers, get_injected_functions, get_injected_structs};
use tropaion::lexer::token::SimpleToken;

#[test]
fn registry_gives_back_what_was_registered() {
    let mut reg = TypeRegistry::new();
    let a = reg.register(AstType::Int);
    let b = reg.register(AstType::Bool);
    assert_eq!(a.key, 0);
    assert_eq!(b.key, 1);
    assert_eq!(a.get(&reg), AstType::Int);
    assert_eq!(b.get(&reg), AstType::Bool);
    assert_eq!(reg.get(7), AstType::UnknownType);
    a.mutate(&mut reg, AstType::Float);
    assert_eq!(a.get(&reg), AstType::Float);
    let c = a.new_instance(&mut reg);
    assert_eq!(c.key, 2);
    assert_eq!(c.get(&reg), AstType::Float);
    let e = TypeEntry::err(&mut reg);
    assert!(e.is_err(&reg));
    assert!(!a.is_err(&reg));
}

#[test]
fn formats_types() {
    let mut reg = TypeRegistry::new();
    let int = reg.register(AstType::Int);
    let boolean = reg.register(AstType::Bool);
    assert_eq!(AstType::NullableType { underlying: int }.format(&reg), "int?");
    assert_eq!(AstType::ArrayType { underlying: int }.format(&reg), "[int]");
    assert_eq!(AstType::ReferenceType { underlying: boolean }.format(&reg), "&bool");
    assert_eq!(AstType::TupleType(vec![int, boolean]).format(&reg), "(int, bool)");
    assert_eq!(AstType::TupleType(vec![]).format(&reg), "()");
    assert_eq!(AstType::UnknownType.format(&reg), "$unknown$");
    assert_eq!(AstType::SymbolType { name: "Foo".to_string(), generics: vec![] }.format(&reg), "$symbol-Foo$");
    assert_eq!(int.format(&reg), "int");
}

#[test]
fn compares_types() {
    let mut reg = TypeRegistry::new();
    let int = reg.register(AstType::Int);
    let int2 = reg.register(AstType::Int);
    let boolean = reg.register(AstType::Bool);
    let n1 = AstType::NullableType { underlying: int };
    let n2 = AstType::NullableType { underlying: int2 };
    assert!(n1.equals(&n2, &reg));
    assert!(!n1.equals(&AstType::NullableType { underlying: boolean }, &reg));
    assert!(!AstType::Int.equals(&AstType::UnknownType, &reg));
    assert!(AstType::Int.loose_equals(&AstType::UnknownType, &reg));
    assert!(AstType::TupleType(vec![int, boolean]).equals(&AstType::TupleType(vec![int2, boolean]), &reg));
    assert!(!AstType::TupleType(vec![int]).equals(&AstType::TupleType(vec![int, boolean]), &reg));
}

#[test]
fn names_types_for_mangling() {
    let mut reg = TypeRegistry::new();
    let int = reg.register(AstType::Int);
    let float = reg.register(AstType::Float);
    assert_eq!(AstType::Void.get_type_name(&reg), "V");
    assert_eq!(AstType::ArrayType { underlying: int }.get_type_name(&reg), "Ai;");
    assert_eq!(AstType::TupleType(vec![int, float]).get_type_name(&reg), "Tif;");
    assert_eq!(AstType::NullableType { underlying: float }.get_type_name(&reg), "f");
    assert_eq!(AstType::SymbolType { name: "S".to_string(), generics: vec![] }.get_type_name(&reg), "LS;");
    assert_eq!(AstType::UnknownType.get_type_name(&reg), "?");
    assert_eq!(AstType::Void.word_size(&reg), 0);
    assert_eq!(AstType::TupleType(vec![int, float]).word_size(&reg), 1);
}

#[test]
fn mangles_function_names() {
    let mut reg = TypeRegistry::new();
    let int = reg.register(AstType::Int);
    let boolean = reg.register(AstType::Bool);
    let float = reg.register(AstType::Float);
    assert_eq!(from_owner("f".to_string(), "".to_string()), "f");
    assert_eq!(from_owner("f".to_string(), "S".to_string()), "S$f");
    assert_eq!(mangle_name_type(&reg, "f".to_string(), "".to_string(), &vec![int, boolean], None), "f_ib");
    assert_eq!(mangle_name_type(&reg, "f".to_string(), "S".to_string(), &vec![int], Some(float)), "S$f_if");
    let params = vec![
        Parameter { name: "a".to_string(), param_type: int },
        Parameter { name: "b".to_string(), param_type: float },
    ];
    assert_eq!(mangle_name(&reg, "g".to_string(), "".to_string(), &params, None), "g_if");
    let err = TypeEntry::err(&mut reg);
    assert_eq!(mangle_name_type(&reg, "f".to_string(), "".to_string(), &vec![int, err, boolean], None), "f_i_<err>");
}

#[test]
fn assigns_types() {
    let mut reg = TypeRegistry::new();
    let int = reg.register(AstType::Int);
    let unknown = reg.register(AstType::UnknownType);
    assert_eq!(AstType::Int.get_assign_result(AstType::Int, &mut reg), Some(AstType::Int));
    assert_eq!(AstType::Float.get_assign_result(AstType::Int, &mut reg), Some(AstType::Float));
    assert_eq!(AstType::UnknownType.get_assign_result(AstType::Bool, &mut reg), Some(AstType::Bool));
    assert_eq!(AstType::Bool.get_assign_result(AstType::UnknownType, &mut reg), Some(AstType::Bool));
    assert_eq!(AstType::Bool.get_assign_result(AstType::Int, &mut reg), None);

    let r = AstType::NullableType { underlying: unknown }.get_assign_result(AstType::Int, &mut reg);
    match r {
        Some(AstType::NullableType { underlying }) => {
            assert_eq!(underlying.key, 2);
            assert_eq!(underlying.get(&reg), AstType::Int);
        },
        other => panic!("unexpected {:?}", other),
    }
    let r = AstType::NullableType { underlying: int }.get_assign_result(AstType::Int, &mut reg);
    match r {
        Some(AstType::NullableType { underlying }) => {
            assert_eq!(underlying.key, 3);
            assert_eq!(underlying.get(&reg), AstType::Int);
        },
        other => panic!("unexpected {:?}", other),
    }
    let n = AstType::NullableType { underlying: int };
    assert_eq!(n.get_assign_result(AstType::NullableType { underlying: unknown }, &mut reg), Some(AstType::NullableType { underlying: int }));
}

#[test]
fn operator_results() {
    let mut reg = TypeRegistry::new();
    let int = reg.register(AstType::Int);
    let boolean = reg.register(AstType::Bool);
    let string = reg.register(AstType::StringType);
    let nullable = reg.register(AstType::NullableType { underlying: int });
    let table = OperatorTable::new();
    assert_eq!(table.get_op_result(&reg, int, SimpleToken::Plus, int), Ok(AstType::Int));
    assert_eq!(table.get_op_result(&reg, int, SimpleToken::Less, int), Ok(AstType::Bool));
    assert_eq!(table.get_op_result(&reg, int, SimpleToken::Equals, int), Ok(AstType::Bool));
    assert_eq!(table.get_op_result(&reg, boolean, SimpleToken::BoolAnd, boolean), Ok(AstType::Bool));
    assert_eq!(table.get_op_result(&reg, string, SimpleToken::Plus, string), Ok(AstType::StringType));
    assert_eq!(table.get_op_result(&reg, nullable, SimpleToken::TwoQuestion, int), Ok(AstType::Int));
    assert_eq!(
        table.get_op_result(&reg, int, SimpleToken::Plus, boolean),
        Err(AnalysisError::IllegalBinaryExpression { left: "int".to_string(), op: SimpleToken::Plus, right: "bool".to_string() })
    );
    assert_eq!(
        table.get_op_result(&reg, nullable, SimpleToken::TwoQuestion, nullable),
        Err(AnalysisError::IllegalBinaryExpression { left: "int?".to_string(), op: SimpleToken::TwoQuestion, right: "int?".to_string() })
    );
    assert_eq!(table.lookup(1, SimpleToken::Star, 1), Some(1));
    assert_eq!(table.lookup(0, SimpleToken::Star, 0), None);
}

#[test]
fn analysis_error_messages() {
    let mut reg = TypeRegistry::new();
    let int = reg.register(AstType::Int);
    let boolean = reg.register(AstType::Bool);
    let params = vec![
        Parameter { name: "a".to_string(), param_type: int },
        Parameter { name: "b".to_string(), param_type: boolean },
    ];
    assert_eq!(AnalysisError::function_already_defined("f".to_string(), &params, &reg), AnalysisError::FunctionAlreadyDefined("f(int, bool)".to_string()));
    assert_eq!(AnalysisError::function_already_defined("f".to_string(), &vec![], &reg), AnalysisError::FunctionAlreadyDefined("f()".to_string()));
    assert_eq!(
        AnalysisError::illegal_func_args("g".to_string(), &vec![int, boolean, int], &reg),
        AnalysisError::IllegalFuncArgs { func_name: "g".to_string(), args: "int, bool, int".to_string() }
    );
    assert_eq!(AnalysisError::illegal_null_deref(int, &reg), AnalysisError::IllegalNullDeref("int".to_string()));
    assert_eq!(AnalysisError::illegal_call(boolean, &reg), AnalysisError::IllegalCall { called_type: "bool".to_string() });
    assert_eq!(AnalysisError::illegal_indexing(int, &reg), AnalysisError::IllegalIndexing { typ: "int".to_string() });
    assert_eq!(AnalysisError::illegal_member_access(int, &reg), AnalysisError::IllegalMemberAccess("int".to_string()));
    assert_eq!(
        AnalysisError::type_mismatch(ValueTypeVariant::Int, boolean, &reg),
        AnalysisError::TypeMismatch { expected: ValueTypeVariant::Int, got: "bool".to_string() }
    );
    assert_eq!(
        AnalysisError::illegal_type_assignment(int, boolean, &reg),
        AnalysisError::IllegalTypeAssignment { expected_type: "int".to_string(), tried: "bool".to_string() }
    );
}

#[test]
fn symbol_scopes() {
    let mut table: SymbolTable<u32, bool> = SymbolTable::new();
    table.record("a".to_string(), 1);
    assert_eq!(table.get("a".to_string()), Some(1));
    assert!(table.contains(&"a".to_string()));
    table.push();
    assert!(!table.contains_in_current(&"a".to_string()));
    table.record_with_info("a".to_string(), 2, true);
    assert_eq!(table.get("a".to_string()), Some(2));
    assert_eq!(table.get_with_info("a".to_string()), Some((2, Some(true))));
    table.pop();
    assert_eq!(table.get("a".to_string()), Some(1));
    assert_eq!(table.get_with_info("a".to_string()), Some((1, None)));
    assert_eq!(table.get("b".to_string()), None);

    let mut types: TypeSymTable = SymbolTable::new();
    assert_eq!(types.get_return_type(), None);
    types.record_return_type(TypeEntry { key: 4 });
    types.push();
    assert_eq!(types.get_return_type(), Some(TypeEntry { key: 4 }));
}

#[test]
fn injected_intrinsics() {
    let ids = get_injected_function_identifiers();
    assert_eq!(ids, vec![("int_f", 1), ("float_i", 1), ("__heap_alloc_i", 1), ("address$__load_at_i", 2), ("address$__store_at_ig", 3)]);

    let mut reg = TypeRegistry::new();
    let structs = get_injected_structs(&mut reg);
    assert_eq!(structs.len(), 1);
    assert_eq!(structs[0].format(&reg), "address");
    assert_eq!(reg.register(AstType::Void).key, 10);

    let mut reg = TypeRegistry::new();
    let funcs = get_injected_functions(&mut reg);
    assert_eq!(funcs.len(), 3);
    assert_eq!(funcs[0].format(&reg), "__heap_alloc(int)");
    assert_eq!(funcs[1].format(&reg), "int(float)");
    assert_eq!(funcs[2].format(&reg), "float(int)");
    match &funcs[1] {
        AstType::FunctionType { modifier, params, return_type, .. } => {
            assert_eq!(*modifier, Modifier::new());
            assert_eq!(params.len(), 1);
            assert_eq!(return_type.get(&reg), AstType::Int);
        },
        other => panic!("unexpected {:?}", other),
    }
    assert_eq!(reg.register(AstType::Void).key, 16);

    let mut src = "x".to_string();
    inject_default_panic(&mut src);
    assert_eq!(src, "x\n        fn panic() {\n            panic(\"Explicit panic!\"); \n        }\n    ");
}

#[test]
fn completion_helpers() {
    assert_eq!(find_member_dot("foo.ba", 6), Some(3));
    assert_eq!(find_member_dot("foo. ba", 100), Some(3));
    assert_eq!(find_member_dot("foo..ba", 7), None);
    assert_eq!(find_member_dot("foo ba", 6), None);
    assert_eq!(identifier_before("let foo.ba", 7), Some("foo".to_string()));
    assert_eq!(identifier_before(" .x", 1), None);
    assert!(is_ident_byte(b'_'));
    assert!(!is_ident_byte(b'.'));
    assert!(is_within_cursor(3, Span::new(2, 4)));
    assert!(!is_within_cursor(4, Span::new(2, 4)));
    assert_eq!(CompletionType::KwControl.as_string(), "kw_control");
    assert_eq!(CompletionType::EnumValue.as_string(), "enum_value");
}

#[test]
fn builder_settings() {
    let result = CompilationResult { instructions: vec![], lines: vec![], functions: HashMap::new() };
    let b = InterpreterBuilder::new(result);
    assert_eq!(b.settings(), (10_000, 100_000, 1_000_000, false));
    let b = b.stack_size(5).heap_size(6).max_instruction_cost(7).with_profiling();
    assert_eq!(b.settings(), (5, 6, 7, true));
}

#[test]
fn modifiers() {
    let m = Modifier::new();
    assert!(!m.has_visibility());
    assert!(m.with_public().is_public());
    assert!(m.with_static().is_static());
}

#[test]
fn public_methods() {
    let mut reg = TypeRegistry::new();
    let void = reg.register(AstType::Void);
    let public = reg.register(AstType::FunctionType {
        name: "f".to_string(),
        modifier: Modifier::new().with_public(),
        generics: ordermap::OrderMap::new(),
        params: vec![],
        return_type: void,
    });
    let private = reg.register(AstType::FunctionType {
        name: "g".to_string(),
        modifier: Modifier::new(),
        generics: ordermap::OrderMap::new(),
        params: vec![],
        return_type: void,
    });
    let both = reg.register(AstType::FunctionsType { name: "f".to_string(), overloads: vec![private, public] });
    let only_private = reg.register(AstType::FunctionsType { name: "g".to_string(), overloads: vec![private] });
    assert!(method_is_public(public, &reg));
    assert!(!method_is_public(private, &reg));
    assert!(method_is_public(both, &reg));
    assert!(!method_is_public(only_private, &reg));
    assert!(!method_is_public(void, &reg));
}

#[test]
fn address_struct_has_its_two_methods() {
    let mut reg = TypeRegistry::new();
    let structs = get_injected_structs(&mut reg);
    match &structs[0] {
        AstType::StructType { children, fields, .. } => {
            assert!(fields.is_empty());
            assert_eq!(children.len(), 2);
            let load = children.get("__load_at").unwrap();
            assert_eq!((load.typ.key, load.name.as_str(), load.index), (3, "__load_at", 1));
            let store = children.get("__store_at").unwrap();
            assert_eq!((store.typ.key, store.name.as_str(), store.index), (9, "__store_at", 2));
            match store.typ.get(&reg) {
                AstType::FunctionsType { overloads, .. } => match overloads[0].get(&reg) {
                    AstType::FunctionType { generics, params, return_type, .. } => {
                        assert_eq!(generics.len(), 1);
                        assert_eq!(generics.get("T").unwrap().key, 4);
                        assert_eq!(params[0].get(&reg), AstType::Int);
                        assert_eq!(params[1].get(&reg), AstType::GenericType { name: "T".to_string() });
                        assert_eq!(return_type.get(&reg), AstType::Void);
                    },
                    other => panic!("unexpected {:?}", other),
                },
                other => panic!("unexpected {:?}", other),
            }
            assert_eq!(load.typ.get(&reg).format(&reg), "__load_at(..)");
        },
        other => panic!("unexpected {:?}", other),
    }
}
