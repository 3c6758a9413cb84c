use tropaion::analysis::type_registry::TypeRegistry;
use tropaion::ast::ast_type::AstType;

#[test]
fn loosely_a_plain_type_matches_a_nullable_whose_inner_type_matches_itself() {
    let mut registry = TypeRegistry::new();
    let float = registry.register(AstType::Float);
    let nullable_float = AstType::NullableType { underlying: float };
    // The nullable is compared with its own underlying type, so `int` matches `float?`.
    assert!(AstType::Int.loose_equals(&nullable_float, &registry));
    // The other way round, the nullable's inner type is compared with `int`.
    assert!(!nullable_float.loose_equals(&AstType::Int, &registry));
    assert!(!AstType::Int.equals(&nullable_float, &registry));
}

#[test]
fn every_fixed_token_has_its_own_text() {
    let all = tropaion::lexer::token::SimpleToken::all();
    for i in 0..all.len() {
        for j in 0..all.len() {
            if i != j {
                assert_ne!(all[i].string_representation(), all[j].string_representation());
            }
        }
    }
    assert_eq!(tropaion::lexer::token::SimpleToken::PlusAssign.string_representation(), "+=");
}

#[test]
fn loose_equality_without_nullables_is_symmetric() {
    let mut registry = TypeRegistry::new();
    let int = registry.register(AstType::Int);
    let unknown = registry.register(AstType::UnknownType);
    let float = registry.register(AstType::Float);
    let ints = AstType::ArrayType { underlying: int };
    let unknowns = AstType::ArrayType { underlying: unknown };
    let floats = AstType::ArrayType { underlying: float };
    assert!(ints.loose_equals(&unknowns, &registry));
    assert!(unknowns.loose_equals(&ints, &registry));
    assert!(!ints.loose_equals(&floats, &registry));
    assert!(!floats.loose_equals(&ints, &registry));
    let pair = AstType::TupleType(vec![int, unknown]);
    let other = AstType::TupleType(vec![unknown, float]);
    assert!(pair.loose_equals(&other, &registry));
    assert!(other.loose_equals(&pair, &registry));
}

#[test]
fn a_struct_recorded_before_its_generic_parameters_compares_and_prints() {
    // The struct's entry is recorded first and filled in once its generic
    // parameter has an entry of its own, after it.
    let mut registry = TypeRegistry::new();
    let placeholder = registry.register(AstType::UnknownType);
    let param = registry.register(AstType::UnknownType);
    let mut generics = ordermap::OrderMap::new();
    generics.insert("T".to_string(), param);
    let boxed = AstType::StructType {
        name: "Box".to_string(),
        generics,
        fields: vec![],
        children: std::collections::HashMap::new(),
    };
    placeholder.mutate(&mut registry, boxed.clone());
    let stored = placeholder.get(&registry);
    assert!(stored.equals(&boxed, &registry));
    assert!(boxed.loose_equals(&stored, &registry));
    assert_eq!(placeholder.format(&registry), "Box<$unknown$>");
}
