use ordermap::OrderMap;
use std::collections::HashMap;
use tropaion::analysis::generic_helper::GenericHelper;
use tropaion::analysis::type_registry::{TypeEntry, TypeRegistry};
use tropaion::ast::ast_type::AstType;
use tropaion::ast::modifier::Modifier;
use tropaion::ast::statement::Statement;
use tropaion::error::context::Span;
use tropaion::util::spanned::Spanned;

fn generics(pairs: &[(&str, TypeEntry)]) -> OrderMap<String, TypeEntry> {
    let mut m = OrderMap::new();
    for (k, v) in pairs {
        m.insert(k.to_string(), *v);
    }
    m
}

fn struct_type(name: &str, g: OrderMap<String, TypeEntry>) -> AstType {
    AstType::StructType { name: name.to_string(), generics: g, fields: vec![], children: HashMap::new() }
}

fn record(helper: &mut GenericHelper, key: &str, ret: TypeEntry) {
    helper.record_generic(key.to_string(), key.to_string(), Modifier::new(), vec![], ret, vec![], Span::new(0, 1));
}

fn count(helper: &GenericHelper, key: &str) -> usize {
    helper.get_requests().get(key).map(|v| v.len()).unwrap_or(0)
}

#[test]
fn a_new_helper_has_no_requests() {
    let helper = GenericHelper::new();
    assert_eq!(count(&helper, "f"), 0);
}

#[test]
fn the_same_request_is_recorded_once() {
    let mut reg = TypeRegistry::new();
    let int = reg.register(AstType::Int);
    let other_int = reg.register(AstType::Int);
    let float = reg.register(AstType::Float);
    let mut helper = GenericHelper::new();
    helper.request_resolution(&reg, "f".to_string(), generics(&[("T", int)]), None);
    assert_eq!(count(&helper, "f"), 1);
    helper.request_resolution(&reg, "f".to_string(), generics(&[("T", other_int)]), None);
    assert_eq!(count(&helper, "f"), 1);
    assert!(helper.has_requested(&reg, &"f".to_string(), &generics(&[("T", other_int)]), &None));
    helper.request_resolution(&reg, "f".to_string(), generics(&[("T", float)]), None);
    assert_eq!(count(&helper, "f"), 2);
    helper.request_resolution(&reg, "f".to_string(), generics(&[("U", int)]), None);
    assert_eq!(count(&helper, "f"), 3);
}

#[test]
fn owners_must_match_for_a_request_to_count() {
    let mut reg = TypeRegistry::new();
    let int = reg.register(AstType::Int);
    let mut helper = GenericHelper::new();
    helper.request_resolution(&reg, "f".to_string(), generics(&[("T", int)]), None);
    assert!(!helper.has_requested(&reg, &"f".to_string(), &generics(&[("T", int)]), &Some(struct_type("S", generics(&[])))));
    assert!(!helper.has_requested(&reg, &"g".to_string(), &generics(&[("T", int)]), &None));
}

#[test]
fn a_struct_method_request_reaches_its_siblings() {
    let mut reg = TypeRegistry::new();
    let int = reg.register(AstType::Int);
    let void = reg.register(AstType::Void);
    let mut helper = GenericHelper::new();
    record(&mut helper, "Stack$push", void);
    record(&mut helper, "Stack$pop", int);
    record(&mut helper, "Queue$push", void);
    let owner = struct_type("Stack", generics(&[("T", int)]));
    helper.request_resolution(&reg, "Stack$push".to_string(), generics(&[("T", int)]), Some(owner));
    assert_eq!(count(&helper, "Stack$push"), 1);
    assert_eq!(count(&helper, "Stack$pop"), 1);
    assert_eq!(count(&helper, "Queue$push"), 0);
    let again = struct_type("Stack", generics(&[("T", int)]));
    helper.request_resolution(&reg, "Stack$pop".to_string(), generics(&[("T", int)]), Some(again));
    assert_eq!(count(&helper, "Stack$pop"), 1);
    assert_eq!(count(&helper, "Stack$push"), 1);
}

#[test]
fn implementations_come_back_in_the_order_recorded() {
    let mut helper = GenericHelper::new();
    assert!(helper.get_implementation(&"f$int".to_string()).is_empty());
    helper.record_implementation("f$int".to_string(), Spanned::new(Statement::CommentStmt("one".to_string()), 0, 1));
    helper.record_implementation("f$int".to_string(), Spanned::new(Statement::CommentStmt("two".to_string()), 2, 3));
    let got = helper.get_implementation(&"f$int".to_string());
    assert_eq!(got.len(), 2);
    assert_eq!(got[0], Spanned::new(Statement::CommentStmt("one".to_string()), 0, 1));
    assert_eq!(got[1], Spanned::new(Statement::CommentStmt("two".to_string()), 2, 3));
    assert!(helper.get_implementation(&"f$float".to_string()).is_empty());
}
