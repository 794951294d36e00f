use driftwatch::contract::operation::Outcomes;
use driftwatch::contract::type_ref::{Primitive, TypeRef};
use driftwatch::extract::return_kind::classify_return;
use driftwatch::extract::type_ref::type_head;

fn known() -> Vec<&'static str> {
    vec!["User", "Receipt", "ChargeError"]
}

fn classify(s: &str) -> Outcomes {
    classify_return(s, &known())
}

fn prim(p: Primitive) -> TypeRef {
    TypeRef::Primitive { name: p }
}

fn named(n: &str) -> TypeRef {
    TypeRef::Named {
        name: n.to_string(),
        component_id: None,
        registry_id: None,
    }
}

#[test]
fn unit_has_no_result() {
    assert_eq!(classify("()"), Outcomes::default());
    assert_eq!(classify(""), Outcomes::default());
}

#[test]
fn bare_type_is_plain_result() {
    assert_eq!(
        classify("i64"),
        Outcomes {
            result: Some(prim(Primitive::I64)),
            empty: false,
            errors: Vec::new(),
        }
    );
}

#[test]
fn option_is_result_with_empty() {
    assert_eq!(
        classify("Option<User>"),
        Outcomes {
            result: Some(named("User")),
            empty: true,
            errors: Vec::new(),
        }
    );
}

#[test]
fn result_has_result_and_error_name() {
    let out = classify("Result<Receipt, ChargeError>");
    assert!(!out.empty);
    assert_eq!(out.result, Some(named("Receipt")));
    assert_eq!(out.errors.len(), 1);
    assert_eq!(out.errors[0].name, "ChargeError");
    assert!(out.errors[0].ty.is_none());
}

#[test]
fn result_option_peels_to_empty() {
    let out = classify("Result<Option<User>, ChargeError>");
    assert!(out.empty);
    assert_eq!(out.result, Some(named("User")));
    assert_eq!(out.errors[0].name, "ChargeError");
}

#[test]
fn error_name_uses_last_path_segment() {
    let out = classify("Result<i64, std::num::ParseIntError>");
    assert_eq!(out.errors[0].name, "ParseIntError");
}

#[test]
fn type_head_strips_generics_and_path() {
    assert_eq!(type_head("std::num::ParseIntError"), "ParseIntError");
    assert_eq!(type_head("MyErr<T>"), "MyErr");
}

#[test]
fn padded_unit_and_single_argument_result() {
    assert_eq!(classify("  ()  "), Outcomes::default());
    let out = classify("Result<u8>");
    assert_eq!(out.result, Some(prim(Primitive::U32)));
    assert!(out.errors.is_empty());
    let out = classify("Option<>");
    assert_eq!(out.result, Some(named("")));
    assert!(out.empty);
}
