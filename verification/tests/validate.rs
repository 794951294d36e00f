use driftwatch::contract::component::{Component, Dependency};
use driftwatch::contract::document::{RegistryDocument, FORMAT, FORMAT_VERSION};
use driftwatch::contract::named_type::NamedType;
use driftwatch::contract::operation::{NamedValue, Operation, Outcomes};
use driftwatch::contract::type_ref::{Field, Primitive, TypeRef};
use driftwatch::contract::validate::{validate, Violation, ViolationKind};

fn component(id: &str, operations: Vec<Operation>, types: Vec<NamedType>) -> Component {
    Component { id: id.to_string(), description: None, dependencies: Vec::new(), operations, types }
}

fn document(format: &str, format_version: &str, components: Vec<Component>) -> RegistryDocument {
    RegistryDocument {
        format: format.to_string(),
        format_version: format_version.to_string(),
        registry_id: "urn:ctsc:registry:x:1".to_string(),
        version: "1.0.0".to_string(),
        description: None,
        imports: Vec::new(),
        components,
    }
}

fn i32_ty() -> TypeRef {
    TypeRef::Primitive { name: Primitive::I32 }
}

fn named(name: &str, component_id: Option<&str>) -> TypeRef {
    TypeRef::Named {
        name: name.to_string(),
        component_id: component_id.map(str::to_string),
        registry_id: None,
    }
}

fn operation(name: &str, inputs: Vec<NamedValue>, outcomes: Outcomes) -> Operation {
    Operation { name: name.to_string(), description: None, inputs, observations: Vec::new(), outcomes }
}

fn input(name: &str, ty: TypeRef) -> NamedValue {
    NamedValue { name: name.to_string(), ty, description: None }
}

fn field(name: &str, ty: TypeRef) -> Field {
    Field { name: name.to_string(), ty, description: None }
}

#[test]
fn foreign_format_when_validated_is_wrong_format() {
    let doc = document("not.ctsc", "9.9.9", vec![component("x", Vec::new(), Vec::new())]);
    let violations = validate(&doc);
    assert!(violations
        .iter()
        .any(|v| matches!(&v.kind, ViolationKind::WrongFormat { field: "format", .. })));
    assert!(violations
        .iter()
        .any(|v| matches!(&v.kind, ViolationKind::WrongFormat { field: "formatVersion", .. })));
}

#[test]
fn inline_record_when_field_repeats_is_duplicate_name() {
    let record = TypeRef::Record { fields: vec![field("dup", i32_ty()), field("dup", i32_ty())] };
    let op = operation("op", vec![input("arg", record)], Outcomes::default());
    let doc = document("ctsc.registry", "0.2.0", vec![component("x", vec![op], Vec::new())]);
    let violations = validate(&doc);
    assert!(
        violations.iter().any(|v| matches!(
            &v.kind,
            ViolationKind::DuplicateName { scope: "field name", name } if name == "dup"
        )),
        "expected inline field DuplicateName, got {violations:?}"
    );
}

#[test]
fn canonical_document_when_validated_is_clean() {
    let doc = document("ctsc.registry", "0.2.0", vec![component("x", Vec::new(), Vec::new())]);
    assert_eq!(validate(&doc), Vec::new());
}

#[test]
fn format_constants_are_the_canonical_values() {
    assert_eq!(FORMAT, "ctsc.registry");
    assert_eq!(FORMAT_VERSION, "0.2.0");
}

#[test]
fn wrong_format_reports_found_and_expected_at_the_document() {
    let doc = document("not.ctsc", "0.2.0", vec![component("x", Vec::new(), Vec::new())]);
    assert_eq!(
        validate(&doc),
        vec![Violation {
            location: "document".to_string(),
            kind: ViolationKind::WrongFormat {
                field: "format",
                found: "not.ctsc".to_string(),
                expected: "ctsc.registry",
            },
        }]
    );
}

#[test]
fn repeated_operation_name_is_one_duplicate_name() {
    let ops = vec![
        operation("read", Vec::new(), Outcomes::default()),
        operation("read", Vec::new(), Outcomes::default()),
        operation("read", Vec::new(), Outcomes::default()),
    ];
    let doc = document(FORMAT, FORMAT_VERSION, vec![component("x", ops, Vec::new())]);
    let violations = validate(&doc);
    assert_eq!(
        violations,
        vec![Violation {
            location: "component \"x\"".to_string(),
            kind: ViolationKind::DuplicateName { scope: "operation name", name: "read".to_string() },
        }]
    );
}

#[test]
fn empty_outcome_without_result_is_empty_without_result() {
    let outcomes = Outcomes { result: None, empty: true, errors: Vec::new() };
    let doc = document(
        FORMAT,
        FORMAT_VERSION,
        vec![component("x", vec![operation("get", Vec::new(), outcomes)], Vec::new())],
    );
    let violations = validate(&doc);
    assert_eq!(violations.len(), 1);
    assert_eq!(violations[0].kind, ViolationKind::EmptyWithoutResult);
    assert_eq!(violations[0].location, "component \"x\" operation \"get\"");
}

#[test]
fn same_component_named_ref_when_undeclared_is_unresolved_type() {
    let op = operation("price", vec![input("item", named("MissingType", None))], Outcomes::default());
    let doc = document(FORMAT, FORMAT_VERSION, vec![component("x", vec![op], Vec::new())]);
    let violations = validate(&doc);
    assert!(
        violations.iter().any(|v| matches!(
            &v.kind,
            ViolationKind::UnresolvedType { name } if name == "MissingType"
        )),
        "expected UnresolvedType for `MissingType`, got {violations:?}"
    );
}

#[test]
fn declared_named_ref_resolves() {
    let op = operation("price", vec![input("item", named("Item", None))], Outcomes::default());
    let item = NamedType::Record { name: "Item".to_string(), fields: Vec::new(), description: None };
    let doc = document(FORMAT, FORMAT_VERSION, vec![component("x", vec![op], vec![item])]);
    assert_eq!(validate(&doc), Vec::new());
}

#[test]
fn cross_component_ref_when_dependency_absent_is_missing_dependency() {
    let op = operation("price", vec![input("tax", named("Rate", Some("example.tax")))], Outcomes::default());
    let doc = document(FORMAT, FORMAT_VERSION, vec![component("x", vec![op], Vec::new())]);
    let violations = validate(&doc);
    assert!(
        violations.iter().any(|v| matches!(
            &v.kind,
            ViolationKind::MissingDependency { component_id } if component_id == "example.tax"
        )),
        "expected MissingDependency for `example.tax`, got {violations:?}"
    );
}

#[test]
fn cross_component_ref_with_dependency_is_clean() {
    let op = operation("price", vec![input("tax", named("Rate", Some("example.tax")))], Outcomes::default());
    let mut c = component("x", vec![op], Vec::new());
    c.dependencies.push(Dependency { component_id: "example.tax".to_string(), registry_id: None });
    let doc = document(FORMAT, FORMAT_VERSION, vec![c]);
    assert_eq!(validate(&doc), Vec::new());
}

#[test]
fn repeated_component_id_is_duplicate_name() {
    let doc = document(
        FORMAT,
        FORMAT_VERSION,
        vec![component("x", Vec::new(), Vec::new()), component("x", Vec::new(), Vec::new())],
    );
    let violations = validate(&doc);
    assert!(violations.iter().any(|v| matches!(
        &v.kind,
        ViolationKind::DuplicateName { scope: "component id", name } if name == "x"
    )), "got {violations:?}");
}

#[test]
fn violation_text_names_location_and_rule() {
    let v = Violation {
        location: "document".to_string(),
        kind: ViolationKind::WrongFormat { field: "format", found: "not.ctsc".to_string(), expected: FORMAT },
    };
    assert_eq!(v.to_text(), "document: format is \"not.ctsc\", expected \"ctsc.registry\"");
    let dup = ViolationKind::DuplicateName { scope: "operation name", name: "read".to_string() };
    assert_eq!(dup.to_text(), "duplicate operation name \"read\"");
    assert_eq!(
        ViolationKind::EmptyWithoutResult.to_text(),
        "outcomes declare `empty` without a `result`"
    );
    assert_eq!(
        ViolationKind::UnresolvedType { name: "Missing".to_string() }.to_text(),
        "named type \"Missing\" is not declared in this component"
    );
    assert_eq!(
        ViolationKind::MissingDependency { component_id: "a\"b".to_string() }.to_text(),
        "reference to component \"a\\\"b\" without a matching dependency"
    );
}
