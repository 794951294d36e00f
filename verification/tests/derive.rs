use driftwatch::contract::assemble::DEFAULT_COMPONENT;
use driftwatch::contract::document::{FORMAT, FORMAT_VERSION};
use driftwatch::contract::named_type::NamedType;
use driftwatch::contract::type_ref::{Primitive, TypeRef};
use driftwatch::contract::validate::{validate, ViolationKind};
use driftwatch::extract::derive::{derive_field, derive_named_type, OpMeta, TypeMeta, VariantMeta};
use driftwatch::extract::identity::RegistryIdentity;

fn identity() -> RegistryIdentity {
    RegistryIdentity {
        registry_id: "urn:ctsc:registry:example:1".to_string(),
        version: "1.0.0".to_string(),
    }
}

fn fields(pairs: &[(&str, &str)]) -> Vec<(String, String)> {
    pairs.iter().map(|(n, t)| (n.to_string(), t.to_string())).collect()
}

#[allow(clippy::too_many_arguments)]
fn op_meta(
    name: &str,
    module: &str,
    is_setup: bool,
    params: &[(&str, &str)],
    return_type: &str,
    fills: &str,
    component: &str,
) -> OpMeta {
    OpMeta {
        name: name.to_string(),
        module: module.to_string(),
        fn_name: name.to_string(),
        is_setup,
        is_async: false,
        params: fields(params),
        return_type: return_type.to_string(),
        fills: fills.to_string(),
        component: component.to_string(),
    }
}

fn type_meta(
    name: &str,
    module: &str,
    kind: &str,
    field_pairs: &[(&str, &str)],
    variants: Vec<VariantMeta>,
    component: &str,
) -> TypeMeta {
    TypeMeta {
        name: name.to_string(),
        module: module.to_string(),
        kind: kind.to_string(),
        fields: fields(field_pairs),
        variants,
        component: component.to_string(),
    }
}

fn ops() -> Vec<OpMeta> {
    vec![
        op_meta(
            "charge",
            "billing::pay",
            false,
            &[("user", "User"), ("cents", "u64")],
            "Result<Receipt, ChargeError>",
            "",
            "billing",
        ),
        op_meta("find_user", "billing::users", false, &[("id", "u64")], "Option<User>", "", "billing"),
        op_meta("seed", "billing::seed", true, &[], "User", "user", "billing"),
    ]
}

fn types() -> Vec<TypeMeta> {
    vec![
        type_meta("User", "billing::model", "struct", &[("id", "u64"), ("name", "String")], Vec::new(), "billing"),
        type_meta("Receipt", "billing::model", "struct", &[("amount", "u64")], Vec::new(), "billing"),
        type_meta(
            "ChargeError",
            "billing::model",
            "enum",
            &[],
            vec![
                VariantMeta { name: "Declined".to_string(), fields: Vec::new() },
                VariantMeta { name: "OverLimit".to_string(), fields: fields(&[("limit", "u64")]) },
            ],
            "billing",
        ),
    ]
}

#[test]
fn derived_document_validates_cleanly() {
    let doc = driftwatch::extract::derive::derive(&ops(), &types(), identity());
    assert_eq!(validate(&doc), Vec::new());
}

#[test]
fn derived_document_stamps_format_and_identity() {
    let doc = driftwatch::extract::derive::derive(&ops(), &types(), identity());
    assert_eq!(doc.format, FORMAT);
    assert_eq!(doc.format_version, FORMAT_VERSION);
    assert_eq!(doc.registry_id, "urn:ctsc:registry:example:1");
    assert_eq!(doc.version, "1.0.0");
    assert_eq!(doc.components.len(), 1);
    assert_eq!(doc.components[0].id, "billing");
}

#[test]
fn setups_are_excluded_from_operations() {
    let doc = driftwatch::extract::derive::derive(&ops(), &types(), identity());
    let names: Vec<&str> = doc.components[0].operations.iter().map(|o| o.name.as_str()).collect();
    assert_eq!(names, ["charge", "find_user"]);
}

#[test]
fn empty_registry_yields_default_component() {
    let doc = driftwatch::extract::derive::derive(&[], &[], identity());
    assert_eq!(doc.components[0].id, DEFAULT_COMPONENT);
    assert_eq!(validate(&doc), Vec::new());
}

#[test]
fn undeclared_named_reference_is_flagged_as_unresolved() {
    let doc = driftwatch::extract::derive::derive(&ops(), &[], identity());
    let violations = validate(&doc);
    assert!(
        violations.iter().any(|v| matches!(
            &v.kind,
            ViolationKind::UnresolvedType { name } if name == "Receipt"
        )),
        "expected an unresolved-type violation, got {violations:?}"
    );
}

#[test]
fn distinct_tags_group_into_one_component_each() {
    let ops = [
        op_meta("charge", "billing::pay", false, &[("cents", "u64")], "u64", "", "billing"),
        op_meta("notify", "mail::send", false, &[("to", "String")], "bool", "", "mail"),
    ];
    let types = [type_meta("Envelope", "mail::model", "struct", &[("subject", "String")], Vec::new(), "mail")];

    let doc = driftwatch::extract::derive::derive(&ops, &types, identity());

    let ids: Vec<&str> = doc.components.iter().map(|c| c.id.as_str()).collect();
    assert_eq!(ids, ["billing", "mail"]);

    let billing = &doc.components[0];
    assert_eq!(billing.operations.len(), 1);
    assert_eq!(billing.operations[0].name, "charge");
    assert!(billing.types.is_empty());

    let mail = &doc.components[1];
    assert_eq!(mail.operations.len(), 1);
    assert_eq!(mail.operations[0].name, "notify");
    assert_eq!(mail.types.len(), 1);
    assert_eq!(mail.types[0].name(), "Envelope");

    for component in &doc.components {
        assert!(component.dependencies.is_empty());
    }
    assert_eq!(validate(&doc), Vec::new());
}

#[test]
fn operation_inputs_and_outcomes_are_lowered() {
    let doc = driftwatch::extract::derive::derive(&ops(), &types(), identity());
    let charge = &doc.components[0].operations[0];
    assert_eq!(charge.inputs.len(), 2);
    assert_eq!(charge.inputs[0].name, "user");
    assert_eq!(
        charge.inputs[0].ty,
        TypeRef::Named { name: "User".to_string(), component_id: None, registry_id: None }
    );
    assert_eq!(charge.inputs[1].ty, TypeRef::Primitive { name: Primitive::U64 });
    assert_eq!(charge.outcomes.errors.len(), 1);
    assert_eq!(charge.outcomes.errors[0].name, "ChargeError");
    assert!(!charge.outcomes.empty);
    let find_user = &doc.components[0].operations[1];
    assert!(find_user.outcomes.empty);
    assert!(find_user.outcomes.errors.is_empty());
}

#[test]
fn enum_metadata_becomes_a_tagged_union_with_record_payloads() {
    let known = vec!["User"];
    let ty = derive_named_type(&types()[2], &known);
    match ty {
        NamedType::TaggedUnion { name, variants, .. } => {
            assert_eq!(name, "ChargeError");
            assert_eq!(variants.len(), 2);
            assert_eq!(variants[0].name, "Declined");
            assert!(variants[0].payload.is_none());
            match &variants[1].payload {
                Some(TypeRef::Record { fields }) => {
                    assert_eq!(fields.len(), 1);
                    assert_eq!(fields[0].name, "limit");
                    assert_eq!(fields[0].ty, TypeRef::Primitive { name: Primitive::U64 });
                }
                other => panic!("expected a record payload, got {other:?}"),
            }
        }
        other => panic!("expected a tagged union, got {other:?}"),
    }
}

#[test]
fn field_metadata_is_lowered_against_known_names() {
    let known = vec!["User"];
    let f = derive_field(&("owner".to_string(), "crate::model::User".to_string()), &known);
    assert_eq!(f.name, "owner");
    assert_eq!(f.ty, TypeRef::Named { name: "User".to_string(), component_id: None, registry_id: None });
    assert!(f.description.is_none());
}

#[test]
fn derived_document_is_independent_of_metadata_order() {
    let forward = driftwatch::extract::derive::derive(&ops(), &types(), identity());
    let mut reversed_ops = ops();
    reversed_ops.reverse();
    let mut rotated_types = types();
    rotated_types.rotate_left(1);
    let backward = driftwatch::extract::derive::derive(&reversed_ops, &rotated_types, identity());
    assert_eq!(forward, backward);
}
