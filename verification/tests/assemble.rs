use driftwatch::contract::assemble::{assemble, ResolvedOperation, ResolvedType, DEFAULT_COMPONENT};
use driftwatch::contract::document::{FORMAT, FORMAT_VERSION};
use driftwatch::contract::named_type::NamedType;
use driftwatch::contract::operation::{Operation, Outcomes};
use driftwatch::contract::validate::validate;

fn op(name: &str, component: &str, is_setup: bool) -> ResolvedOperation {
    ResolvedOperation {
        component: component.to_string(),
        is_setup,
        operation: Operation {
            name: name.to_string(),
            description: None,
            inputs: Vec::new(),
            observations: Vec::new(),
            outcomes: Outcomes::default(),
        },
    }
}

fn ty(name: &str, component: &str) -> ResolvedType {
    ResolvedType {
        component: component.to_string(),
        named_type: NamedType::Record {
            name: name.to_string(),
            fields: Vec::new(),
            description: None,
        },
    }
}

#[test]
fn groups_and_sorts_components_operations_and_types() {
    let ops = [
        op("notify", "mail", false),
        op("zulu", "billing", false),
        op("alpha", "billing", false),
    ];
    let types = [ty("Zeta", "billing"), ty("Alpha", "billing")];

    let doc = assemble(
        &ops,
        &types,
        "urn:ctsc:registry:example:1".to_string(),
        "1.0.0".to_string(),
    );

    let ids: Vec<&str> = doc.components.iter().map(|c| c.id.as_str()).collect();
    assert_eq!(ids, ["billing", "mail"]);

    let billing = &doc.components[0];
    let op_names: Vec<&str> = billing.operations.iter().map(|o| o.name.as_str()).collect();
    assert_eq!(op_names, ["alpha", "zulu"]);
    let type_names: Vec<&str> = billing.types.iter().map(NamedType::name).collect();
    assert_eq!(type_names, ["Alpha", "Zeta"]);

    let mail = &doc.components[1];
    assert_eq!(mail.operations.len(), 1);
    assert_eq!(mail.operations[0].name, "notify");
    assert!(mail.types.is_empty());

    for component in &doc.components {
        assert!(component.dependencies.is_empty());
    }
}

#[test]
fn setups_are_excluded_from_operations_and_grouping() {
    let ops = [op("charge", "billing", false), op("seed", "fixtures", true)];

    let doc = assemble(&ops, &[], "rid".to_string(), "v".to_string());

    let ids: Vec<&str> = doc.components.iter().map(|c| c.id.as_str()).collect();
    assert_eq!(ids, ["billing"]);
    let op_names: Vec<&str> = doc.components[0]
        .operations
        .iter()
        .map(|o| o.name.as_str())
        .collect();
    assert_eq!(op_names, ["charge"]);
}

#[test]
fn empty_input_yields_default_component() {
    let doc = assemble(&[], &[], "rid".to_string(), "v".to_string());
    assert_eq!(doc.components.len(), 1);
    assert_eq!(doc.components[0].id, DEFAULT_COMPONENT);
    assert!(doc.components[0].operations.is_empty());
    assert!(doc.components[0].types.is_empty());
}

#[test]
fn stamps_format_and_identity() {
    let doc = assemble(
        &[],
        &[],
        "urn:ctsc:registry:example:1".to_string(),
        "9.9.9".to_string(),
    );
    assert_eq!(doc.format, FORMAT);
    assert_eq!(doc.format_version, FORMAT_VERSION);
    assert_eq!(doc.registry_id, "urn:ctsc:registry:example:1");
    assert_eq!(doc.version, "9.9.9");
    assert!(doc.imports.is_empty());
}

#[test]
fn equal_names_keep_their_input_order() {
    let mut first = op("same", "billing", false);
    first.operation.description = Some("first".to_string());
    let mut second = op("same", "billing", false);
    second.operation.description = Some("second".to_string());
    let ops = [op("zeta", "billing", false), first, second, op("alpha", "billing", false)];
    let doc = assemble(&ops, &[], "rid".to_string(), "v".to_string());
    let got: Vec<(&str, Option<&str>)> = doc.components[0]
        .operations
        .iter()
        .map(|o| (o.name.as_str(), o.description.as_deref()))
        .collect();
    assert_eq!(
        got,
        [("alpha", None), ("same", Some("first")), ("same", Some("second")), ("zeta", None)]
    );
}

#[test]
fn assembled_document_with_distinct_names_validates_cleanly() {
    let ops = [op("b", "x", false), op("a", "x", false), op("c", "y", false)];
    let types = [ty("T", "x")];
    let doc = assemble(&ops, &types, "rid".to_string(), "v".to_string());
    assert_eq!(validate(&doc), Vec::new());
}

#[test]
fn component_ids_sort_by_code_point() {
    let ops = [op("o", "b", false), op("o", "B", false), op("o", "a", false), op("o", "b", false)];
    let doc = assemble(&ops, &[], "rid".to_string(), "v".to_string());
    let ids: Vec<&str> = doc.components.iter().map(|c| c.id.as_str()).collect();
    assert_eq!(ids, ["B", "a", "b"]);
    assert_eq!(doc.components[2].operations.len(), 2);
}
