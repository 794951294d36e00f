use driftwatch::analysis::analyze::{
    analyze_enum, analyze_function, analyze_struct, body_sites, collect_watchable_names, FieldFacts,
    FnFacts, ItemFacts, MacroSite, ParamFacts, VariantFacts, WATCH_COMPONENT,
};
use driftwatch::analysis::registry::{
    add_component_dependencies, build_registry, empty_component, runtime_metadata, FnMeta, WatchType,
};
use driftwatch::analysis::semantic::{
    classify_return_ra, error_name, join_module_path, type_ref_from_ra, AdtView, SemanticType,
};
use driftwatch::analysis::source::{
    attr_component, component_arg, component_from_module, first_string_literal, fixture_source_files,
    has_attr_text, source_module_path,
};
use driftwatch::analysis::summary::{display_type_ref, error_summary, outcomes_summary};
use driftwatch::contract::named_type::NamedType;
use driftwatch::contract::operation::{ErrorOutcome, NamedValue, Outcomes};
use driftwatch::contract::type_ref::{Field, Primitive, TypeRef, Variant};
use driftwatch::contract::validate::validate;
use driftwatch::extract::identity::RegistryIdentity;

fn scalar(display: &str) -> SemanticType {
    SemanticType { display: display.to_string(), is_unit: display == "()", adt: None, type_arguments: Vec::new() }
}

fn adt(display: &str, name: &str, args: Vec<SemanticType>) -> SemanticType {
    SemanticType {
        display: display.to_string(),
        is_unit: false,
        adt: Some(AdtView {
            name: name.to_string(),
            args: args.into_iter().map(Some).collect(),
            crate_name: "ra_extract_fixture".to_string(),
            module_segments: vec!["ra_extract_fixture".to_string()],
        }),
        type_arguments: Vec::new(),
    }
}

fn std_adt(display: &str, name: &str, krate: &str, module: &[&str]) -> SemanticType {
    SemanticType {
        display: display.to_string(),
        is_unit: false,
        adt: Some(AdtView {
            name: name.to_string(),
            args: Vec::new(),
            crate_name: krate.to_string(),
            module_segments: module.iter().map(|s| s.to_string()).collect(),
        }),
        type_arguments: Vec::new(),
    }
}

fn known() -> Vec<String> {
    vec!["User".to_string(), "Receipt".to_string()]
}

fn prim(p: Primitive) -> TypeRef {
    TypeRef::Primitive { name: p }
}

fn named(n: &str) -> TypeRef {
    TypeRef::Named { name: n.to_string(), component_id: None, registry_id: None }
}

#[test]
fn resolved_scalars_map_by_display() {
    let k = known();
    assert_eq!(type_ref_from_ra(&k, &scalar("()")), prim(Primitive::Unit));
    assert_eq!(type_ref_from_ra(&k, &scalar("std::string::String")), prim(Primitive::String));
    assert_eq!(type_ref_from_ra(&k, &scalar("i8")), prim(Primitive::I64));
    assert_eq!(type_ref_from_ra(&k, &scalar("u32")), prim(Primitive::U32));
    assert_eq!(type_ref_from_ra(&k, &scalar("u16")), prim(Primitive::U64));
    assert_eq!(type_ref_from_ra(&k, &scalar("f64")), prim(Primitive::F64));
}

#[test]
fn resolved_collections_and_declared_types() {
    let k = known();
    let vec_user = adt("Vec<User>", "Vec", vec![adt("User", "User", Vec::new())]);
    assert_eq!(type_ref_from_ra(&k, &vec_user), TypeRef::List { items: Box::new(named("User")) });
    let opt = adt("Option<u64>", "Option", vec![scalar("u64")]);
    assert_eq!(type_ref_from_ra(&k, &opt), TypeRef::Optional { value: Box::new(prim(Primitive::U64)) });
    let map = adt("HashMap<String, Vec<u8>>", "HashMap", vec![scalar("String"), adt("Vec<u8>", "Vec", vec![scalar("u8")])]);
    assert_eq!(
        type_ref_from_ra(&k, &map),
        TypeRef::MapOf {
            keys: Box::new(prim(Primitive::String)),
            values: Box::new(TypeRef::List { items: Box::new(prim(Primitive::U64)) }),
        }
    );
    let unknown = adt("Wrapper<u8>", "Wrapper", vec![scalar("u8")]);
    assert_eq!(type_ref_from_ra(&k, &unknown), named("Wrapper"));
    let bare_vec = adt("Vec<_>", "Vec", Vec::new());
    assert_eq!(type_ref_from_ra(&k, &bare_vec), TypeRef::List { items: Box::new(prim(Primitive::Unit)) });
}

#[test]
fn resolved_tuples_and_fallback_names() {
    let k = known();
    let tuple = SemanticType {
        display: "(u8, bool)".to_string(),
        is_unit: false,
        adt: None,
        type_arguments: vec![scalar("u8"), scalar("bool")],
    };
    assert_eq!(
        type_ref_from_ra(&k, &tuple),
        TypeRef::Tuple { items: vec![prim(Primitive::U64), prim(Primitive::Bool)] }
    );
    assert_eq!(type_ref_from_ra(&k, &scalar("&str")), named("&str"));
}

#[test]
fn error_names_are_qualified_outside_the_fixture() {
    assert_eq!(error_name(&adt("ChargeError", "ChargeError", Vec::new())), "ChargeError");
    assert_eq!(error_name(&std_adt("Error", "Error", "std", &["std", "io", "error"])), "std::io::error::Error");
    assert_eq!(error_name(&std_adt("Error", "Error", "anyhow", &["error"])), "anyhow::error::Error");
    assert_eq!(error_name(&std_adt("Error", "Error", "", &[])), "Error");
    assert_eq!(error_name(&std_adt("Error", "Error", "", &["fmt"])), "fmt::Error");
    assert_eq!(error_name(&std_adt("Error", "Error", "core", &[])), "core::Error");
    assert_eq!(error_name(&scalar("String")), "String");
    assert_eq!(join_module_path(&vec!["a".to_string(), "b".to_string()]), "a::b");
}

#[test]
fn resolved_returns_classify_into_outcomes() {
    let k = known();
    assert_eq!(classify_return_ra(&k, &scalar("()")), Outcomes::default());
    let result = adt(
        "Result<Receipt, ChargeError>",
        "Result",
        vec![adt("Receipt", "Receipt", Vec::new()), adt("ChargeError", "ChargeError", Vec::new())],
    );
    let out = classify_return_ra(&k, &result);
    assert_eq!(out.result, Some(named("Receipt")));
    assert!(!out.empty);
    assert_eq!(out.errors.len(), 1);
    assert_eq!(out.errors[0].name, "ChargeError");
    let result_opt = adt(
        "Result<Option<User>, E>",
        "Result",
        vec![adt("Option<User>", "Option", vec![adt("User", "User", Vec::new())]), adt("E", "E", Vec::new())],
    );
    let out = classify_return_ra(&k, &result_opt);
    assert_eq!(out.result, Some(named("User")));
    assert!(out.empty);
    let option = adt("Option<User>", "Option", vec![adt("User", "User", Vec::new())]);
    let out = classify_return_ra(&k, &option);
    assert_eq!(out.result, Some(named("User")));
    assert!(out.empty);
    assert!(out.errors.is_empty());
    let plain = classify_return_ra(&k, &scalar("u64"));
    assert_eq!(plain.result, Some(prim(Primitive::U64)));
}

#[test]
fn text_probes() {
    assert_eq!(first_string_literal("watch_point!(\"seen\", &x)"), Some("seen".to_string()));
    assert_eq!(first_string_literal("no literal"), None);
    assert_eq!(first_string_literal("one \" quote"), None);
    assert_eq!(
        component_arg("#[watch_operation(component = \"billing\")] fn f()"),
        Some("billing".to_string())
    );
    assert_eq!(component_arg("#[watch_operation] fn f()"), None);
    assert_eq!(attr_component("watch_dep!(\"reserve\", component = \"inventory\", reserve(x))"), Some("inventory".to_string()));
    assert!(has_attr_text("#[derive(Debug, Watchable)] struct A;", "Watchable"));
    assert!(!has_attr_text("struct A;", "Watchable"));
    assert_eq!(component_from_module("inventory::stock"), "inventory");
    assert_eq!(component_from_module("solo"), "solo");
    assert_eq!(source_module_path(&vec!["inner".to_string(), "outer".to_string()]), "outer::inner");
    assert_eq!(source_module_path(&Vec::new()), "");
}

#[test]
fn crate_sources_are_filtered_by_root_and_extension() {
    let files = vec![
        (1u32, "/w/fixture/src/lib.rs".to_string()),
        (2u32, "/w/fixture/Cargo.toml".to_string()),
        (3u32, "/w/other/src/lib.rs".to_string()),
        (4u32, "C:\\w\\fixture\\src\\main.rs".to_string()),
    ];
    let picked = fixture_source_files(&files, "/w/fixture");
    assert_eq!(picked, vec![(1u32, "/w/fixture/src/lib.rs".to_string())]);
    let picked = fixture_source_files(&files, "C:\\w\\fixture");
    assert_eq!(picked, vec![(4u32, "C:\\w\\fixture\\src\\main.rs".to_string())]);
}

#[test]
fn one_line_renderings() {
    let record = TypeRef::Record {
        fields: vec![Field { name: "id".to_string(), ty: prim(Primitive::U64), description: None }],
    };
    assert_eq!(display_type_ref(&record), "record{id:U64}");
    let union = TypeRef::TaggedUnion {
        variants: vec![
            Variant { name: "A".to_string(), payload: None, description: None },
            Variant { name: "B".to_string(), payload: None, description: None },
        ],
    };
    assert_eq!(display_type_ref(&union), "union{A|B}");
    let map = TypeRef::MapOf { keys: Box::new(prim(Primitive::String)), values: Box::new(named("User")) };
    assert_eq!(display_type_ref(&map), "Map<String,User>");
    let tuple = TypeRef::Tuple { items: vec![prim(Primitive::Bool), TypeRef::SetOf { items: Box::new(prim(Primitive::I32)) }] };
    assert_eq!(display_type_ref(&tuple), "(Bool,Set<I32>)");
    let opt = TypeRef::Optional { value: Box::new(TypeRef::List { items: Box::new(named("X")) }) };
    assert_eq!(display_type_ref(&opt), "Option<Vec<X>>");
    let out = Outcomes {
        result: Some(named("Receipt")),
        empty: false,
        errors: vec![ErrorOutcome { name: "E1".to_string(), ty: None, description: None }, ErrorOutcome {
            name: "E2".to_string(),
            ty: None,
            description: None,
        }],
    };
    assert_eq!(outcomes_summary(&out), "result=Receipt, empty=false, errors=[E1,E2]");
    assert_eq!(outcomes_summary(&Outcomes::default()), "result=none, empty=false, errors=[]");
    assert_eq!(error_summary(&out), Some("E1".to_string()));
    assert_eq!(error_summary(&Outcomes::default()), None);
}

fn site(text: &str, argument_type: Option<SemanticType>, callee_module: Option<&[&str]>) -> MacroSite {
    MacroSite {
        text: text.to_string(),
        argument_type,
        callee_module: callee_module.map(|m| m.iter().map(|s| s.to_string()).collect()),
    }
}

#[test]
fn body_sites_collect_observations_and_dependencies() {
    let sites = vec![
        site("watch_point!(\"receipts\", &receipts)", Some(adt("Receipt", "Receipt", Vec::new())), None),
        site("watch_dep!(\"reserve\", component = \"inventory\", reserve(sku))", None, Some(&["stock", "ops"])),
        site("watch_point!(x)", None, None),
        site("watch_dep!(\"again\", component = \"inventory\", f())", None, None),
        site("println!(\"hi\")", None, None),
    ];
    let (obs, deps) = body_sites(&known(), &sites);
    assert_eq!(obs.len(), 2);
    assert_eq!(obs[0].name, "receipts");
    assert_eq!(obs[0].ty, named("Receipt"));
    assert_eq!(obs[1].name, "obs");
    assert_eq!(obs[1].ty, prim(Primitive::Unit));
    assert_eq!(deps, vec!["inventory".to_string(), "stock".to_string()]);
}

fn charge_facts() -> FnFacts {
    FnFacts {
        resolved_name: Some("charge".to_string()),
        source_name: Some("charge".to_string()),
        resolved_module: Some(vec!["ra_extract_fixture".to_string()]),
        enclosing_modules: Vec::new(),
        text: "#[watch_operation(component = \"billing\")] pub fn charge(user: &User, cents: u64) -> Result<Receipt, ChargeError> {}".to_string(),
        is_public: true,
        has_self: false,
        params: vec![
            ParamFacts { pattern: Some("user".to_string()), written: Some(adt("&User", "User", Vec::new())), resolved: None },
            ParamFacts { pattern: None, written: None, resolved: Some(scalar("u64")) },
            ParamFacts { pattern: Some("z".to_string()), written: None, resolved: None },
        ],
        ret_written: Some(adt(
            "Result<Receipt, ChargeError>",
            "Result",
            vec![adt("Receipt", "Receipt", Vec::new()), adt("ChargeError", "ChargeError", Vec::new())],
        )),
        ret_resolved: None,
        body: vec![site("watch_dep!(\"reserve\", component = \"inventory\", reserve(1))", None, None)],
    }
}

#[test]
fn annotated_functions_are_analysed() {
    let meta = analyze_function(&known(), &charge_facts());
    assert_eq!(meta.name, "charge");
    assert_eq!(meta.fn_name, "charge");
    assert_eq!(meta.module, "ra_extract_fixture");
    assert_eq!(meta.component, "billing");
    assert_eq!(meta.inputs.len(), 3);
    assert_eq!(meta.inputs[0].name, "user");
    assert_eq!(meta.inputs[0].ty, named("User"));
    assert_eq!(meta.inputs[1].name, "arg1");
    assert_eq!(meta.inputs[1].ty, prim(Primitive::U64));
    assert_eq!(meta.inputs[2].ty, prim(Primitive::Unit));
    assert_eq!(meta.return_display, "Result<Receipt, ChargeError>");
    assert_eq!(meta.outcomes.errors[0].name, "ChargeError");
    assert!(!meta.is_private);
    assert!(!meta.is_method);
    assert_eq!(meta.dependencies, vec!["inventory".to_string()]);

    let mut bare = charge_facts();
    bare.resolved_name = None;
    bare.source_name = None;
    bare.resolved_module = None;
    bare.enclosing_modules = vec!["pay".to_string(), "billing".to_string()];
    bare.text = "fn f() {}".to_string();
    bare.ret_written = None;
    bare.is_public = false;
    bare.has_self = true;
    let meta = analyze_function(&known(), &bare);
    assert_eq!(meta.name, "unknown");
    assert_eq!(meta.module, "billing::pay");
    assert_eq!(meta.component, WATCH_COMPONENT);
    assert_eq!(meta.return_display, "()");
    assert_eq!(meta.outcomes, Outcomes::default());
    assert!(meta.is_private);
    assert!(meta.is_method);
}

#[test]
fn watched_types_are_analysed() {
    let k = known();
    let user = analyze_struct(&k, "User", &vec![FieldFacts { name: "id".to_string(), ty: scalar("u64") }]);
    assert_eq!(user.component, WATCH_COMPONENT);
    assert_eq!(user.named.name(), "User");
    let err = analyze_enum(
        &k,
        "ChargeError",
        &vec![
            VariantFacts { name: "Declined".to_string(), fields: Vec::new() },
            VariantFacts {
                name: "OverLimit".to_string(),
                fields: vec![FieldFacts { name: "limit".to_string(), ty: scalar("u64") }],
            },
        ],
    );
    match &err.named {
        NamedType::TaggedUnion { variants, .. } => {
            assert!(variants[0].payload.is_none());
            assert_eq!(
                variants[1].payload,
                Some(TypeRef::Record {
                    fields: vec![Field { name: "limit".to_string(), ty: prim(Primitive::U64), description: None }]
                })
            );
        }
        other => panic!("expected a union, got {other:?}"),
    }
    let names = collect_watchable_names(&vec![
        ItemFacts { text: "#[derive(Watchable)] struct Zed;".to_string(), name: Some("Zed".to_string()) },
        ItemFacts { text: "struct Plain;".to_string(), name: Some("Plain".to_string()) },
        ItemFacts { text: "#[derive(Watchable)] enum Alpha {}".to_string(), name: Some("Alpha".to_string()) },
        ItemFacts { text: "#[derive(Watchable)] struct Zed;".to_string(), name: Some("Zed".to_string()) },
    ]);
    assert_eq!(names, vec!["Alpha".to_string(), "Zed".to_string()]);
}

fn fn_meta(name: &str, component: &str, deps: &[&str]) -> FnMeta {
    FnMeta {
        name: name.to_string(),
        module: "m".to_string(),
        fn_name: name.to_string(),
        component: component.to_string(),
        inputs: vec![NamedValue { name: "x".to_string(), ty: prim(Primitive::U64), description: None }],
        outcomes: Outcomes::default(),
        return_display: "()".to_string(),
        is_private: false,
        is_method: false,
        observations: Vec::new(),
        dependencies: deps.iter().map(|d| d.to_string()).collect(),
    }
}

fn identity() -> RegistryIdentity {
    RegistryIdentity { registry_id: "urn:ctsc:registry:ra-poc:fixture".to_string(), version: "0.1.0-poc".to_string() }
}

#[test]
fn registry_groups_by_component_in_found_order() {
    let fns = vec![fn_meta("zeta", "billing", &[]), fn_meta("alpha", "billing", &[]), fn_meta("stock", "inventory", &[])];
    let types = vec![WatchType {
        component: "billing".to_string(),
        named: NamedType::Record { name: "User".to_string(), fields: Vec::new(), description: None },
    }];
    let doc = build_registry(identity(), &fns, &types);
    let ids: Vec<&str> = doc.components.iter().map(|c| c.id.as_str()).collect();
    assert_eq!(ids, ["billing", "inventory"]);
    let names: Vec<&str> = doc.components[0].operations.iter().map(|o| o.name.as_str()).collect();
    assert_eq!(names, ["zeta", "alpha"]);
    assert_eq!(doc.components[0].types.len(), 1);
    assert_eq!(validate(&doc), Vec::new());
    let empty = build_registry(identity(), &[], &[]);
    assert!(empty.components.is_empty());
}

#[test]
fn dependencies_are_added_once_and_never_to_self() {
    let fns = vec![
        fn_meta("charge", "billing", &["inventory", "billing", "inventory"]),
        fn_meta("refund", "billing", &["ledger", "inventory"]),
        fn_meta("lost", "nowhere", &["x"]),
    ];
    let mut doc = build_registry(identity(), &fns[..2], &[]);
    add_component_dependencies(&mut doc, &fns);
    let deps: Vec<&str> = doc.components[0].dependencies.iter().map(|d| d.component_id.as_str()).collect();
    assert_eq!(deps, ["inventory", "ledger"]);
    assert_eq!(doc.components.len(), 1);
    let c = empty_component("solo");
    assert_eq!(c.id, "solo");
    assert!(c.operations.is_empty() && c.types.is_empty() && c.dependencies.is_empty());
}

#[test]
fn runtime_metadata_renders_types_on_one_line() {
    let fns = vec![fn_meta("charge", "billing", &[])];
    let types = vec![
        WatchType {
            component: "billing".to_string(),
            named: NamedType::Record {
                name: "User".to_string(),
                fields: vec![Field { name: "tags".to_string(), ty: TypeRef::List { items: Box::new(prim(Primitive::String)) }, description: None }],
                description: None,
            },
        },
        WatchType {
            component: "billing".to_string(),
            named: NamedType::TaggedUnion {
                name: "E".to_string(),
                variants: vec![
                    Variant { name: "A".to_string(), payload: None, description: None },
                    Variant {
                        name: "B".to_string(),
                        payload: Some(TypeRef::Record {
                            fields: vec![Field { name: "n".to_string(), ty: prim(Primitive::U64), description: None }],
                        }),
                        description: None,
                    },
                ],
                description: None,
            },
        },
    ];
    let (ops, metas) = runtime_metadata(&fns, &types);
    assert_eq!(ops.len(), 1);
    assert_eq!(ops[0].params, vec![("x".to_string(), "U64".to_string())]);
    assert_eq!(ops[0].return_type, "()");
    assert!(!ops[0].is_setup && !ops[0].is_async);
    assert_eq!(metas[0].kind, "struct");
    assert_eq!(metas[0].fields, vec![("tags".to_string(), "Vec<String>".to_string())]);
    assert_eq!(metas[0].module, "");
    assert_eq!(metas[1].kind, "enum");
    assert!(metas[1].variants[0].fields.is_empty());
    assert_eq!(metas[1].variants[1].fields, vec![("n".to_string(), "U64".to_string())]);
}
