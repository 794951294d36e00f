use driftwatch::macros::args::{
    watchable_field_name, ArgError, ArgToken, AttrArgs, DepArgs, DepCall, MetaValue, NestedMeta,
    OperationArgs, PointCall, MISSING_COMPONENT,
};
use driftwatch::macros::expand::{
    completion_plan, dep_inputs, enum_type_meta, operation_inputs, operation_meta, struct_type_meta,
    type_registration_idents, watched_fields, BodyInstrumenter, CompletionPlan, ExprSyntax, FieldAttr,
    FieldSyntax, StmtSyntax, VariantFields, VariantSyntax,
};
use driftwatch::macros::ident::sanitize_ident;
use driftwatch::macros::syntax::{
    classify_return, is_mut_ref, is_option, is_owned_primitive, is_printable_param, param_name,
    result_err_type, result_error_name, result_ok_type, GenericArg, Param, PathSegment, ReturnKind,
    TypeSyntax,
};

fn ident(s: &str) -> ArgToken {
    ArgToken::Ident(s.to_string())
}

fn lit(s: &str) -> ArgToken {
    ArgToken::Str(s.to_string())
}

fn punct(c: char) -> ArgToken {
    ArgToken::Punct(c)
}

/// A path type `a::b::C`.
fn path(segments: &[&str]) -> TypeSyntax {
    TypeSyntax::Path {
        segments: segments
            .iter()
            .map(|s| PathSegment { ident: s.to_string(), args: None })
            .collect(),
    }
}

/// A path type whose last segment `head` carries the type arguments `args`.
fn generic(head: &str, args: Vec<TypeSyntax>) -> TypeSyntax {
    TypeSyntax::Path {
        segments: vec![PathSegment {
            ident: head.to_string(),
            args: Some(args.into_iter().map(GenericArg::Type).collect()),
        }],
    }
}

fn reference(mutable: bool, elem: TypeSyntax) -> TypeSyntax {
    TypeSyntax::Reference { mutable, elem: Box::new(elem) }
}

fn param(name: &str, ty: TypeSyntax, ty_text: &str, rename: Option<&str>) -> Param {
    Param {
        ident: name.to_string(),
        ty,
        ty_text: ty_text.to_string(),
        rename: rename.map(str::to_string),
    }
}

fn watchable_list(items: Vec<NestedMeta>) -> AttrArgs {
    AttrArgs::List(items)
}

fn item(path: Option<&str>, value: MetaValue) -> NestedMeta {
    NestedMeta { path: path.map(str::to_string), value }
}

#[test]
fn missing_component_is_rejected() {
    OperationArgs::parse(&Vec::new()).unwrap_err();
}

#[test]
fn empty_component_is_rejected() {
    OperationArgs::parse(&vec![ident("component"), punct('='), lit("")]).unwrap_err();
}

#[test]
fn non_component_key_is_rejected() {
    OperationArgs::parse(&vec![ident("spec"), punct('='), lit("x")]).unwrap_err();
}

#[test]
fn component_is_parsed() {
    assert_eq!(
        OperationArgs::parse(&vec![ident("component"), punct('='), lit("comp.app")])
            .unwrap()
            .component,
        "comp.app"
    );
}

#[test]
fn dep_name_only_inherits_component() {
    let args = DepArgs::parse(&vec![lit("parse")]).unwrap();
    assert_eq!(args.name, "parse");
    assert_eq!(args.component, None);
}

#[test]
fn dep_component_override_is_parsed() {
    let args =
        DepArgs::parse(&vec![lit("parse"), punct(','), ident("component"), punct('='), lit("other")])
            .unwrap();
    assert_eq!(args.name, "parse");
    assert_eq!(args.component.as_deref(), Some("other"));
}

#[test]
fn result_error_name_uses_last_segment() {
    let out = Some(generic("Result", vec![path(&["i64"]), path(&["std", "num", "ParseIntError"])]));
    assert_eq!(result_error_name(&out), "ParseIntError");
    let out = Some(generic("Result", vec![path(&["i64"]), path(&["String"])]));
    assert_eq!(result_error_name(&out), "String");
}

#[test]
fn classify_recognizes_result_option() {
    let out = Some(generic(
        "Result",
        vec![generic("Option", vec![path(&["i64"])]), path(&["String"])],
    ));
    assert!(classify_return(&out) == ReturnKind::ResultOption);
    let out = Some(generic("Result", vec![path(&["i64"]), path(&["String"])]));
    assert!(classify_return(&out) == ReturnKind::Result);
}

#[test]
fn bare_watchable_has_no_override() {
    assert_eq!(watchable_field_name(&AttrArgs::Bare).unwrap(), None);
}

#[test]
fn empty_list_has_no_override() {
    assert_eq!(watchable_field_name(&watchable_list(Vec::new())).unwrap(), None);
}

#[test]
fn name_override_is_parsed() {
    let attr = watchable_list(vec![item(Some("name"), MetaValue::Str("display".to_string()))]);
    assert_eq!(watchable_field_name(&attr).unwrap(), Some("display".to_string()));
}

#[test]
fn unknown_key_is_rejected() {
    watchable_field_name(&watchable_list(vec![item(Some("bogus"), MetaValue::Absent)])).unwrap_err();
}

#[test]
fn non_string_name_is_rejected() {
    watchable_field_name(&watchable_list(vec![item(Some("name"), MetaValue::Other)])).unwrap_err();
}

#[test]
fn missing_name_value_is_rejected() {
    watchable_field_name(&watchable_list(vec![item(Some("name"), MetaValue::Absent)])).unwrap_err();
}

#[test]
fn operation_args_errors_are_specific() {
    assert_eq!(OperationArgs::parse(&Vec::new()), Err(ArgError::MissingComponent));
    assert_eq!(
        OperationArgs::parse(&vec![ident("spec"), punct('='), lit("x")]),
        Err(ArgError::MissingComponent)
    );
    assert_eq!(
        OperationArgs::parse(&vec![ident("component"), punct('='), lit("")]),
        Err(ArgError::MissingComponent)
    );
    assert_eq!(OperationArgs::parse(&vec![lit("x")]), Err(ArgError::Malformed));
    assert_eq!(
        OperationArgs::parse(&vec![ident("component"), punct('='), lit("a"), punct(',')]),
        Err(ArgError::Malformed)
    );
    assert!(MISSING_COMPONENT.contains("requires a component"));
}

#[test]
fn dep_args_reject_other_keys() {
    assert_eq!(
        DepArgs::parse(&vec![lit("parse"), punct(','), ident("spec"), punct('='), lit("x")]),
        Err(ArgError::ExpectedComponentKey)
    );
    assert_eq!(DepArgs::parse(&vec![ident("parse")]), Err(ArgError::Malformed));
}

#[test]
fn dep_call_separates_component_from_expression() {
    let call = DepCall::parse(&vec![
        lit("parse"),
        punct(','),
        ident("component"),
        punct('='),
        lit("other"),
        punct(','),
        ident("f"),
        ArgToken::Other,
    ])
    .unwrap();
    assert_eq!(call.name, "parse");
    assert_eq!(call.component.as_deref(), Some("other"));
    assert_eq!(call.expr_start, 6);
    let call = DepCall::parse(&vec![lit("cfg"), punct(','), ident("CONFIG")]).unwrap();
    assert_eq!(call.component, None);
    assert_eq!(call.expr_start, 2);
    assert_eq!(
        DepCall::parse(&vec![lit("x"), punct(','), ident("spec"), punct('='), lit("y"), punct(','), ident("f")]),
        Err(ArgError::ExpectedComponentKey)
    );
    assert_eq!(DepCall::parse(&vec![lit("x"), punct(',')]), Err(ArgError::Malformed));
}

#[test]
fn point_call_takes_name_then_expression() {
    let call = PointCall::parse(&vec![lit("seen"), punct(','), punct('&'), ident("x")]).unwrap();
    assert_eq!(call.name, "seen");
    assert_eq!(call.expr_start, 2);
    assert_eq!(PointCall::parse(&vec![lit("seen")]), Err(ArgError::Malformed));
}

#[test]
fn last_rename_wins_and_first_error_stops() {
    let attr = watchable_list(vec![
        item(Some("name"), MetaValue::Str("a".to_string())),
        item(Some("name"), MetaValue::Str("b".to_string())),
    ]);
    assert_eq!(watchable_field_name(&attr).unwrap(), Some("b".to_string()));
    let attr = watchable_list(vec![
        item(Some("bogus"), MetaValue::Absent),
        item(Some("name"), MetaValue::Other),
    ]);
    assert_eq!(watchable_field_name(&attr), Err(ArgError::UnknownWatchableArgument));
    assert_eq!(watchable_field_name(&AttrArgs::NameValue), Ok(None));
    assert_eq!(
        watchable_field_name(&watchable_list(vec![item(None, MetaValue::Absent)])),
        Err(ArgError::Malformed)
    );
}

#[test]
fn return_types_classify_by_outer_segment() {
    assert!(classify_return(&None) == ReturnKind::Unit);
    assert!(classify_return(&Some(TypeSyntax::Tuple { elems: Vec::new() })) == ReturnKind::Unit);
    assert!(classify_return(&Some(generic("Option", vec![path(&["User"])]))) == ReturnKind::Option);
    assert!(classify_return(&Some(path(&["u64"]))) == ReturnKind::Other);
    assert!(
        classify_return(&Some(TypeSyntax::Tuple { elems: vec![path(&["u8"]), path(&["u8"])] }))
            == ReturnKind::Other
    );
    assert_eq!(result_error_name(&Some(path(&["u64"]))), "error");
    assert_eq!(result_error_name(&None), "error");
    let ok_only = generic("Result", vec![path(&["i64"])]);
    assert!(result_err_type(&ok_only).is_none());
    assert_eq!(result_ok_type(&ok_only), Some(&path(&["i64"])));
    assert!(is_option(&generic("Option", vec![path(&["u8"])])));
    assert!(!is_option(&path(&["u8"])));
}

#[test]
fn primitive_predicates() {
    assert!(is_owned_primitive(&path(&["std", "string", "String"])));
    assert!(!is_owned_primitive(&path(&["User"])));
    assert!(is_printable_param(&reference(false, path(&["str"]))));
    assert!(is_printable_param(&reference(true, path(&["i32"]))));
    assert!(!is_printable_param(&reference(false, path(&["User"]))));
    assert!(is_mut_ref(&reference(true, path(&["Counter"]))));
    assert!(!is_mut_ref(&reference(false, path(&["Counter"]))));
}

#[test]
fn completion_plans_follow_the_return_kind() {
    assert_eq!(completion_plan(&None), CompletionPlan::Nothing);
    assert_eq!(
        completion_plan(&Some(generic("Result", vec![path(&["u64"]), path(&["ChargeError"])]))),
        CompletionPlan::ResultOrError { fallback: "ChargeError".to_string() }
    );
    assert_eq!(
        completion_plan(&Some(generic(
            "Result",
            vec![generic("Option", vec![path(&["User"])]), path(&["E"])]
        ))),
        CompletionPlan::ResultEmptyOrError { fallback: "E".to_string() }
    );
    assert_eq!(completion_plan(&Some(generic("Option", vec![path(&["User"])]))), CompletionPlan::ResultOrEmpty);
    assert_eq!(completion_plan(&Some(path(&["i64"]))), CompletionPlan::DirectResult);
    assert_eq!(completion_plan(&Some(path(&["Report"]))), CompletionPlan::EncodedResult);
}

#[test]
fn inputs_skip_mut_refs_and_honor_renames() {
    let params = vec![
        param("name", reference(false, path(&["str"])), "& str", Some("subject")),
        param("total", reference(true, path(&["u64"])), "& mut u64", None),
        param("delta", path(&["u64"]), "u64", None),
    ];
    let inputs = operation_inputs(&params);
    assert_eq!(
        inputs,
        vec![
            ("subject".to_string(), "name".to_string()),
            ("delta".to_string(), "delta".to_string())
        ]
    );
    assert_eq!(param_name(&params[0]), "subject");
    assert_eq!(param_name(&params[1]), "total");
}

#[test]
fn registration_records_every_parameter() {
    let params = vec![
        param("cfg", reference(true, path(&["Config"])), "& mut Config", None),
        param("level", path(&["u8"]), "u8", Some("lvl")),
    ];
    let meta = operation_meta("configure", "app::ops", true, "app", &params, &None);
    assert_eq!(meta.name, "configure");
    assert_eq!(meta.fn_name, "configure");
    assert_eq!(meta.module, "app::ops");
    assert!(!meta.is_setup);
    assert!(meta.is_async);
    assert_eq!(
        meta.params,
        vec![
            ("cfg".to_string(), "& mut Config".to_string()),
            ("lvl".to_string(), "u8".to_string())
        ]
    );
    assert_eq!(meta.return_type, "()");
    assert_eq!(meta.fills, "");
    assert_eq!(meta.component, "app");
    let meta = operation_meta("f", "m", false, "c", &Vec::new(), &Some("Result < u8 , E >".to_string()));
    assert_eq!(meta.return_type, "Result < u8 , E >");
}

fn field(ident: Option<&str>, ty_text: &str, attrs: Vec<FieldAttr>) -> FieldSyntax {
    FieldSyntax { ident: ident.map(str::to_string), ty_text: ty_text.to_string(), attrs }
}

fn attr(path: &str, args: AttrArgs) -> FieldAttr {
    FieldAttr { path: path.to_string(), args }
}

#[test]
fn struct_fields_are_opt_in_and_renamed() {
    let fields = vec![
        field(Some("id"), "u64", vec![attr("watchable", AttrArgs::Bare)]),
        field(Some("secret"), "String", vec![attr("serde", AttrArgs::Bare)]),
        field(
            Some("label"),
            "String",
            vec![attr(
                "watchable",
                watchable_list(vec![item(Some("name"), MetaValue::Str("display".to_string()))]),
            )],
        ),
        field(None, "u8", vec![attr("watchable", AttrArgs::Bare)]),
    ];
    assert_eq!(
        watched_fields(&fields).unwrap(),
        vec![
            ("id".to_string(), "u64".to_string()),
            ("display".to_string(), "String".to_string())
        ]
    );
    let meta = struct_type_meta("User", "billing::model", "billing", &fields).unwrap();
    assert_eq!(meta.name, "User");
    assert_eq!(meta.kind, "struct");
    assert_eq!(meta.module, "billing::model");
    assert_eq!(meta.component, "billing");
    assert_eq!(meta.fields.len(), 2);
    assert!(meta.variants.is_empty());
    let bad = vec![field(
        Some("x"),
        "u8",
        vec![attr("watchable", watchable_list(vec![item(Some("bogus"), MetaValue::Absent)]))],
    )];
    assert_eq!(
        struct_type_meta("T", "m", "c", &bad).unwrap_err(),
        ArgError::UnknownWatchableArgument
    );
}

#[test]
fn enum_variants_register_named_fields_only() {
    let variants = vec![
        VariantSyntax { ident: "Declined".to_string(), fields: VariantFields::Unit },
        VariantSyntax {
            ident: "OverLimit".to_string(),
            fields: VariantFields::Named(vec![("limit".to_string(), "u64".to_string())]),
        },
        VariantSyntax { ident: "Other".to_string(), fields: VariantFields::Unnamed },
    ];
    let meta = enum_type_meta("ChargeError", "billing::model", "billing", &variants);
    assert_eq!(meta.kind, "enum");
    assert!(meta.fields.is_empty());
    assert_eq!(meta.variants.len(), 3);
    assert_eq!(meta.variants[0].name, "Declined");
    assert!(meta.variants[0].fields.is_empty());
    assert_eq!(meta.variants[1].fields, vec![("limit".to_string(), "u64".to_string())]);
    assert!(meta.variants[2].fields.is_empty());
}

#[test]
fn registration_idents_are_sanitized() {
    let (reg, stat) = type_registration_idents("Receipt<T>");
    assert_eq!(reg, "_DRIFTWATCH_TYPE_REG_RECEIPT_T_");
    assert_eq!(stat, "_DRIFTWATCH_TYPE_S_RECEIPT_T_");
    assert_eq!(sanitize_ident("a-b9é"), "A_B9_");
}

fn path_expr(name: &str) -> ExprSyntax {
    ExprSyntax::Path { ident: Some(name.to_string()) }
}

#[test]
fn dependency_inputs_are_named_or_positional() {
    let call = ExprSyntax::Call {
        args: vec![
            path_expr("text"),
            ExprSyntax::Other,
            ExprSyntax::Reference { expr: Box::new(path_expr("buf")) },
            ExprSyntax::Path { ident: None },
        ],
    };
    let (awaits, names) = dep_inputs(&call);
    assert!(!awaits);
    assert_eq!(names, vec!["text", "arg1", "buf", "arg3"]);
    let awaited = ExprSyntax::Await {
        base: Box::new(ExprSyntax::MethodCall { args: vec![path_expr("id")] }),
    };
    let (awaits, names) = dep_inputs(&awaited);
    assert!(awaits);
    assert_eq!(names, vec!["id"]);
    let (_, names) = dep_inputs(&path_expr("CONFIG"));
    assert!(names.is_empty());
}

fn assign_to(base: ExprSyntax, member: &str, compound: bool) -> StmtSyntax {
    let left = Box::new(ExprSyntax::Field { base: Box::new(base), member: Some(member.to_string()) });
    let expr = if compound { ExprSyntax::CompoundAssign { left } } else { ExprSyntax::Assign { left } };
    StmtSyntax::Expr { expr, semi: true }
}

#[test]
fn field_mutations_are_echoed_for_self_and_tracked_params() {
    let body = BodyInstrumenter { param_names: vec!["c".to_string()], component: "app".to_string() };
    assert_eq!(body.mutation_event(&assign_to(path_expr("self"), "count", false)), Some("count".to_string()));
    assert_eq!(body.mutation_event(&assign_to(path_expr("c"), "n", true)), Some("c.n".to_string()));
    assert_eq!(body.mutation_event(&assign_to(path_expr("other"), "n", false)), None);
    assert_eq!(body.mutation_event(&StmtSyntax::Local), None);
    let unterminated = StmtSyntax::Expr {
        expr: ExprSyntax::Assign {
            left: Box::new(ExprSyntax::Field {
                base: Box::new(path_expr("self")),
                member: Some("x".to_string()),
            }),
        },
        semi: false,
    };
    assert_eq!(body.mutation_event(&unterminated), None);
}
