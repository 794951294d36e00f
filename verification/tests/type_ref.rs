use driftwatch::contract::type_ref::{Primitive, TypeRef};
use driftwatch::extract::type_ref::{generic_parts, parse_type_ref};

fn known() -> Vec<&'static str> {
    vec!["User", "Receipt"]
}

fn parse(s: &str) -> TypeRef {
    parse_type_ref(s, &known())
}

fn prim(p: Primitive) -> TypeRef {
    TypeRef::Primitive { name: p }
}

fn named(n: &str) -> TypeRef {
    TypeRef::Named {
        name: n.to_string(),
        component_id: None,
        registry_id: None,
    }
}

#[test]
fn primitives_map_to_scalars() {
    assert_eq!(parse("i32"), prim(Primitive::I32));
    assert_eq!(parse("i64"), prim(Primitive::I64));
    assert_eq!(parse("u8"), prim(Primitive::U32));
    assert_eq!(parse("u64"), prim(Primitive::U64));
    assert_eq!(parse("f64"), prim(Primitive::F64));
    assert_eq!(parse("bool"), prim(Primitive::Bool));
    assert_eq!(parse("String"), prim(Primitive::String));
    assert_eq!(parse("char"), prim(Primitive::String));
    assert_eq!(parse("()"), prim(Primitive::Unit));
}

#[test]
fn reference_and_lifetime_strip_to_referent() {
    assert_eq!(parse("&str"), prim(Primitive::String));
    assert_eq!(parse("&'a str"), prim(Primitive::String));
    assert_eq!(parse("& str"), prim(Primitive::String));
    assert_eq!(parse("&mut String"), prim(Primitive::String));
}

#[test]
fn custom_paths_become_named_final_segment() {
    assert_eq!(parse("crate::model::User"), named("User"));
}

#[test]
fn vec_of_option_nests() {
    assert_eq!(
        parse("Vec<Option<User>>"),
        TypeRef::List {
            items: Box::new(TypeRef::Optional {
                value: Box::new(named("User")),
            }),
        }
    );
}

#[test]
fn hashmap_string_vec_u8_splits_on_top_level_comma() {
    assert_eq!(
        parse("HashMap<String, Vec<u8>>"),
        TypeRef::MapOf {
            keys: Box::new(prim(Primitive::String)),
            values: Box::new(TypeRef::List {
                items: Box::new(prim(Primitive::U32)),
            }),
        }
    );
}

#[test]
fn btree_set_maps_to_set() {
    assert_eq!(
        parse("BTreeSet<i64>"),
        TypeRef::SetOf {
            items: Box::new(prim(Primitive::I64)),
        }
    );
}

#[test]
fn tuple_positions_are_typed() {
    assert_eq!(
        parse("(i32, String, User)"),
        TypeRef::Tuple {
            items: vec![prim(Primitive::I32), prim(Primitive::String), named("User")],
        }
    );
}

#[test]
fn single_paren_group_is_transparent() {
    assert_eq!(parse("(User)"), parse("User"));
}

#[test]
fn whitespace_variants_are_tolerated() {
    assert_eq!(
        parse("  HashMap < String , Vec < u8 > >  "),
        parse("HashMap<String, Vec<u8>>")
    );
}

#[test]
fn smart_pointers_are_transparent() {
    assert_eq!(parse("Box<User>"), parse("User"));
    assert_eq!(parse("Arc<i32>"), prim(Primitive::I32));
}

#[test]
fn nested_map_of_list_of_tuple() {
    assert_eq!(
        parse("BTreeMap<String, Vec<(u8, u8)>>"),
        TypeRef::MapOf {
            keys: Box::new(prim(Primitive::String)),
            values: Box::new(TypeRef::List {
                items: Box::new(TypeRef::Tuple {
                    items: vec![prim(Primitive::U32), prim(Primitive::U32)],
                }),
            }),
        }
    );
}

#[test]
fn generic_custom_type_reduces_to_named_base() {
    assert_eq!(parse("Wrapper<User>"), named("Wrapper"));
}

#[test]
fn unresolved_full_path_is_passed_through_verbatim() {
    assert_eq!(parse("std::time::Duration"), named("std::time::Duration"));
}

#[test]
fn malformed_strings_degrade_without_panicking() {
    assert_eq!(parse(""), named(""));
    assert_eq!(parse("("), named("("));
    assert_eq!(parse("<>"), named("<>"));
    assert_eq!(parse("Vec<"), named("Vec<"));
    assert_eq!(parse("(,)"), prim(Primitive::Unit));
    assert_eq!(parse("Vec<i32, i64>"), named("Vec"));
    assert_eq!(parse("a:::b"), named("a:::b"));
    assert_eq!(parse("&&'static mut u16"), prim(Primitive::U32));
}

#[test]
fn generic_parts_reduce_the_base_to_its_last_segment() {
    let (base, args) = generic_parts(" std::result::Result<A, B<C, D>> ").unwrap();
    assert_eq!(base, "Result");
    assert_eq!(args, vec!["A", "B<C, D>"]);
    assert!(generic_parts("NoGenerics").is_none());
}

#[test]
fn wrappers_around_a_single_type_are_transparent() {
    for t in ["Vec<User>", "HashMap<String, Receipt>", " (u8, bool) ", "crate::model::User"] {
        let expected = parse(t);
        assert_eq!(parse(&format!("Box<{t}>")), expected);
        assert_eq!(parse(&format!("Rc<{t}>")), expected);
        assert_eq!(parse(&format!("Arc<{t}>")), expected);
        assert_eq!(parse(&format!("({t})")), expected);
    }
}

fn assert_references_local(t: &TypeRef) {
    match t {
        TypeRef::Named { component_id, registry_id, .. } => {
            assert!(component_id.is_none());
            assert!(registry_id.is_none());
        }
        TypeRef::List { items } | TypeRef::SetOf { items } => assert_references_local(items),
        TypeRef::Optional { value } => assert_references_local(value),
        TypeRef::MapOf { keys, values } => {
            assert_references_local(keys);
            assert_references_local(values);
        }
        TypeRef::Tuple { items } => items.iter().for_each(assert_references_local),
        _ => {}
    }
}

#[test]
fn lowered_references_are_never_qualified() {
    for t in ["<>", ")(", "Vec<", "&&'", "HashMap<a::B, (C, Vec<D>)>", "Option<Box<User>>", ""] {
        assert_references_local(&parse(t));
    }
}
