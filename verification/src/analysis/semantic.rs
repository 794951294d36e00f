//! Lowering resolved types, as a semantic analysis of the source reports
//! them, into the registry's type references and completion outcomes.
//!
//! A resolved type is read through its display text, whether it is the unit
//! type, its algebraic data type (name, arguments, crate and module) and its
//! own type arguments. Scalars are recognized by their display text (the
//! integer widths collapse onto the registry's 64-bit scalars, save `i32` and
//! `u32`); `Vec`/`VecDeque`, `Option` and `HashMap`/`BTreeMap` become lists,
//! optionals and maps; a declared type becomes a named reference; a
//! parenthesized type with type arguments becomes a tuple; anything else is
//! named by its type name or, failing that, its display text.

use vstd::prelude::*;
use crate::contract::operation::{ErrorOutcome, ErrorOutcomeShape, Outcomes, OutcomesShape};
use crate::contract::type_ref::{shapes_of, views_of, Primitive, TypeRef, TypeShape, lemma_shapes_of_push};
use crate::ordering::{contains_string, views};
use crate::text::{join, join_strings, joined, str_eq};

verus! {

broadcast use vstd::seq_lib::group_seq_properties;

/// A resolved type, reduced to what the lowering reads.
#[derive(Debug, PartialEq, Eq)]
pub struct SemanticType {
    /// The type as the analysis displays it, e.g. `()`, `Vec<u8>`,
    /// `(u8, bool)`.
    pub display: String,
    /// Whether this is the unit type.
    pub is_unit: bool,
    /// The algebraic data type this is an instance of, if any.
    pub adt: Option<AdtView>,
    /// The type's own type arguments (for a tuple, its elements).
    pub type_arguments: Vec<SemanticType>,
}

/// An algebraic data type instance: its name, its generic arguments, and
/// where it is declared.
#[derive(Debug, PartialEq, Eq)]
pub struct AdtView {
    /// The type's name, without path.
    pub name: String,
    /// The generic arguments; `None` for one that is not a type.
    pub args: Vec<Option<SemanticType>>,
    /// The declaring crate's display name; empty when it has none.
    pub crate_name: String,
    /// The declaring module's path segments, outermost first.
    pub module_segments: Vec<String>,
}

/// The scalar a display text names.
pub open spec fn scalar_of(d: Seq<char>) -> Option<Primitive> {
    if d == "()"@ {
        Some(Primitive::Unit)
    } else if d == "String"@ || d == "std::string::String"@ || d == "alloc::string::String"@ {
        Some(Primitive::String)
    } else if d == "bool"@ {
        Some(Primitive::Bool)
    } else if d == "i32"@ {
        Some(Primitive::I32)
    } else if d == "i64"@ || d == "isize"@ || d == "i8"@ || d == "i16"@ || d == "i128"@ {
        Some(Primitive::I64)
    } else if d == "u32"@ {
        Some(Primitive::U32)
    } else if d == "u64"@ || d == "usize"@ || d == "u8"@ || d == "u16"@ || d == "u128"@ {
        Some(Primitive::U64)
    } else if d == "f32"@ {
        Some(Primitive::F32)
    } else if d == "f64"@ {
        Some(Primitive::F64)
    } else {
        None
    }
}

/// A reference to `name` in the current component.
pub open spec fn named_of(name: Seq<char>) -> TypeShape {
    TypeShape::Named { name, component_id: None, registry_id: None }
}

/// The lowering of a resolved type, with `known` the declared type names.
pub open spec fn ra_lowered(ty: SemanticType, known: Seq<Seq<char>>) -> TypeShape
    decreases ty,
{
    match scalar_of(ty.display@) {
        Some(p) => TypeShape::Primitive { name: p },
        None => {
            let by_adt: Option<TypeShape> = match ty.adt {
                Some(adt) => {
                    let head = adt.name@;
                    let a0 = if adt.args@.len() > 0 {
                        match adt.args@[0] {
                            Some(t) => ra_lowered(t, known),
                            None => TypeShape::Primitive { name: Primitive::Unit },
                        }
                    } else {
                        TypeShape::Primitive { name: Primitive::Unit }
                    };
                    let a1 = if adt.args@.len() > 1 {
                        match adt.args@[1] {
                            Some(t) => ra_lowered(t, known),
                            None => TypeShape::Primitive { name: Primitive::Unit },
                        }
                    } else {
                        TypeShape::Primitive { name: Primitive::Unit }
                    };
                    if head == "Vec"@ || head == "VecDeque"@ {
                        Some(TypeShape::List { items: Box::new(a0) })
                    } else if head == "Option"@ {
                        Some(TypeShape::Optional { value: Box::new(a0) })
                    } else if head == "HashMap"@ || head == "BTreeMap"@ {
                        Some(TypeShape::MapOf { keys: Box::new(a0), values: Box::new(a1) })
                    } else if known.contains(head) {
                        Some(named_of(head))
                    } else {
                        None
                    }
                },
                None => None,
            };
            match by_adt {
                Some(s) => s,
                None => {
                    let items = Seq::new(
                        ty.type_arguments@.len(),
                        |k: int|
                            if 0 <= k < ty.type_arguments@.len() {
                                ra_lowered(ty.type_arguments@[k], known)
                            } else {
                                TypeShape::Primitive { name: Primitive::Unit }
                            },
                    );
                    if ty.display@.len() > 0 && ty.display@[0] == '(' && items.len() > 0 {
                        TypeShape::Tuple { items }
                    } else {
                        match ty.adt {
                            Some(adt) => named_of(adt.name@),
                            None => named_of(ty.display@),
                        }
                    }
                },
            }
        },
    }
}

/// The scalar a display text names.
fn scalar(d: &str) -> (r: Option<Primitive>)
    ensures
        r == scalar_of(d@),
{
    if str_eq(d, "()") {
        Some(Primitive::Unit)
    } else if str_eq(d, "String") || str_eq(d, "std::string::String") || str_eq(d, "alloc::string::String") {
        Some(Primitive::String)
    } else if str_eq(d, "bool") {
        Some(Primitive::Bool)
    } else if str_eq(d, "i32") {
        Some(Primitive::I32)
    } else if str_eq(d, "i64") || str_eq(d, "isize") || str_eq(d, "i8") || str_eq(d, "i16") || str_eq(d, "i128") {
        Some(Primitive::I64)
    } else if str_eq(d, "u32") {
        Some(Primitive::U32)
    } else if str_eq(d, "u64") || str_eq(d, "usize") || str_eq(d, "u8") || str_eq(d, "u16") || str_eq(d, "u128") {
        Some(Primitive::U64)
    } else if str_eq(d, "f32") {
        Some(Primitive::F32)
    } else if str_eq(d, "f64") {
        Some(Primitive::F64)
    } else {
        None
    }
}

/// The lowering of the `k`-th generic argument of `adt`; unit when absent or
/// not a type.
fn adt_arg(adt: &AdtView, k: usize, known: &Vec<String>) -> (r: TypeRef)
    ensures
        r@ == (if k < adt.args@.len() {
            match adt.args@[k as int] {
                Some(t) => ra_lowered(t, views(known@)),
                None => TypeShape::Primitive { name: Primitive::Unit },
            }
        } else {
            TypeShape::Primitive { name: Primitive::Unit }
        }),
    decreases adt, 0nat,
{
    if k < adt.args.len() {
        match &adt.args[k] {
            Some(t) => {
                proof {
                    assert(decreases_to!(adt.args => adt.args@));
                    assert(decreases_to!(adt.args@ => adt.args@[k as int]));
                }
                type_ref_from_ra(known, t)
            },
            None => TypeRef::Primitive { name: Primitive::Unit },
        }
    } else {
        TypeRef::Primitive { name: Primitive::Unit }
    }
}

/// Lower a resolved type into a [`TypeRef`], with `known` the declared type
/// names.
pub fn type_ref_from_ra(known: &Vec<String>, ty: &SemanticType) -> (r: TypeRef)
    ensures
        r@ == ra_lowered(*ty, views(known@)),
    decreases ty, 1nat,
{
    if let Some(p) = scalar(ty.display.as_str()) {
        return TypeRef::Primitive { name: p };
    }
    if let Some(adt) = &ty.adt {
        let head = adt.name.as_str();
        if str_eq(head, "Vec") || str_eq(head, "VecDeque") {
            return TypeRef::List { items: Box::new(adt_arg(adt, 0, known)) };
        }
        if str_eq(head, "Option") {
            return TypeRef::Optional { value: Box::new(adt_arg(adt, 0, known)) };
        }
        if str_eq(head, "HashMap") || str_eq(head, "BTreeMap") {
            let keys = adt_arg(adt, 0, known);
            let values = adt_arg(adt, 1, known);
            return TypeRef::MapOf { keys: Box::new(keys), values: Box::new(values) };
        }
        if contains_string(known, head) {
            return TypeRef::Named { name: adt.name.clone(), component_id: None, registry_id: None };
        }
    }
    let ghost kv = views(known@);
    let mut items: Vec<TypeRef> = Vec::new();
    let mut i: usize = 0;
    while i < ty.type_arguments.len()
        invariant
            i <= ty.type_arguments.len(),
            kv == views(known@),
            items@.len() == i,
            shapes_of(items@) == Seq::new(
                i as nat,
                |k: int|
                    if 0 <= k < ty.type_arguments@.len() {
                        ra_lowered(ty.type_arguments@[k], kv)
                    } else {
                        TypeShape::Primitive { name: Primitive::Unit }
                    },
            ),
        decreases ty.type_arguments.len() - i,
    {
        proof {
            assert(decreases_to!(ty.type_arguments => ty.type_arguments@));
            assert(decreases_to!(ty.type_arguments@ => ty.type_arguments@[i as int]));
        }
        let item = type_ref_from_ra(known, &ty.type_arguments[i]);
        let ghost prev = items@;
        items.push(item);
        proof {
            lemma_shapes_of_push(prev, item);
            assert(shapes_of(items@) =~= Seq::new(
                (i + 1) as nat,
                |k: int|
                    if 0 <= k < ty.type_arguments@.len() {
                        ra_lowered(ty.type_arguments@[k], kv)
                    } else {
                        TypeShape::Primitive { name: Primitive::Unit }
                    },
            ));
        }
        i = i + 1;
    }
    let is_paren = ty.display.unicode_len() > 0 && ty.display.get_char(0) == '(';
    if is_paren && items.len() > 0 {
        let r = TypeRef::Tuple { items };
        proof {
            let expected = Seq::new(
                ty.type_arguments@.len(),
                |k: int|
                    if 0 <= k < ty.type_arguments@.len() {
                        ra_lowered(ty.type_arguments@[k], views(known@))
                    } else {
                        TypeShape::Primitive { name: Primitive::Unit }
                    },
            );
            assert(shapes_of(items@) =~= expected);
            assert(r@ =~= TypeShape::Tuple { items: expected });
            assert(scalar_of(ty.display@) is None);
            assert(ty.display@.len() > 0 && ty.display@[0] == '(');
            assert(expected.len() > 0);
            assert(ra_lowered(*ty, views(known@)) is Tuple);
            assert(ra_lowered(*ty, views(known@))->Tuple_items =~= expected);
        }
        return r;
    }
    let name = match &ty.adt {
        Some(adt) => adt.name.clone(),
        None => ty.display.clone(),
    };
    TypeRef::Named { name, component_id: None, registry_id: None }
}

/// `p` begins with `k`.
pub open spec fn starts_with(p: Seq<char>, k: Seq<char>) -> bool {
    p.len() >= k.len() && p.subrange(0, k.len() as int) == k
}

/// The module path of an ADT: its segments joined with `::`.
pub open spec fn module_path_of(adt: AdtView) -> Seq<char> {
    join(views(adt.module_segments@), "::"@)
}

/// The error name of an error type: an ADT's name qualified by its crate and
/// module (a fixture-crate type by its bare name), else the display text.
pub open spec fn ra_error_name(ty: SemanticType) -> Seq<char> {
    match ty.adt {
        Some(adt) => {
            let simple = adt.name@;
            let path = module_path_of(adt);
            let k = adt.crate_name@;
            if k == "ra_extract_fixture"@ || k == "ra-extract-fixture"@ {
                simple
            } else if k.len() == 0 && path.len() == 0 {
                simple
            } else if k.len() == 0 {
                path + "::"@ + simple
            } else if path.len() == 0 {
                k + "::"@ + simple
            } else if starts_with(path, k) {
                path + "::"@ + simple
            } else {
                k + "::"@ + path + "::"@ + simple
            }
        },
        None => ty.display@,
    }
}

/// The lowering of an optional resolved type.
pub open spec fn opt_lowered(t: Option<SemanticType>, known: Seq<Seq<char>>) -> Option<TypeShape> {
    match t {
        Some(x) => Some(ra_lowered(x, known)),
        None => None,
    }
}

/// The `k`-th generic argument of `adt`, when present and a type.
pub open spec fn adt_arg_of(adt: AdtView, k: int) -> Option<SemanticType> {
    if 0 <= k < adt.args@.len() {
        adt.args@[k]
    } else {
        None
    }
}

/// The completion outcomes of a resolved return type.
pub open spec fn ra_outcomes(ty: SemanticType, known: Seq<Seq<char>>) -> OutcomesShape {
    let plain = OutcomesShape { result: Some(ra_lowered(ty, known)), empty: false, errors: Seq::empty() };
    if ty.is_unit {
        OutcomesShape { result: None, empty: false, errors: Seq::empty() }
    } else {
        match ty.adt {
            Some(adt) => if adt.name@ == "Result"@ {
                let ok = adt_arg_of(adt, 0);
                let errors = match adt_arg_of(adt, 1) {
                    Some(e) => seq![ErrorOutcomeShape { name: ra_error_name(e), ty: None, description: None }],
                    None => Seq::empty(),
                };
                match ok {
                    Some(ok_ty) => match ok_ty.adt {
                        Some(oa) => if oa.name@ == "Option"@ {
                            OutcomesShape { result: opt_lowered(adt_arg_of(oa, 0), known), empty: true, errors }
                        } else {
                            OutcomesShape { result: Some(ra_lowered(ok_ty, known)), empty: false, errors }
                        },
                        None => OutcomesShape { result: Some(ra_lowered(ok_ty, known)), empty: false, errors },
                    },
                    None => OutcomesShape { result: None, empty: false, errors },
                }
            } else if adt.name@ == "Option"@ {
                OutcomesShape { result: opt_lowered(adt_arg_of(adt, 0), known), empty: true, errors: Seq::empty() }
            } else {
                plain
            },
            None => plain,
        }
    }
}

/// Whether `p` begins with `k`.
fn has_prefix(p: &str, k: &str) -> (r: bool)
    ensures
        r == starts_with(p@, k@),
{
    let np = p.unicode_len();
    let nk = k.unicode_len();
    if np < nk {
        return false;
    }
    let mut i: usize = 0;
    while i < nk
        invariant
            i <= nk <= np,
            np == p@.len(),
            nk == k@.len(),
            forall|j: int| 0 <= j < i ==> p@[j] == k@[j],
        decreases nk - i,
    {
        if p.get_char(i) != k.get_char(i) {
            proof {
                assert(p@.subrange(0, nk as int)[i as int] != k@[i as int]);
            }
            return false;
        }
        i = i + 1;
    }
    proof {
        assert(p@.subrange(0, nk as int) =~= k@);
    }
    true
}

/// The path of a module: its segments joined with `::`.
pub fn join_module_path(segments: &Vec<String>) -> (r: String)
    ensures
        r@ == join(views(segments@), "::"@),
{
    proof {
        assert(views(segments@) =~= segments@.map_values(|s: String| s@));
    }
    join_strings(segments, "::")
}

/// The error name of an error type: an ADT's name qualified by its crate and
/// module path, except for the analysed fixture crate, whose types go by
/// their bare names; a non-ADT type goes by its display text.
pub fn error_name(ty: &SemanticType) -> (r: String)
    ensures
        r@ == ra_error_name(*ty),
{
    match &ty.adt {
        Some(adt) => {
            let simple = adt.name.as_str();
            let path = join_module_path(&adt.module_segments);
            let k = adt.crate_name.as_str();
            if str_eq(k, "ra_extract_fixture") || str_eq(k, "ra-extract-fixture") {
                String::from_str(simple)
            } else if k.unicode_len() == 0 && path.unicode_len() == 0 {
                String::from_str(simple)
            } else if k.unicode_len() == 0 {
                let a = path.concat("::");
                a.concat(simple)
            } else if path.unicode_len() == 0 {
                let a = joined(k, "::");
                a.concat(simple)
            } else if has_prefix(path.as_str(), k) {
                let a = path.concat("::");
                a.concat(simple)
            } else {
                let a = joined(k, "::");
                let b = a.concat(path.as_str());
                let c = b.concat("::");
                c.concat(simple)
            }
        },
        None => ty.display.clone(),
    }
}

/// The lowering of the `k`-th generic argument of `adt`, when present and a
/// type.
fn opt_adt_arg(adt: &AdtView, k: usize, known: &Vec<String>) -> (r: Option<TypeRef>)
    ensures
        match r {
            Some(t) => opt_lowered(adt_arg_of(*adt, k as int), views(known@)) == Some(t@),
            None => opt_lowered(adt_arg_of(*adt, k as int), views(known@)) is None,
        },
{
    if k < adt.args.len() {
        match &adt.args[k] {
            Some(t) => Some(type_ref_from_ra(known, t)),
            None => None,
        }
    } else {
        None
    }
}

/// The view of an optional type reference.
pub open spec fn opt_shape(o: Option<TypeRef>) -> Option<TypeShape> {
    match o {
        Some(t) => Some(t@),
        None => None,
    }
}

/// Classify a resolved return type into completion [`Outcomes`]: unit has
/// none; `Result<T, E>` a result `T` (peeling `Option<T>` to an empty
/// completion) and an error named after `E`; `Option<T>` a result `T` and an
/// empty completion; anything else a result of its own type.
pub fn classify_return_ra(known: &Vec<String>, ty: &SemanticType) -> (r: Outcomes)
    ensures
        r@ == ra_outcomes(*ty, views(known@)),
{
    if ty.is_unit {
        return Outcomes::none();
    }
    if let Some(adt) = &ty.adt {
        if str_eq(adt.name.as_str(), "Result") {
            let mut errors: Vec<ErrorOutcome> = Vec::new();
            if adt.args.len() > 1 {
                if let Some(e) = &adt.args[1] {
                    errors.push(ErrorOutcome { name: error_name(e), ty: None, description: None });
                }
            }
            let ghost ev = match adt_arg_of(*adt, 1) {
                Some(e) => seq![ErrorOutcomeShape { name: ra_error_name(e), ty: None, description: None }],
                None => Seq::<ErrorOutcomeShape>::empty(),
            };
            proof {
                assert(views_of(errors@) =~= ev);
            }
            if adt.args.len() > 0 {
                if let Some(ok_ty) = &adt.args[0] {
                    if let Some(oa) = &ok_ty.adt {
                        if str_eq(oa.name.as_str(), "Option") {
                            let result = opt_adt_arg(oa, 0, known);
                            let r = Outcomes { result, empty: true, errors };
                            proof {
                                assert(opt_shape(r.result) == opt_lowered(adt_arg_of(*oa, 0), views(known@)));
                            }
                            return r;
                        }
                    }
                    return Outcomes { result: Some(type_ref_from_ra(known, ok_ty)), empty: false, errors };
                }
            }
            return Outcomes { result: None, empty: false, errors };
        }
        if str_eq(adt.name.as_str(), "Option") {
            let result = opt_adt_arg(adt, 0, known);
            let r = Outcomes { result, empty: true, errors: Vec::new() };
            proof {
                assert(views_of(r.errors@) =~= Seq::<ErrorOutcomeShape>::empty());
            }
            return r;
        }
    }
    let r = Outcomes { result: Some(type_ref_from_ra(known, ty)), empty: false, errors: Vec::new() };
    proof {
        assert(views_of(r.errors@) =~= Seq::<ErrorOutcomeShape>::empty());
    }
    r
}


/// A display text ending in `>` (a type shown with its generic arguments)
/// names no scalar.
proof fn lemma_generic_display_not_scalar(d: Seq<char>)
    requires
        d.len() > 0,
        d.last() == '>',
    ensures
        scalar_of(d) is None,
{
    reveal_strlit("()");
    reveal_strlit("String");
    reveal_strlit("std::string::String");
    reveal_strlit("alloc::string::String");
    reveal_strlit("bool");
    reveal_strlit("i32");
    reveal_strlit("i64");
    reveal_strlit("isize");
    reveal_strlit("i8");
    reveal_strlit("i16");
    reveal_strlit("i128");
    reveal_strlit("u32");
    reveal_strlit("u64");
    reveal_strlit("usize");
    reveal_strlit("u8");
    reveal_strlit("u16");
    reveal_strlit("u128");
    reveal_strlit("f32");
    reveal_strlit("f64");
}

/// A standard map type resolved with key type `k` and value type `v`, shown
/// with its generic arguments, lowers to the map from the lowering of `k` to
/// the lowering of `v`: it is never a named reference.
pub proof fn law_standard_maps(ty: SemanticType, k: SemanticType, v: SemanticType, known: Seq<Seq<char>>)
    requires
        ty.display@.len() > 0,
        ty.display@.last() == '>',
        ty.adt matches Some(adt) && (adt.name@ == "HashMap"@ || adt.name@ == "BTreeMap"@) && adt.args@
            == seq![Some(k), Some(v)],
    ensures
        ra_lowered(ty, known) == (TypeShape::MapOf {
            keys: Box::new(ra_lowered(k, known)),
            values: Box::new(ra_lowered(v, known)),
        }),
{
    reveal_strlit("Vec");
    reveal_strlit("VecDeque");
    reveal_strlit("Option");
    reveal_strlit("HashMap");
    reveal_strlit("BTreeMap");
    lemma_generic_display_not_scalar(ty.display@);
    let adt = ty.adt.unwrap();
    assert(adt.args@.len() == 2);
    assert(adt.args@[0] == Some(k));
    assert(adt.args@[1] == Some(v));
    assert("Vec"@.len() == 3 && "Option"@.len() == 6 && "HashMap"@.len() == 7);
    assert("VecDeque"@[0] == 'V' && "BTreeMap"@[0] == 'B' && "HashMap"@[0] == 'H');
    assert(adt.name@ != "Vec"@ && adt.name@ != "VecDeque"@ && adt.name@ != "Option"@);
}

/// A standard single-argument container resolved with element type `x`,
/// shown with its generic arguments: `Vec` and `VecDeque` lower to the list
/// of the lowering of `x`, `Option` to the optional of it.
pub proof fn law_standard_containers(ty: SemanticType, x: SemanticType, known: Seq<Seq<char>>)
    requires
        ty.display@.len() > 0,
        ty.display@.last() == '>',
        ty.adt matches Some(adt) && adt.args@ == seq![Some(x)],
    ensures
        ty.adt matches Some(adt) && (adt.name@ == "Vec"@ || adt.name@ == "VecDeque"@) ==> ra_lowered(ty, known)
            == (TypeShape::List { items: Box::new(ra_lowered(x, known)) }),
        ty.adt matches Some(adt) && adt.name@ == "Option"@ ==> ra_lowered(ty, known) == (TypeShape::Optional {
            value: Box::new(ra_lowered(x, known)),
        }),
{
    reveal_strlit("Vec");
    reveal_strlit("VecDeque");
    reveal_strlit("Option");
    lemma_generic_display_not_scalar(ty.display@);
    let adt = ty.adt.unwrap();
    assert(adt.args@.len() == 1);
    assert(adt.args@[0] == Some(x));
    assert("Vec"@.len() == 3 && "Option"@.len() == 6 && "VecDeque"@.len() == 8);
    assert("Option"@ != "Vec"@ && "Option"@ != "VecDeque"@);
}


/// A resolved type shown with its generic arguments, whose head is a
/// declared type and not a standard container, lowers to a reference to the
/// head by name in the current component.
pub proof fn law_declared_heads_are_named(ty: SemanticType, known: Seq<Seq<char>>)
    requires
        ty.display@.len() > 0,
        ty.display@.last() == '>',
        ty.adt matches Some(adt) && known.contains(adt.name@) && adt.name@ != "Vec"@ && adt.name@
            != "VecDeque"@ && adt.name@ != "Option"@ && adt.name@ != "HashMap"@ && adt.name@ != "BTreeMap"@,
    ensures
        ra_lowered(ty, known) == (TypeShape::Named {
            name: ty.adt->0.name@,
            component_id: None,
            registry_id: None,
        }),
{
    lemma_generic_display_not_scalar(ty.display@);
}

} // verus!
