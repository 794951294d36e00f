//! One-line renderings of type references and outcomes, as the analysis
//! reports them and as the runtime metadata records parameter types.

use vstd::prelude::*;
use crate::contract::named_type::{lemma_field_shapes_views, lemma_variant_shapes_views};
use crate::contract::operation::{Outcomes, OutcomesShape};
use crate::contract::type_ref::{views_of, Primitive, TypeRef, TypeShape};
use crate::extract::type_ref::lemma_shapes_of_index;
use crate::ordering::views;
use crate::text::{join, join_strings, joined};

verus! {

broadcast use vstd::seq_lib::group_seq_properties;

/// The name of a primitive, as its `Debug` form spells it.
pub open spec fn primitive_text(p: Primitive) -> Seq<char> {
    match p {
        Primitive::Unit => "Unit"@,
        Primitive::String => "String"@,
        Primitive::Bool => "Bool"@,
        Primitive::I32 => "I32"@,
        Primitive::I64 => "I64"@,
        Primitive::U32 => "U32"@,
        Primitive::U64 => "U64"@,
        Primitive::F32 => "F32"@,
        Primitive::F64 => "F64"@,
        Primitive::Bytes => "Bytes"@,
    }
}

/// The one-line rendering of a type reference.
pub open spec fn type_text(t: TypeShape) -> Seq<char>
    decreases t,
{
    match t {
        TypeShape::Primitive { name } => primitive_text(name),
        TypeShape::Named { name, .. } => name,
        TypeShape::List { items } => "Vec<"@ + type_text(*items) + ">"@,
        TypeShape::SetOf { items } => "Set<"@ + type_text(*items) + ">"@,
        TypeShape::Optional { value } => "Option<"@ + type_text(*value) + ">"@,
        TypeShape::MapOf { keys, values } => "Map<"@ + type_text(*keys) + ","@ + type_text(*values)
            + ">"@,
        TypeShape::Tuple { items } => "("@ + join(type_texts(items), ","@) + ")"@,
        TypeShape::Record { fields } => "record{"@ + join(field_texts(fields), ","@) + "}"@,
        TypeShape::TaggedUnion { variants } => "union{"@ + join(
            variants.map_values(|v: crate::contract::type_ref::VariantShape| v.name),
            "|"@,
        ) + "}"@,
    }
}

/// The renderings of a sequence of type references.
pub open spec fn type_texts(items: Seq<TypeShape>) -> Seq<Seq<char>>
    decreases items,
{
    Seq::new(
        items.len(),
        |k: int|
            if 0 <= k < items.len() {
                type_text(items[k])
            } else {
                Seq::empty()
            },
    )
}

/// The `name:type` renderings of record fields.
pub open spec fn field_texts(fields: Seq<crate::contract::type_ref::FieldShape>) -> Seq<Seq<char>>
    decreases fields,
{
    Seq::new(
        fields.len(),
        |k: int|
            if 0 <= k < fields.len() {
                fields[k].name + ":"@ + type_text(fields[k].ty)
            } else {
                Seq::empty()
            },
    )
}

/// The name of a primitive.
fn primitive_name(p: Primitive) -> (r: &'static str)
    ensures
        r@ == primitive_text(p),
{
    match p {
        Primitive::Unit => "Unit",
        Primitive::String => "String",
        Primitive::Bool => "Bool",
        Primitive::I32 => "I32",
        Primitive::I64 => "I64",
        Primitive::U32 => "U32",
        Primitive::U64 => "U64",
        Primitive::F32 => "F32",
        Primitive::F64 => "F64",
        Primitive::Bytes => "Bytes",
    }
}

/// `prefix`, then `inner`, then `suffix`.
fn wrapped(prefix: &str, inner: &str, suffix: &str) -> (r: String)
    ensures
        r@ == prefix@ + inner@ + suffix@,
{
    let a = joined(prefix, inner);
    a.concat(suffix)
}

/// Render a type reference on one line: primitives by name, named references
/// by their name, collections as `Vec<..>`, `Set<..>`, `Option<..>` and
/// `Map<k,v>`, tuples as `(a,b)`, records as `record{name:type,..}` and
/// unions as `union{A|B}`.
pub fn display_type_ref(ty: &TypeRef) -> (r: String)
    ensures
        r@ == type_text(ty@),
    decreases ty,
{
    match ty {
        TypeRef::Primitive { name } => String::from_str(primitive_name(*name)),
        TypeRef::Named { name, .. } => name.clone(),
        TypeRef::List { items } => {
            let inner = display_type_ref(items);
            wrapped("Vec<", inner.as_str(), ">")
        },
        TypeRef::SetOf { items } => {
            let inner = display_type_ref(items);
            wrapped("Set<", inner.as_str(), ">")
        },
        TypeRef::Optional { value } => {
            let inner = display_type_ref(value);
            wrapped("Option<", inner.as_str(), ">")
        },
        TypeRef::MapOf { keys, values } => {
            let k = display_type_ref(keys);
            let v = display_type_ref(values);
            let a = wrapped("Map<", k.as_str(), ",");
            let b = a.concat(v.as_str());
            b.concat(">")
        },
        TypeRef::Tuple { items } => {
            let ghost shapes = ty@->Tuple_items;
            proof {
                lemma_shapes_of_index(items@);
            }
            let mut parts: Vec<String> = Vec::new();
            let mut i: usize = 0;
            while i < items.len()
                invariant
                    i <= items.len(),
                    *ty is Tuple && ty->Tuple_items == *items,
                    shapes == ty@->Tuple_items,
                    shapes.len() == items@.len(),
                    forall|j: int| 0 <= j < items@.len() ==> shapes[j] == (#[trigger] items@[j])@,
                    parts@.len() == i,
                    forall|j: int| 0 <= j < i ==> (#[trigger] parts@[j])@ == type_text(shapes[j]),
                decreases items.len() - i,
            {
                proof {
                    assert(decreases_to!(*ty => ty->Tuple_items));
                    assert(decreases_to!(*items => items@));
                    assert(decreases_to!(items@ => items@[i as int]));
                }
                let p = display_type_ref(&items[i]);
                parts.push(p);
                i = i + 1;
            }
            let body = join_strings(&parts, ",");
            proof {
                assert(parts@.map_values(|s: String| s@) =~= type_texts(shapes));
            }
            wrapped("(", body.as_str(), ")")
        },
        TypeRef::Record { fields } => {
            let ghost shapes = ty@->Record_fields;
            proof {
                lemma_field_shapes_views(fields@);
            }
            let mut parts: Vec<String> = Vec::new();
            let mut i: usize = 0;
            while i < fields.len()
                invariant
                    i <= fields.len(),
                    *ty is Record && ty->Record_fields == *fields,
                    shapes == ty@->Record_fields,
                    shapes == views_of(fields@),
                    parts@.len() == i,
                    forall|j: int|
                        0 <= j < i ==> (#[trigger] parts@[j])@ == shapes[j].name + ":"@ + type_text(
                            shapes[j].ty,
                        ),
                decreases fields.len() - i,
            {
                proof {
                    assert(decreases_to!(*ty => ty->Record_fields));
                    assert(decreases_to!(*fields => fields@));
                    assert(decreases_to!(fields@ => fields@[i as int]));
                    assert(decreases_to!(fields@[i as int] => fields@[i as int].ty));
                }
                let t = display_type_ref(&fields[i].ty);
                let a = joined(fields[i].name.as_str(), ":");
                let p = a.concat(t.as_str());
                proof {
                    assert(shapes[i as int] == fields@[i as int]@);
                }
                parts.push(p);
                i = i + 1;
            }
            let body = join_strings(&parts, ",");
            proof {
                assert(parts@.map_values(|s: String| s@) =~= field_texts(shapes));
            }
            wrapped("record{", body.as_str(), "}")
        },
        TypeRef::TaggedUnion { variants } => {
            let ghost shapes = ty@->TaggedUnion_variants;
            proof {
                lemma_variant_shapes_views(variants@);
            }
            let mut parts: Vec<String> = Vec::new();
            let mut i: usize = 0;
            while i < variants.len()
                invariant
                    i <= variants.len(),
                    shapes == views_of(variants@),
                    parts@.len() == i,
                    forall|j: int| 0 <= j < i ==> (#[trigger] parts@[j])@ == shapes[j].name,
                decreases variants.len() - i,
            {
                let p = variants[i].name.clone();
                proof {
                    assert(shapes[i as int] == variants@[i as int]@);
                }
                parts.push(p);
                i = i + 1;
            }
            let body = join_strings(&parts, "|");
            proof {
                assert(parts@.map_values(|s: String| s@) =~= shapes.map_values(
                    |v: crate::contract::type_ref::VariantShape| v.name,
                ));
            }
            wrapped("union{", body.as_str(), "}")
        },
    }
}

/// The text of a boolean.
pub open spec fn bool_text(b: bool) -> Seq<char> {
    if b {
        "true"@
    } else {
        "false"@
    }
}

/// The one-line summary of outcomes.
pub open spec fn outcomes_text(o: OutcomesShape) -> Seq<char> {
    "result="@ + (match o.result {
        Some(t) => type_text(t),
        None => "none"@,
    }) + ", empty="@ + bool_text(o.empty) + ", errors=["@ + join(
        o.errors.map_values(|e: crate::contract::operation::ErrorOutcomeShape| e.name),
        ","@,
    ) + "]"@
}

/// Summarize outcomes on one line: `result=<type or none>, empty=<bool>,
/// errors=[<names>]`.
pub fn outcomes_summary(out: &Outcomes) -> (r: String)
    ensures
        r@ == outcomes_text(out@),
{
    let result = match &out.result {
        Some(t) => display_type_ref(t),
        None => String::from_str("none"),
    };
    let mut names: Vec<String> = Vec::new();
    let mut i: usize = 0;
    while i < out.errors.len()
        invariant
            i <= out.errors.len(),
            names@.len() == i,
            forall|j: int| 0 <= j < i ==> (#[trigger] names@[j])@ == out.errors@[j].name@,
        decreases out.errors.len() - i,
    {
        names.push(out.errors[i].name.clone());
        i = i + 1;
    }
    let errors = join_strings(&names, ",");
    proof {
        assert(names@.map_values(|s: String| s@) =~= out@.errors.map_values(
            |e: crate::contract::operation::ErrorOutcomeShape| e.name,
        ));
    }
    let a = joined("result=", result.as_str());
    let b = a.concat(", empty=");
    let c = b.concat(if out.empty { "true" } else { "false" });
    let d = c.concat(", errors=[");
    let e = d.concat(errors.as_str());
    e.concat("]")
}

/// The name of the first declared error, if any.
pub fn error_summary(out: &Outcomes) -> (r: Option<String>)
    ensures
        match r {
            Some(n) => out.errors@.len() > 0 && n@ == out.errors@[0].name@,
            None => out.errors@.len() == 0,
        },
{
    if out.errors.len() > 0 {
        Some(out.errors[0].name.clone())
    } else {
        None
    }
}

} // verus!
