//! Derive a registry document from the discovery metadata of annotated code.
//!
//! Each operation's parameters become inputs and its return type becomes
//! completion outcomes; each watched type becomes a named record (`"struct"`)
//! or tagged union (anything else). Grouping, ordering and the document
//! envelope are those of [`assemble`]. Setups are excluded from the
//! operations and from component grouping. Each derived component gets an
//! empty `dependencies` list, so a reference that crosses a component boundary
//! surfaces as a validation violation.

use vstd::prelude::*;
use crate::contract::assemble::{
    assemble, assembled_document, component_tags, law_assembly_ignores_input_order, law_component_contents,
    law_one_component_per_tag, op_names_determine_ops,
    type_names_determine_types, ResolvedOperation, ResolvedOperationShape, ResolvedType, ResolvedTypeShape,
};
use crate::contract::document::{RegistryDocument, DocumentShape};
use crate::contract::named_type::{lemma_field_shapes_views, lemma_variant_shapes_views, NamedType, NamedTypeShape};
use crate::contract::operation::{NamedValue, NamedValueShape, Operation, OperationShape};
use crate::contract::type_ref::{views_of, Field, FieldShape, TypeRef, TypeShape, Variant, VariantShape};
use crate::extract::identity::RegistryIdentity;
use crate::extract::return_kind::{classify_return, lemma_outcomes_read_membership, outcomes_of};
use crate::extract::type_ref::{lemma_lowering_reads_membership, lowered, parse_type_ref, same_members};
use crate::ordering::{lemma_map_multiset, str_views};
use crate::text::str_eq;

verus! {

/// A named, typed pair of the metadata: `(name, stringified type)`.
pub type FieldMeta = (String, String);

/// The views of `(name, type)` pairs.
pub open spec fn pair_views(v: Seq<FieldMeta>) -> Seq<(Seq<char>, Seq<char>)> {
    v.map_values(|p: FieldMeta| (p.0@, p.1@))
}

/// The discovery metadata of one annotated operation.
#[derive(Debug, Clone)]
pub struct OpMeta {
    /// The operation name.
    pub name: String,
    /// The module path the operation is declared in.
    pub module: String,
    /// The function name.
    pub fn_name: String,
    /// Whether the operation is a setup (a wiring helper).
    pub is_setup: bool,
    /// Whether the function is `async`.
    pub is_async: bool,
    /// The parameters, as `(name, stringified type)` pairs.
    pub params: Vec<FieldMeta>,
    /// The stringified return type.
    pub return_type: String,
    /// What a setup fills.
    pub fills: String,
    /// The component the operation belongs to.
    pub component: String,
}

/// The discovery metadata of one enum variant.
#[derive(Debug, Clone)]
pub struct VariantMeta {
    /// The variant name.
    pub name: String,
    /// The named fields of the variant; empty for unit and tuple variants.
    pub fields: Vec<FieldMeta>,
}

/// The discovery metadata of one watched type.
#[derive(Debug, Clone)]
pub struct TypeMeta {
    /// The type name.
    pub name: String,
    /// The module path the type is declared in.
    pub module: String,
    /// `"struct"` or `"enum"`.
    pub kind: String,
    /// The watched fields of a struct.
    pub fields: Vec<FieldMeta>,
    /// The variants of an enum.
    pub variants: Vec<VariantMeta>,
    /// The component the type belongs to.
    pub component: String,
}

/// The declared type names.
pub open spec fn known_names(types: Seq<TypeMeta>) -> Seq<Seq<char>> {
    types.map_values(|t: TypeMeta| t.name@)
}

/// A lowered field.
pub open spec fn field_shape(f: FieldMeta, known: Seq<Seq<char>>) -> FieldShape {
    FieldShape { name: f.0@, ty: lowered(f.1@, known), description: None }
}

/// A lowered operation.
pub open spec fn operation_shape(op: OpMeta, known: Seq<Seq<char>>) -> OperationShape {
    OperationShape {
        name: op.name@,
        description: None,
        inputs: op.params@.map_values(
            |p: FieldMeta| NamedValueShape { name: p.0@, ty: lowered(p.1@, known), description: None },
        ),
        observations: Seq::empty(),
        outcomes: outcomes_of(op.return_type@, known),
    }
}

/// A lowered variant: a variant with named fields carries an inline record
/// payload, a tuple or unit variant none.
pub open spec fn variant_shape(v: VariantMeta, known: Seq<Seq<char>>) -> VariantShape {
    VariantShape {
        name: v.name@,
        payload: if v.fields@.len() == 0 {
            None
        } else {
            Some(
                TypeShape::Record {
                    fields: v.fields@.map_values(|f: FieldMeta| field_shape(f, known)),
                },
            )
        },
        description: None,
    }
}

/// A lowered named type: `"struct"` becomes a record, anything else a tagged
/// union.
pub open spec fn named_type_shape(t: TypeMeta, known: Seq<Seq<char>>) -> NamedTypeShape {
    if t.kind@ == "struct"@ {
        NamedTypeShape::Record {
            name: t.name@,
            fields: t.fields@.map_values(|f: FieldMeta| field_shape(f, known)),
            description: None,
        }
    } else {
        NamedTypeShape::TaggedUnion {
            name: t.name@,
            variants: t.variants@.map_values(|v: VariantMeta| variant_shape(v, known)),
            description: None,
        }
    }
}

/// An operation's metadata as a resolved operation.
pub open spec fn resolved_op(op: OpMeta, known: Seq<Seq<char>>) -> ResolvedOperationShape {
    ResolvedOperationShape { component: op.component@, is_setup: op.is_setup, operation: operation_shape(op, known) }
}

/// A type's metadata as a resolved type.
pub open spec fn resolved_type(t: TypeMeta, known: Seq<Seq<char>>) -> ResolvedTypeShape {
    ResolvedTypeShape { component: t.component@, named_type: named_type_shape(t, known) }
}

/// The document derived from operation and type metadata under a registry
/// identity.
pub open spec fn derived_document(
    ops: Seq<OpMeta>,
    types: Seq<TypeMeta>,
    registry_id: Seq<char>,
    version: Seq<char>,
) -> DocumentShape {
    assembled_document(
        ops.map_values(|o: OpMeta| resolved_op(o, known_names(types))),
        types.map_values(|t: TypeMeta| resolved_type(t, known_names(types))),
        registry_id,
        version,
    )
}

/// Lower one `(name, type)` pair into a record [`Field`].
pub fn derive_field(field: &FieldMeta, known: &Vec<&str>) -> (r: Field)
    ensures
        r@ == field_shape(*field, str_views(known@)),
{
    Field { name: field.0.clone(), ty: parse_type_ref(field.1.as_str(), known), description: None }
}

fn derive_fields(fields: &Vec<FieldMeta>, known: &Vec<&str>) -> (r: Vec<Field>)
    ensures
        views_of(r@) == fields@.map_values(|f: FieldMeta| field_shape(f, str_views(known@))),
{
    let mut out: Vec<Field> = Vec::new();
    let mut i: usize = 0;
    while i < fields.len()
        invariant
            i <= fields.len(),
            views_of(out@) == fields@.subrange(0, i as int).map_values(|f: FieldMeta| field_shape(f, str_views(known@))),
        decreases fields.len() - i,
    {
        let f = derive_field(&fields[i], known);
        let ghost prev = out@;
        out.push(f);
        proof {
            assert(views_of(out@) =~= views_of(prev).push(f@));
            assert(fields@.subrange(0, i + 1) =~= fields@.subrange(0, i as int).push(fields@[i as int]));
            assert(views_of(out@) =~= fields@.subrange(0, i + 1).map_values(|f: FieldMeta| field_shape(f, str_views(known@))));
        }
        i = i + 1;
    }
    proof {
        assert(fields@.subrange(0, fields.len() as int) =~= fields@);
    }
    out
}

/// Lower one variant into a tagged-union [`Variant`].
pub fn derive_variant(variant: &VariantMeta, known: &Vec<&str>) -> (r: Variant)
    ensures
        r@ == variant_shape(*variant, str_views(known@)),
{
    let payload = if variant.fields.len() == 0 {
        None
    } else {
        let fields = derive_fields(&variant.fields, known);
        proof {
            lemma_field_shapes_views(fields@);
        }
        Some(TypeRef::Record { fields })
    };
    Variant { name: variant.name.clone(), payload, description: None }
}

/// Lower one type's metadata into a [`NamedType`].
pub fn derive_named_type(ty: &TypeMeta, known: &Vec<&str>) -> (r: NamedType)
    ensures
        r@ == named_type_shape(*ty, str_views(known@)),
{
    if str_eq(ty.kind.as_str(), "struct") {
        let fields = derive_fields(&ty.fields, known);
        proof {
            lemma_field_shapes_views(fields@);
        }
        NamedType::Record { name: ty.name.clone(), fields, description: None }
    } else {
        let mut variants: Vec<Variant> = Vec::new();
        let mut i: usize = 0;
        while i < ty.variants.len()
            invariant
                i <= ty.variants.len(),
                views_of(variants@) == ty.variants@.subrange(0, i as int).map_values(
                    |v: VariantMeta| variant_shape(v, str_views(known@)),
                ),
            decreases ty.variants.len() - i,
        {
            let v = derive_variant(&ty.variants[i], known);
            let ghost prev = variants@;
            variants.push(v);
            proof {
                assert(views_of(variants@) =~= views_of(prev).push(v@));
                assert(ty.variants@.subrange(0, i + 1) =~= ty.variants@.subrange(0, i as int).push(ty.variants@[i as int]));
                assert(views_of(variants@) =~= ty.variants@.subrange(0, i + 1).map_values(
                    |v: VariantMeta| variant_shape(v, str_views(known@)),
                ));
            }
            i = i + 1;
        }
        proof {
            assert(ty.variants@.subrange(0, ty.variants.len() as int) =~= ty.variants@);
            lemma_variant_shapes_views(variants@);
        }
        NamedType::TaggedUnion { name: ty.name.clone(), variants, description: None }
    }
}

/// Lower one operation's metadata into an [`Operation`]: parameters become
/// inputs and the return type becomes completion outcomes; observations are
/// not knowable from the signature and stay empty.
pub fn derive_operation(op: &OpMeta, known: &Vec<&str>) -> (r: Operation)
    ensures
        r@ == operation_shape(*op, str_views(known@)),
{
    let mut inputs: Vec<NamedValue> = Vec::new();
    let mut i: usize = 0;
    while i < op.params.len()
        invariant
            i <= op.params.len(),
            views_of(inputs@) == op.params@.subrange(0, i as int).map_values(
                |p: FieldMeta| NamedValueShape { name: p.0@, ty: lowered(p.1@, str_views(known@)), description: None },
            ),
        decreases op.params.len() - i,
    {
        let nv = NamedValue {
            name: op.params[i].0.clone(),
            ty: parse_type_ref(op.params[i].1.as_str(), known),
            description: None,
        };
        let ghost prev = inputs@;
        inputs.push(nv);
        proof {
            assert(views_of(inputs@) =~= views_of(prev).push(nv@));
            assert(op.params@.subrange(0, i + 1) =~= op.params@.subrange(0, i as int).push(op.params@[i as int]));
            assert(views_of(inputs@) =~= op.params@.subrange(0, i + 1).map_values(
                |p: FieldMeta| NamedValueShape { name: p.0@, ty: lowered(p.1@, str_views(known@)), description: None },
            ));
        }
        i = i + 1;
    }
    proof {
        assert(op.params@.subrange(0, op.params.len() as int) =~= op.params@);
    }
    let r = Operation {
        name: op.name.clone(),
        description: None,
        inputs,
        observations: Vec::new(),
        outcomes: classify_return(op.return_type.as_str(), known),
    };
    proof {
        assert(views_of(r.observations@) =~= Seq::<NamedValueShape>::empty());
    }
    r
}

/// Derive a registry document from discovery metadata.
///
/// Setups are wiring helpers, not contract operations, so they are excluded
/// from the derived operations and from component grouping.
pub fn derive(ops: &[OpMeta], types: &[TypeMeta], identity: RegistryIdentity) -> (r: RegistryDocument)
    ensures
        r@ == derived_document(ops@, types@, identity.registry_id@, identity.version@),
{
    let ghost kn = known_names(types@);
    let mut known: Vec<&str> = Vec::new();
    let mut i: usize = 0;
    while i < types.len()
        invariant
            i <= types.len(),
            kn == known_names(types@),
            str_views(known@) == kn.subrange(0, i as int),
        decreases types.len() - i,
    {
        let nm = types[i].name.as_str();
        let ghost prev = known@;
        known.push(nm);
        proof {
            assert(str_views(known@) =~= str_views(prev).push(nm@));
            assert(kn.subrange(0, i + 1) =~= kn.subrange(0, i as int).push(kn[i as int]));
        }
        i = i + 1;
    }
    proof {
        assert(kn.subrange(0, types.len() as int) =~= kn);
    }

    let mut rops: Vec<ResolvedOperation> = Vec::new();
    let mut i: usize = 0;
    while i < ops.len()
        invariant
            i <= ops.len(),
            str_views(known@) == kn,
            views_of(rops@) == ops@.subrange(0, i as int).map_values(|o: OpMeta| resolved_op(o, kn)),
        decreases ops.len() - i,
    {
        let ro = ResolvedOperation {
            component: ops[i].component.clone(),
            is_setup: ops[i].is_setup,
            operation: derive_operation(&ops[i], &known),
        };
        let ghost prev = rops@;
        rops.push(ro);
        proof {
            assert(views_of(rops@) =~= views_of(prev).push(ro@));
            assert(ops@.subrange(0, i + 1) =~= ops@.subrange(0, i as int).push(ops@[i as int]));
            assert(views_of(rops@) =~= ops@.subrange(0, i + 1).map_values(|o: OpMeta| resolved_op(o, kn)));
        }
        i = i + 1;
    }
    proof {
        assert(ops@.subrange(0, ops.len() as int) =~= ops@);
    }

    let mut rtypes: Vec<ResolvedType> = Vec::new();
    let mut i: usize = 0;
    while i < types.len()
        invariant
            i <= types.len(),
            str_views(known@) == kn,
            views_of(rtypes@) == types@.subrange(0, i as int).map_values(|t: TypeMeta| resolved_type(t, kn)),
        decreases types.len() - i,
    {
        let rt = ResolvedType { component: types[i].component.clone(), named_type: derive_named_type(&types[i], &known) };
        let ghost prev = rtypes@;
        rtypes.push(rt);
        proof {
            assert(views_of(rtypes@) =~= views_of(prev).push(rt@));
            assert(types@.subrange(0, i + 1) =~= types@.subrange(0, i as int).push(types@[i as int]));
            assert(views_of(rtypes@) =~= types@.subrange(0, i + 1).map_values(|t: TypeMeta| resolved_type(t, kn)));
        }
        i = i + 1;
    }
    proof {
        assert(types@.subrange(0, types.len() as int) =~= types@);
    }
    assemble(rops.as_slice(), rtypes.as_slice(), identity.registry_id, identity.version)
}


/// Within every component, operations other than setups that share a name
/// carry the same metadata.
pub open spec fn op_metas_named_once(ops: Seq<OpMeta>) -> bool {
    forall|i: int, j: int|
        0 <= i < ops.len() && 0 <= j < ops.len() && !ops[i].is_setup && !ops[j].is_setup
            && ops[i].component@ == ops[j].component@ && ops[i].name@ == ops[j].name@ ==> #[trigger] ops[i]
            == #[trigger] ops[j]
}

/// Within every component, types that share a name carry the same metadata.
pub open spec fn type_metas_named_once(types: Seq<TypeMeta>) -> bool {
    forall|i: int, j: int|
        0 <= i < types.len() && 0 <= j < types.len() && types[i].component@ == types[j].component@
            && types[i].name@ == types[j].name@ ==> #[trigger] types[i] == #[trigger] types[j]
}

/// Reordered type metadata declares the same names.
proof fn lemma_known_names_same_members(types1: Seq<TypeMeta>, types2: Seq<TypeMeta>)
    requires
        types1.to_multiset() == types2.to_multiset(),
    ensures
        same_members(known_names(types1), known_names(types2)),
{
    broadcast use vstd::seq_lib::group_to_multiset_ensures;

    assert forall|n: Seq<char>| known_names(types1).contains(n) implies known_names(types2).contains(n) by {
        let i = choose|i: int| 0 <= i < known_names(types1).len() && known_names(types1)[i] == n;
        assert(types1.contains(types1[i]));
        assert(types1.to_multiset().count(types1[i]) > 0);
        assert(types2.contains(types1[i]));
        let j = choose|j: int| 0 <= j < types2.len() && types2[j] == types1[i];
        assert(known_names(types2)[j] == n);
    }
    assert forall|n: Seq<char>| known_names(types2).contains(n) implies known_names(types1).contains(n) by {
        let j = choose|j: int| 0 <= j < known_names(types2).len() && known_names(types2)[j] == n;
        assert(types2.contains(types2[j]));
        assert(types2.to_multiset().count(types2[j]) > 0);
        assert(types1.contains(types2[j]));
        let i = choose|i: int| 0 <= i < types1.len() && types1[i] == types2[j];
        assert(known_names(types1)[i] == n);
    }
}

/// The lowering of fields reads the declared names only by membership.
proof fn lemma_fields_read_membership(fields: Seq<FieldMeta>, k1: Seq<Seq<char>>, k2: Seq<Seq<char>>)
    requires
        same_members(k1, k2),
    ensures
        fields.map_values(|f: FieldMeta| field_shape(f, k1)) == fields.map_values(
            |f: FieldMeta| field_shape(f, k2),
        ),
{
    assert forall|i: int| 0 <= i < fields.len() implies field_shape(#[trigger] fields[i], k1) == field_shape(
        fields[i],
        k2,
    ) by {
        lemma_lowering_reads_membership(fields[i].1@, k1, k2);
    }
    assert(fields.map_values(|f: FieldMeta| field_shape(f, k1)) =~= fields.map_values(
        |f: FieldMeta| field_shape(f, k2),
    ));
}

/// An operation's lowering reads the declared names only by membership.
proof fn lemma_resolved_op_reads_membership(op: OpMeta, k1: Seq<Seq<char>>, k2: Seq<Seq<char>>)
    requires
        same_members(k1, k2),
    ensures
        resolved_op(op, k1) == resolved_op(op, k2),
{
    let i1 = op.params@.map_values(
        |p: FieldMeta| NamedValueShape { name: p.0@, ty: lowered(p.1@, k1), description: None },
    );
    let i2 = op.params@.map_values(
        |p: FieldMeta| NamedValueShape { name: p.0@, ty: lowered(p.1@, k2), description: None },
    );
    assert forall|i: int| 0 <= i < op.params@.len() implies i1[i] == i2[i] by {
        lemma_lowering_reads_membership(op.params@[i].1@, k1, k2);
    }
    assert(i1 =~= i2);
    lemma_outcomes_read_membership(op.return_type@, k1, k2);
}

/// A type's lowering reads the declared names only by membership.
proof fn lemma_resolved_type_reads_membership(t: TypeMeta, k1: Seq<Seq<char>>, k2: Seq<Seq<char>>)
    requires
        same_members(k1, k2),
    ensures
        resolved_type(t, k1) == resolved_type(t, k2),
{
    lemma_fields_read_membership(t.fields@, k1, k2);
    let v1 = t.variants@.map_values(|v: VariantMeta| variant_shape(v, k1));
    let v2 = t.variants@.map_values(|v: VariantMeta| variant_shape(v, k2));
    assert forall|i: int| 0 <= i < t.variants@.len() implies v1[i] == v2[i] by {
        lemma_fields_read_membership(t.variants@[i].fields@, k1, k2);
    }
    assert(v1 =~= v2);
}

/// The derived document does not depend on the order in which the operation
/// and type metadata arrive, provided that within each component a name
/// stands for one operation and one type.
pub proof fn law_derivation_ignores_metadata_order(
    ops1: Seq<OpMeta>,
    ops2: Seq<OpMeta>,
    types1: Seq<TypeMeta>,
    types2: Seq<TypeMeta>,
    registry_id: Seq<char>,
    version: Seq<char>,
)
    requires
        ops1.to_multiset() == ops2.to_multiset(),
        types1.to_multiset() == types2.to_multiset(),
        op_metas_named_once(ops1),
        type_metas_named_once(types1),
    ensures
        derived_document(ops1, types1, registry_id, version) == derived_document(
            ops2,
            types2,
            registry_id,
            version,
        ),
{
    let k1 = known_names(types1);
    let k2 = known_names(types2);
    lemma_known_names_same_members(types1, types2);
    let fo1 = |o: OpMeta| resolved_op(o, k1);
    let fo2 = |o: OpMeta| resolved_op(o, k2);
    let ft1 = |t: TypeMeta| resolved_type(t, k1);
    let ft2 = |t: TypeMeta| resolved_type(t, k2);
    let m1 = ops1.map_values(fo1);
    let m2 = ops2.map_values(fo2);
    let t1 = types1.map_values(ft1);
    let t2 = types2.map_values(ft2);
    assert forall|i: int| 0 <= i < ops1.len() implies fo1(ops1[i]) == fo2(ops1[i]) by {
        lemma_resolved_op_reads_membership(ops1[i], k1, k2);
    }
    assert forall|i: int| 0 <= i < types1.len() implies ft1(types1[i]) == ft2(types1[i]) by {
        lemma_resolved_type_reads_membership(types1[i], k1, k2);
    }
    assert(m1 =~= ops1.map_values(fo2));
    assert(t1 =~= types1.map_values(ft2));
    lemma_map_multiset(ops1, ops2, fo2);
    lemma_map_multiset(types1, types2, ft2);
    assert(op_names_determine_ops(m1)) by {
        assert forall|i: int, j: int|
            0 <= i < m1.len() && 0 <= j < m1.len() && !m1[i].is_setup && !m1[j].is_setup && m1[i].component
                == m1[j].component && m1[i].operation.name == m1[j].operation.name implies #[trigger] m1[i].operation
            == #[trigger] m1[j].operation by {
            assert(ops1[i] == ops1[j]);
        }
    }
    assert(type_names_determine_types(t1)) by {
        assert forall|i: int, j: int|
            0 <= i < t1.len() && 0 <= j < t1.len() && t1[i].component == t1[j].component
                && t1[i].named_type.name() == t1[j].named_type.name() implies #[trigger] t1[i].named_type
            == #[trigger] t1[j].named_type by {
            assert(types1[i] == types1[j]);
        }
    }
    law_assembly_ignores_input_order(m1, m2, t1, t2, registry_id, version);
}


/// The fields a list of `(name, type)` metadata pairs stands for: one field
/// per pair, in order, named by the pair's name, typed by the lowering of its
/// type text, without description.
pub open spec fn fields_follow(fields: Seq<FieldShape>, metas: Seq<FieldMeta>, known: Seq<Seq<char>>) -> bool {
    &&& fields.len() == metas.len()
    &&& forall|i: int|
        0 <= i < fields.len() ==> (#[trigger] fields[i]).name == metas[i].0@ && fields[i].ty == lowered(
            metas[i].1@,
            known,
        ) && fields[i].description is None
}

/// The record a struct's metadata `t` stands for.
pub open spec fn is_struct_record(nt: NamedTypeShape, t: TypeMeta, known: Seq<Seq<char>>) -> bool {
    nt matches NamedTypeShape::Record { name, fields, description } && name == t.name@ && description is None
        && fields_follow(fields, t.fields@, known)
}

/// The tagged union an enum's metadata `t` stands for: one variant per
/// metadata variant, in order and by name; a variant with fields carries the
/// inline record of those fields, one without carries no payload.
pub open spec fn is_enum_union(nt: NamedTypeShape, t: TypeMeta, known: Seq<Seq<char>>) -> bool {
    nt matches NamedTypeShape::TaggedUnion { name, variants, description } && name == t.name@
        && description is None && variants.len() == t.variants@.len() && forall|i: int|
        0 <= i < variants.len() ==> (#[trigger] variants[i]).name == t.variants@[i].name@
            && variants[i].description is None && (if t.variants@[i].fields@.len() == 0 {
            variants[i].payload is None
        } else {
            variants[i].payload matches Some(TypeShape::Record { fields }) && fields_follow(
                fields,
                t.variants@[i].fields@,
                known,
            )
        })
}

/// Type metadata of kind `struct` lowers to the record of its fields, every
/// field kept, in order; any other kind lowers to the tagged union of its
/// variants.
pub proof fn law_type_metadata_lowering(t: TypeMeta, known: Seq<Seq<char>>)
    ensures
        t.kind@ == "struct"@ ==> is_struct_record(named_type_shape(t, known), t, known),
        t.kind@ != "struct"@ ==> is_enum_union(named_type_shape(t, known), t, known),
{
}

/// Every struct of the metadata is in the derived document: the component
/// for its tag declares the record of its fields, every field kept, in
/// order, typed by the lowering of its type text against the declared type
/// names.
pub proof fn law_derived_structs_keep_their_fields(
    ops: Seq<OpMeta>,
    types: Seq<TypeMeta>,
    registry_id: Seq<char>,
    version: Seq<char>,
    ti: int,
)
    requires
        0 <= ti < types.len(),
        types[ti].kind@ == "struct"@,
    ensures
        exists|ci: int, k: int|
            0 <= ci < derived_document(ops, types, registry_id, version).components.len() && 0 <= k
                < derived_document(ops, types, registry_id, version).components[ci].types.len()
                && derived_document(ops, types, registry_id, version).components[ci].id
                == types[ti].component@ && is_struct_record(
                #[trigger] derived_document(ops, types, registry_id, version).components[ci].types[k],
                types[ti],
                known_names(types),
            ),
{
    let kn = known_names(types);
    let ro = ops.map_values(|o: OpMeta| resolved_op(o, kn));
    let rt = types.map_values(|t: TypeMeta| resolved_type(t, kn));
    let cid = types[ti].component@;
    let doc = derived_document(ops, types, registry_id, version);
    assert(rt[ti].component == cid);
    assert(component_tags(ro, rt).contains(cid));
    law_one_component_per_tag(ro, rt, registry_id, version);
    let ci = choose|ci: int|
        0 <= ci < doc.components.len() && #[trigger] doc.components[ci] == crate::contract::assemble::assembled_component(
            ro,
            rt,
            cid,
        );
    law_component_contents(ro, rt, cid);
    let nt = named_type_shape(types[ti], kn);
    assert(rt[ti].named_type == nt);
    assert(doc.components[ci].types.contains(nt));
    let k = choose|k: int| 0 <= k < doc.components[ci].types.len() && doc.components[ci].types[k] == nt;
    law_type_metadata_lowering(types[ti], kn);
    assert(is_struct_record(doc.components[ci].types[k], types[ti], kn));
}


/// An operation's metadata lowers to the operation of the same name with one
/// input per parameter, in order, named by the parameter and typed by the
/// lowering of its type text; no observations; and the outcomes its return
/// type declares.
pub proof fn law_operation_metadata_lowering(op: OpMeta, known: Seq<Seq<char>>)
    ensures
        operation_shape(op, known).name == op.name@,
        operation_shape(op, known).description is None,
        operation_shape(op, known).inputs.len() == op.params@.len(),
        forall|i: int|
            0 <= i < op.params@.len() ==> (#[trigger] operation_shape(op, known).inputs[i]).name
                == op.params@[i].0@ && operation_shape(op, known).inputs[i].ty == lowered(
                op.params@[i].1@,
                known,
            ) && operation_shape(op, known).inputs[i].description is None,
        operation_shape(op, known).observations.len() == 0,
        operation_shape(op, known).outcomes == outcomes_of(op.return_type@, known),
{
}

} // verus!
