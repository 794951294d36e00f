//! Cross-item registry validation.
//!
//! The document shape is fixed by the types of this crate; this module
//! enforces the semantic rules a shape cannot express: name uniqueness,
//! outcome constraints and intra-document named-type resolution. A
//! cross-document reference is checked only structurally, by requiring a
//! matching component dependency.

use vstd::prelude::*;
use crate::contract::component::{Component, ComponentShape};
use crate::contract::document::{DocumentShape, RegistryDocument, FORMAT, FORMAT_VERSION};
use crate::contract::named_type::{NamedType, NamedTypeShape};
use crate::contract::operation::{Operation, OperationShape};
use crate::contract::type_ref::{
    shape_of, shapes_of, views_of, FieldShape, TypeRef, TypeShape, VariantShape,
    lemma_shapes_of_push, lemma_field_shapes_push, lemma_variant_shapes_push, field_shapes,
    variant_shapes,
};
use crate::ordering::{
    concat_map, duplicate_names, duplicates, law_duplicates_listed_once_ascending, lemma_concat_map_contains,
    lemma_concat_map_prefix, lemma_concat_map_push,
    str_views, views,
};
use crate::text::{debug_quoted, debug_str, joined, str_eq};

verus! {

broadcast use vstd::std_specs::vec::group_vec_axioms;

/// A single registry-validation failure, located within the document.
#[derive(Debug, Clone, PartialEq, Eq)]
pub struct Violation {
    /// A human-readable location within the document (component/operation/type).
    pub location: String,
    /// What rule the document broke.
    pub kind: ViolationKind,
}

/// The distinct ways a registry document can be semantically invalid.
#[derive(Debug, Clone, PartialEq, Eq)]
pub enum ViolationKind {
    /// A `format` / `formatVersion` value this crate does not model.
    WrongFormat {
        /// The offending field name.
        field: &'static str,
        /// The value found in the document.
        found: String,
        /// The value this crate expects.
        expected: &'static str,
    },
    /// A name that must be unique in its scope appears more than once.
    DuplicateName {
        /// The scope whose names must be unique (e.g. `"operation name"`).
        scope: &'static str,
        /// The repeated name.
        name: String,
    },
    /// `empty: true` without a `result` outcome.
    EmptyWithoutResult,
    /// A same-component named reference with no matching type declaration.
    UnresolvedType {
        /// The unresolved type name.
        name: String,
    },
    /// A cross-component named reference with no matching dependency.
    MissingDependency {
        /// The referenced component id lacking a dependency.
        component_id: String,
    },
}

pub enum KindShape {
    WrongFormat { field: Seq<char>, found: Seq<char>, expected: Seq<char> },
    DuplicateName { scope: Seq<char>, name: Seq<char> },
    EmptyWithoutResult,
    UnresolvedType { name: Seq<char> },
    MissingDependency { component_id: Seq<char> },
}

pub struct ViolationShape {
    pub location: Seq<char>,
    pub kind: KindShape,
}

impl View for ViolationKind {
    type V = KindShape;

    open spec fn view(&self) -> KindShape {
        match self {
            ViolationKind::WrongFormat { field, found, expected } => KindShape::WrongFormat {
                field: field@,
                found: found@,
                expected: expected@,
            },
            ViolationKind::DuplicateName { scope, name } => KindShape::DuplicateName {
                scope: scope@,
                name: name@,
            },
            ViolationKind::EmptyWithoutResult => KindShape::EmptyWithoutResult,
            ViolationKind::UnresolvedType { name } => KindShape::UnresolvedType { name: name@ },
            ViolationKind::MissingDependency { component_id } => KindShape::MissingDependency {
                component_id: component_id@,
            },
        }
    }
}

impl View for Violation {
    type V = ViolationShape;

    open spec fn view(&self) -> ViolationShape {
        ViolationShape { location: self.location@, kind: self.kind@ }
    }
}

/// The one-line message of a violation kind; `debug_str` is the quoted,
/// escaped form a name is written in.
pub open spec fn kind_text(k: KindShape) -> Seq<char> {
    match k {
        KindShape::WrongFormat { field, found, expected } => field + " is "@ + debug_str(found)
            + ", expected "@ + debug_str(expected),
        KindShape::DuplicateName { scope, name } => "duplicate "@ + scope + " "@ + debug_str(name),
        KindShape::EmptyWithoutResult => "outcomes declare `empty` without a `result`"@,
        KindShape::UnresolvedType { name } => "named type "@ + debug_str(name)
            + " is not declared in this component"@,
        KindShape::MissingDependency { component_id } => "reference to component "@ + debug_str(
            component_id,
        ) + " without a matching dependency"@,
    }
}

/// The one-line message of a violation: its location, a colon, and its kind.
pub open spec fn violation_text(v: ViolationShape) -> Seq<char> {
    v.location + ": "@ + kind_text(v.kind)
}

impl ViolationKind {
    /// The one-line message of this kind of violation.
    pub fn to_text(&self) -> (r: String)
        ensures
            r@ == kind_text(self@),
    {
        match self {
            ViolationKind::WrongFormat { field, found, expected } => {
                let a = joined(field, " is ");
                let q = debug_quoted(found.as_str());
                let b = a.concat(q.as_str());
                let c = b.concat(", expected ");
                let e = debug_quoted(expected);
                c.concat(e.as_str())
            },
            ViolationKind::DuplicateName { scope, name } => {
                let a = joined("duplicate ", scope);
                let b = a.concat(" ");
                let q = debug_quoted(name.as_str());
                b.concat(q.as_str())
            },
            ViolationKind::EmptyWithoutResult => {
                String::from_str("outcomes declare `empty` without a `result`")
            },
            ViolationKind::UnresolvedType { name } => {
                let q = debug_quoted(name.as_str());
                let a = joined("named type ", q.as_str());
                a.concat(" is not declared in this component")
            },
            ViolationKind::MissingDependency { component_id } => {
                let q = debug_quoted(component_id.as_str());
                let a = joined("reference to component ", q.as_str());
                a.concat(" without a matching dependency")
            },
        }
    }
}

impl Violation {
    /// The one-line message of this violation: `location: kind`.
    pub fn to_text(&self) -> (r: String)
        ensures
            r@ == violation_text(self@),
    {
        let a = joined(self.location.as_str(), ": ");
        let k = self.kind.to_text();
        a.concat(k.as_str())
    }
}

// ---------------------------------------------------------------------------
// What validation reports, stated over the document's view.
// ---------------------------------------------------------------------------

/// One `DuplicateName` violation per repeated name, in ascending name order.
pub open spec fn dup_violations(names: Seq<Seq<char>>, at: Seq<char>, scope: Seq<char>) -> Seq<
    ViolationShape,
> {
    duplicate_names(names).map_values(
        |n: Seq<char>| ViolationShape { location: at, kind: KindShape::DuplicateName { scope, name: n } },
    )
}

/// Every type node reachable from `t`, `t` first, depth-first, in
/// declaration order.
pub open spec fn nodes(t: TypeShape) -> Seq<TypeShape>
    decreases t,
{
    match t {
        TypeShape::List { items } => seq![t] + nodes(*items),
        TypeShape::SetOf { items } => seq![t] + nodes(*items),
        TypeShape::Optional { value } => seq![t] + nodes(*value),
        TypeShape::MapOf { keys, values } => seq![t] + nodes(*keys) + nodes(*values),
        TypeShape::Tuple { items } => seq![t] + nodes_seq(items),
        TypeShape::Record { fields } => seq![t] + nodes_fields(fields),
        TypeShape::TaggedUnion { variants } => seq![t] + nodes_variants(variants),
        _ => seq![t],
    }
}

pub open spec fn nodes_seq(s: Seq<TypeShape>) -> Seq<TypeShape>
    decreases s,
{
    if s.len() == 0 {
        Seq::empty()
    } else {
        nodes_seq(s.subrange(0, s.len() - 1)) + nodes(s[s.len() - 1])
    }
}

pub open spec fn nodes_fields(s: Seq<FieldShape>) -> Seq<TypeShape>
    decreases s,
{
    if s.len() == 0 {
        Seq::empty()
    } else {
        nodes_fields(s.subrange(0, s.len() - 1)) + nodes(s[s.len() - 1].ty)
    }
}

pub open spec fn nodes_variants(s: Seq<VariantShape>) -> Seq<TypeShape>
    decreases s,
{
    if s.len() == 0 {
        Seq::empty()
    } else {
        nodes_variants(s.subrange(0, s.len() - 1)) + match s[s.len() - 1].payload {
            Some(p) => nodes(p),
            None => Seq::empty(),
        }
    }
}

/// The field names of an inline or named record.
pub open spec fn field_names(fields: Seq<FieldShape>) -> Seq<Seq<char>> {
    fields.map_values(|f: FieldShape| f.name)
}

/// The variant names of an inline or named union.
pub open spec fn variant_names(variants: Seq<VariantShape>) -> Seq<Seq<char>> {
    variants.map_values(|v: VariantShape| v.name)
}

/// A named reference's resolution failure: a same-component name must be a
/// declared type, a cross-component reference needs a dependency.
pub open spec fn resolve_violations(
    t: TypeShape,
    at: Seq<char>,
    declared_types: Seq<Seq<char>>,
    declared_deps: Seq<Seq<char>>,
) -> Seq<ViolationShape> {
    match t {
        TypeShape::Named { name, component_id, .. } => match component_id {
            None => if declared_types.contains(name) {
                Seq::empty()
            } else {
                seq![ViolationShape { location: at, kind: KindShape::UnresolvedType { name } }]
            },
            Some(cid) => if declared_deps.contains(cid) {
                Seq::empty()
            } else {
                seq![
                    ViolationShape {
                        location: at,
                        kind: KindShape::MissingDependency { component_id: cid },
                    },
                ]
            },
        },
        _ => Seq::empty(),
    }
}

/// Repeated field or variant names within an inline record or union.
pub open spec fn inline_violations(t: TypeShape, at: Seq<char>) -> Seq<ViolationShape> {
    match t {
        TypeShape::Record { fields } => dup_violations(field_names(fields), at, "field name"@),
        TypeShape::TaggedUnion { variants } => dup_violations(
            variant_names(variants),
            at,
            "variant name"@,
        ),
        _ => Seq::empty(),
    }
}

/// The type nodes an operation references: inputs, observations, the result
/// and error payloads, in that order.
pub open spec fn operation_refs(o: OperationShape) -> Seq<TypeShape> {
    concat_map(o.inputs, |v: crate::contract::operation::NamedValueShape| nodes(v.ty)) + concat_map(
        o.observations,
        |v: crate::contract::operation::NamedValueShape| nodes(v.ty),
    ) + match o.outcomes.result {
        Some(t) => nodes(t),
        None => Seq::empty(),
    } + concat_map(
        o.outcomes.errors,
        |e: crate::contract::operation::ErrorOutcomeShape| match e.ty {
            Some(t) => nodes(t),
            None => Seq::empty(),
        },
    )
}

/// The location of an operation within the component located at `at`.
pub open spec fn operation_location(at: Seq<char>, o: OperationShape) -> Seq<char> {
    at + " operation "@ + debug_str(o.name)
}

/// Everything wrong with one operation.
pub open spec fn operation_violations(
    o: OperationShape,
    at: Seq<char>,
    declared_types: Seq<Seq<char>>,
    declared_deps: Seq<Seq<char>>,
) -> Seq<ViolationShape> {
    let op_at = operation_location(at, o);
    dup_violations(o.inputs.map_values(|v: crate::contract::operation::NamedValueShape| v.name), op_at, "input name"@)
        + dup_violations(
        o.observations.map_values(|v: crate::contract::operation::NamedValueShape| v.name),
        op_at,
        "observation name"@,
    ) + dup_violations(
        o.outcomes.errors.map_values(|e: crate::contract::operation::ErrorOutcomeShape| e.name),
        op_at,
        "error name"@,
    ) + (if o.outcomes.empty && o.outcomes.result is None {
        seq![ViolationShape { location: op_at, kind: KindShape::EmptyWithoutResult }]
    } else {
        Seq::empty()
    }) + concat_map(
        operation_refs(o),
        |t: TypeShape|
            resolve_violations(t, op_at, declared_types, declared_deps) + inline_violations(t, op_at),
    )
}

/// Repeated field or variant names within a named type.
pub open spec fn named_type_violations(t: NamedTypeShape, at: Seq<char>) -> Seq<ViolationShape> {
    match t {
        NamedTypeShape::Record { fields, .. } => dup_violations(
            field_names(fields),
            at,
            "field name"@,
        ),
        NamedTypeShape::TaggedUnion { variants, .. } => dup_violations(
            variant_names(variants),
            at,
            "variant name"@,
        ),
    }
}

/// The location of a component.
pub open spec fn component_location(c: ComponentShape) -> Seq<char> {
    "component "@ + debug_str(c.id)
}

/// The names of the types a component declares.
pub open spec fn declared_type_names(c: ComponentShape) -> Seq<Seq<char>> {
    c.types.map_values(|t: NamedTypeShape| t.name())
}

/// The component ids a component depends on.
pub open spec fn dependency_ids(c: ComponentShape) -> Seq<Seq<char>> {
    c.dependencies.map_values(|d: crate::contract::component::DependencyShape| d.component_id)
}

/// Everything wrong with one component.
pub open spec fn component_violations(c: ComponentShape) -> Seq<ViolationShape> {
    let at = component_location(c);
    dup_violations(dependency_ids(c), at, "dependency componentId"@) + dup_violations(
        c.operations.map_values(|o: OperationShape| o.name),
        at,
        "operation name"@,
    ) + dup_violations(declared_type_names(c), at, "type name"@) + concat_map(
        c.types,
        |t: NamedTypeShape| named_type_violations(t, at + " type "@ + debug_str(t.name())),
    ) + concat_map(
        c.operations,
        |o: OperationShape|
            operation_violations(o, at, declared_type_names(c), dependency_ids(c)),
    )
}

/// A `WrongFormat` violation when `found` is not `expected`.
pub open spec fn format_violation(field: Seq<char>, found: Seq<char>, expected: Seq<char>) -> Seq<
    ViolationShape,
> {
    if found == expected {
        Seq::empty()
    } else {
        seq![
            ViolationShape {
                location: "document"@,
                kind: KindShape::WrongFormat { field, found, expected },
            },
        ]
    }
}

/// Everything wrong with a document, in the order validation reports it.
pub open spec fn document_violations(d: DocumentShape) -> Seq<ViolationShape> {
    format_violation("format"@, d.format, FORMAT@) + format_violation(
        "formatVersion"@,
        d.format_version,
        FORMAT_VERSION@,
    ) + dup_violations(
        d.imports.map_values(|i: crate::contract::component::ImportShape| i.registry_id),
        "document"@,
        "import registryId"@,
    ) + dup_violations(
        d.components.map_values(|c: ComponentShape| c.id),
        "document"@,
        "component id"@,
    ) + concat_map(d.components, |c: ComponentShape| component_violations(c))
}

// ---------------------------------------------------------------------------
// The validator.
// ---------------------------------------------------------------------------

/// Validate a registry document against the cross-item rules.
///
/// Returns every [`Violation`] found (validation does not stop at the first);
/// an empty vector means the document is valid.
pub fn validate(doc: &RegistryDocument) -> (r: Vec<Violation>)
    ensures
        views_of(r@) == document_violations(doc@),
{
    let mut out: Vec<Violation> = Vec::new();
    proof {
        assert(views_of(out@) =~= Seq::<ViolationShape>::empty());
    }
    if !str_eq(doc.format.as_str(), FORMAT) {
        let ghost before = out@;
        out.push(Violation {
            location: String::from_str("document"),
            kind: ViolationKind::WrongFormat {
                field: "format",
                found: doc.format.clone(),
                expected: FORMAT,
            },
        });
        proof {
            assert(views_of(out@) =~= views_of(before) + format_violation("format"@, doc@.format, FORMAT@));
        }
    } else {
        proof {
            assert(views_of(out@) =~= format_violation("format"@, doc@.format, FORMAT@));
        }
    }
    let ghost after_format = views_of(out@);
    if !str_eq(doc.format_version.as_str(), FORMAT_VERSION) {
        out.push(Violation {
            location: String::from_str("document"),
            kind: ViolationKind::WrongFormat {
                field: "formatVersion",
                found: doc.format_version.clone(),
                expected: FORMAT_VERSION,
            },
        });
        proof {
            assert(views_of(out@) =~= after_format + format_violation(
                "formatVersion"@,
                doc@.format_version,
                FORMAT_VERSION@,
            ));
        }
    } else {
        proof {
            assert(views_of(out@) =~= after_format + format_violation(
                "formatVersion"@,
                doc@.format_version,
                FORMAT_VERSION@,
            ));
        }
    }

    let mut import_ids: Vec<&str> = Vec::new();
    let mut i: usize = 0;
    while i < doc.imports.len()
        invariant
            i <= doc.imports.len(),
            str_views(import_ids@) == doc@.imports.map_values(
                |x: crate::contract::component::ImportShape| x.registry_id,
            ).subrange(0, i as int),
        decreases doc.imports.len() - i,
    {
        let ghost prev = import_ids@;
        let nm = doc.imports[i].registry_id.as_str();
        import_ids.push(nm);
        proof {
            assert(import_ids@ == prev.push(nm));
            assert(str_views(import_ids@) =~= str_views(prev).push(nm@));
            assert(nm@ == (doc@.imports.map_values(
                |x: crate::contract::component::ImportShape| x.registry_id,
            ))[i as int]);
            assert((doc@.imports.map_values(
                |x: crate::contract::component::ImportShape| x.registry_id,
            )).subrange(0, i + 1) =~= (doc@.imports.map_values(
                |x: crate::contract::component::ImportShape| x.registry_id,
            )).subrange(0, i as int).push((doc@.imports.map_values(
                |x: crate::contract::component::ImportShape| x.registry_id,
            ))[i as int]));
        }
        i = i + 1;
    }
    proof {
        assert(str_views(import_ids@) =~= doc@.imports.map_values(
            |x: crate::contract::component::ImportShape| x.registry_id,
        ));
    }
    push_duplicates(&mut out, &import_ids, "document", "import registryId");

    let mut component_ids: Vec<&str> = Vec::new();
    let mut i: usize = 0;
    while i < doc.components.len()
        invariant
            i <= doc.components.len(),
            str_views(component_ids@) == doc@.components.map_values(|c: ComponentShape| c.id).subrange(
                0,
                i as int,
            ),
        decreases doc.components.len() - i,
    {
        let ghost prev = component_ids@;
        let nm = doc.components[i].id.as_str();
        component_ids.push(nm);
        proof {
            assert(component_ids@ == prev.push(nm));
            assert(str_views(component_ids@) =~= str_views(prev).push(nm@));
            assert(nm@ == (doc@.components.map_values(
                |c: ComponentShape| c.id,
            ))[i as int]);
            assert((doc@.components.map_values(
                |c: ComponentShape| c.id,
            )).subrange(0, i + 1) =~= (doc@.components.map_values(
                |c: ComponentShape| c.id,
            )).subrange(0, i as int).push((doc@.components.map_values(
                |c: ComponentShape| c.id,
            ))[i as int]));
        }
        i = i + 1;
    }
    proof {
        assert(str_views(component_ids@) =~= doc@.components.map_values(|c: ComponentShape| c.id));
    }
    push_duplicates(&mut out, &component_ids, "document", "component id");

    let ghost head = views_of(out@);
    let mut k: usize = 0;
    while k < doc.components.len()
        invariant
            k <= doc.components.len(),
            views_of(out@) == head + concat_map(
                doc@.components.subrange(0, k as int),
                |c: ComponentShape| component_violations(c),
            ),
        decreases doc.components.len() - k,
    {
        validate_component(&doc.components[k], &mut out);
        proof {
            lemma_concat_map_prefix(
                doc@.components,
                k as int,
                |c: ComponentShape| component_violations(c),
            );
        }
        k = k + 1;
    }
    proof {
        assert(doc@.components.subrange(0, doc.components.len() as int) =~= doc@.components);
    }
    out
}

/// Append one `DuplicateName` violation per repeated name.
fn push_duplicates(out: &mut Vec<Violation>, names: &Vec<&str>, at: &str, scope: &'static str)
    ensures
        views_of(final(out)@) == views_of(old(out)@) + dup_violations(
            str_views(names@),
            at@,
            scope@,
        ),
{
    let dups = duplicates(names);
    let ghost start = views_of(out@);
    let ghost expected = dup_violations(str_views(names@), at@, scope@);
    let mut i: usize = 0;
    while i < dups.len()
        invariant
            i <= dups.len(),
            views(dups@) == duplicate_names(str_views(names@)),
            expected == dup_violations(str_views(names@), at@, scope@),
            views_of(out@) == start + expected.subrange(0, i as int),
        decreases dups.len() - i,
    {
        let v = Violation {
            location: String::from_str(at),
            kind: ViolationKind::DuplicateName { scope, name: dups[i].clone() },
        };
        let ghost prev = out@;
        out.push(v);
        proof {
            assert(views(dups@)[i as int] == dups@[i as int]@);
            assert(expected.len() == dups.len());
            assert(v@ == expected[i as int]);
            assert(out@ == prev.push(v));
            assert(views_of(out@) =~= views_of(prev).push(v@));
            assert(expected[i as int] == ViolationShape {
                location: at@,
                kind: KindShape::DuplicateName { scope: scope@, name: views(dups@)[i as int] },
            });
            assert(views_of(out@) =~= start + expected.subrange(0, i + 1));
        }
        i = i + 1;
    }
    proof {
        assert(expected.subrange(0, dups.len() as int) =~= expected);
    }
}

/// The component's contribution to the violations.
fn validate_component(component: &Component, out: &mut Vec<Violation>)
    ensures
        views_of(final(out)@) == views_of(old(out)@) + component_violations(component@),
{
    let ghost c = component@;
    let ghost start = views_of(out@);
    let dbg = debug_quoted(component.id.as_str());
    let at = joined("component ", dbg.as_str());
    assert(at@ == component_location(c));

    let mut dep_ids: Vec<&str> = Vec::new();
    let mut i: usize = 0;
    while i < component.dependencies.len()
        invariant
            i <= component.dependencies.len(),
            c == component@,
            str_views(dep_ids@) == dependency_ids(c).subrange(0, i as int),
        decreases component.dependencies.len() - i,
    {
        let ghost prev = dep_ids@;
        let nm = component.dependencies[i].component_id.as_str();
        dep_ids.push(nm);
        proof {
            assert(dep_ids@ == prev.push(nm));
            assert(str_views(dep_ids@) =~= str_views(prev).push(nm@));
            assert(nm@ == (dependency_ids(c))[i as int]);
            assert((dependency_ids(c)).subrange(0, i + 1) =~= (dependency_ids(c)).subrange(0, i as int).push((dependency_ids(c))[i as int]));
        }
        i = i + 1;
    }
    proof {
        assert(str_views(dep_ids@) =~= dependency_ids(c));
    }
    push_duplicates(out, &dep_ids, at.as_str(), "dependency componentId");

    let mut op_names: Vec<&str> = Vec::new();
    let mut i: usize = 0;
    while i < component.operations.len()
        invariant
            i <= component.operations.len(),
            c == component@,
            str_views(op_names@) == c.operations.map_values(|o: OperationShape| o.name).subrange(
                0,
                i as int,
            ),
        decreases component.operations.len() - i,
    {
        let ghost prev = op_names@;
        let nm = component.operations[i].name.as_str();
        op_names.push(nm);
        proof {
            assert(op_names@ == prev.push(nm));
            assert(str_views(op_names@) =~= str_views(prev).push(nm@));
            assert(nm@ == (c.operations.map_values(|o: OperationShape| o.name))[i as int]);
            assert((c.operations.map_values(|o: OperationShape| o.name)).subrange(0, i + 1) =~= (c.operations.map_values(|o: OperationShape| o.name)).subrange(0, i as int).push((c.operations.map_values(|o: OperationShape| o.name))[i as int]));
        }
        i = i + 1;
    }
    proof {
        assert(str_views(op_names@) =~= c.operations.map_values(|o: OperationShape| o.name));
    }
    push_duplicates(out, &op_names, at.as_str(), "operation name");

    let mut type_names: Vec<&str> = Vec::new();
    let mut i: usize = 0;
    while i < component.types.len()
        invariant
            i <= component.types.len(),
            c == component@,
            str_views(type_names@) == declared_type_names(c).subrange(0, i as int),
        decreases component.types.len() - i,
    {
        let ghost prev = type_names@;
        let nm = component.types[i].name();
        type_names.push(nm);
        proof {
            assert(type_names@ == prev.push(nm));
            assert(str_views(type_names@) =~= str_views(prev).push(nm@));
            assert(nm@ == (declared_type_names(c))[i as int]);
            assert((declared_type_names(c)).subrange(0, i + 1) =~= (declared_type_names(c)).subrange(0, i as int).push((declared_type_names(c))[i as int]));
        }
        i = i + 1;
    }
    proof {
        assert(str_views(type_names@) =~= declared_type_names(c));
    }
    push_duplicates(out, &type_names, at.as_str(), "type name");

    let ghost mid = views_of(out@);
    let ghost tf = |t: NamedTypeShape| named_type_violations(t, at@ + " type "@ + debug_str(t.name()));
    let mut i: usize = 0;
    while i < component.types.len()
        invariant
            i <= component.types.len(),
            c == component@,
            at@ == component_location(c),
            tf == (|t: NamedTypeShape| named_type_violations(t, at@ + " type "@ + debug_str(t.name()))),
            views_of(out@) == mid + concat_map(c.types.subrange(0, i as int), tf),
        decreases component.types.len() - i,
    {
        let named_type = &component.types[i];
        let tdbg = debug_quoted(named_type.name());
        let t_at0 = joined(at.as_str(), " type ");
        let t_at = joined(t_at0.as_str(), tdbg.as_str());
        validate_named_type(named_type, t_at.as_str(), out);
        proof {
            assert(t_at@ =~= at@ + " type "@ + debug_str(named_type@.name()));
            lemma_concat_map_prefix(c.types, i as int, tf);
        }
        i = i + 1;
    }
    proof {
        assert(c.types.subrange(0, component.types.len() as int) =~= c.types);
    }

    let ghost mid2 = views_of(out@);
    let ghost of = |o: OperationShape| operation_violations(o, at@, declared_type_names(c), dependency_ids(c));
    let mut i: usize = 0;
    while i < component.operations.len()
        invariant
            i <= component.operations.len(),
            c == component@,
            at@ == component_location(c),
            str_views(type_names@) == declared_type_names(c),
            str_views(dep_ids@) == dependency_ids(c),
            of == (|o: OperationShape| operation_violations(o, at@, declared_type_names(c), dependency_ids(c))),
            views_of(out@) == mid2 + concat_map(c.operations.subrange(0, i as int), of),
        decreases component.operations.len() - i,
    {
        validate_operation(&component.operations[i], at.as_str(), &type_names, &dep_ids, out);
        proof {
            lemma_concat_map_prefix(c.operations, i as int, of);
        }
        i = i + 1;
    }
    proof {
        assert(c.operations.subrange(0, component.operations.len() as int) =~= c.operations);
        assert(views_of(out@) =~= start + component_violations(c));
    }
}

/// Whether `x` is among `names`.
fn contains_name(names: &Vec<&str>, x: &str) -> (r: bool)
    ensures
        r == str_views(names@).contains(x@),
{
    let mut i: usize = 0;
    while i < names.len()
        invariant
            i <= names.len(),
            forall|j: int| 0 <= j < i ==> str_views(names@)[j] != x@,
        decreases names.len() - i,
    {
        if str_eq(names[i], x) {
            proof {
                assert(str_views(names@)[i as int] == x@);
            }
            return true;
        }
        i = i + 1;
    }
    false
}

/// Repeated field/variant names within a named type.
fn validate_named_type(named_type: &NamedType, at: &str, out: &mut Vec<Violation>)
    ensures
        views_of(final(out)@) == views_of(old(out)@) + named_type_violations(named_type@, at@),
{
    match named_type {
        NamedType::Record { fields, .. } => {
            let names = field_name_list(fields);
            push_duplicates(out, &names, at, "field name");
        },
        NamedType::TaggedUnion { variants, .. } => {
            let names = variant_name_list(variants);
            push_duplicates(out, &names, at, "variant name");
        },
    }
}

fn field_name_list(fields: &Vec<crate::contract::type_ref::Field>) -> (r: Vec<&str>)
    ensures
        str_views(r@) == field_names(field_shapes(fields@)),
{
    let mut names: Vec<&str> = Vec::new();
    let mut i: usize = 0;
    while i < fields.len()
        invariant
            i <= fields.len(),
            str_views(names@) == field_names(field_shapes(fields@.subrange(0, i as int))),
        decreases fields.len() - i,
    {
        let ghost prev = names@;
        let nm = fields[i].name.as_str();
        names.push(nm);
        proof {
            assert(str_views(names@) =~= str_views(prev).push(nm@));
            assert(fields@.subrange(0, i + 1) =~= fields@.subrange(0, i as int).push(fields@[i as int]));
            lemma_field_shapes_push(fields@.subrange(0, i as int), fields@[i as int]);
            assert(field_names(field_shapes(fields@.subrange(0, i + 1))) =~= field_names(field_shapes(fields@.subrange(0, i as int))).push(nm@));
            assert(str_views(names@) =~= field_names(field_shapes(fields@.subrange(0, i + 1))));
        }
        i = i + 1;
    }
    proof {
        assert(fields@.subrange(0, fields.len() as int) =~= fields@);
    }
    names
}

fn variant_name_list(variants: &Vec<crate::contract::type_ref::Variant>) -> (r: Vec<&str>)
    ensures
        str_views(r@) == variant_names(variant_shapes(variants@)),
{
    let mut names: Vec<&str> = Vec::new();
    let mut i: usize = 0;
    while i < variants.len()
        invariant
            i <= variants.len(),
            str_views(names@) == variant_names(variant_shapes(variants@.subrange(0, i as int))),
        decreases variants.len() - i,
    {
        let ghost prev = names@;
        let nm = variants[i].name.as_str();
        names.push(nm);
        proof {
            assert(str_views(names@) =~= str_views(prev).push(nm@));
            assert(variants@.subrange(0, i + 1) =~= variants@.subrange(0, i as int).push(
                variants@[i as int],
            ));
            lemma_variant_shapes_push(variants@.subrange(0, i as int), variants@[i as int]);
            assert(variant_names(variant_shapes(variants@.subrange(0, i + 1))) =~= variant_names(variant_shapes(variants@.subrange(0, i as int))).push(nm@));
            assert(str_views(names@) =~= variant_names(variant_shapes(variants@.subrange(0, i + 1))));
        }
        i = i + 1;
    }
    proof {
        assert(variants@.subrange(0, variants.len() as int) =~= variants@);
    }
    names
}

/// Resolve one named reference: same-component names against the component's
/// declared types; cross-component names against declared dependencies.
/// Non-named references are ignored.
fn resolve_named(
    type_ref: &TypeRef,
    at: &str,
    declared_types: &Vec<&str>,
    declared_deps: &Vec<&str>,
    out: &mut Vec<Violation>,
)
    ensures
        views_of(final(out)@) == views_of(old(out)@) + resolve_violations(
            type_ref@,
            at@,
            str_views(declared_types@),
            str_views(declared_deps@),
        ),
{
    let ghost start = views_of(out@);
    match type_ref {
        TypeRef::Named { name, component_id, .. } => match component_id {
            None => {
                if !contains_name(declared_types, name.as_str()) {
                    out.push(Violation {
                        location: String::from_str(at),
                        kind: ViolationKind::UnresolvedType { name: name.clone() },
                    });
                }
            },
            Some(cid) => {
                if !contains_name(declared_deps, cid.as_str()) {
                    out.push(Violation {
                        location: String::from_str(at),
                        kind: ViolationKind::MissingDependency { component_id: cid.clone() },
                    });
                }
            },
        },
        _ => {},
    }
    proof {
        assert(views_of(out@) =~= start + resolve_violations(
            type_ref@,
            at@,
            str_views(declared_types@),
            str_views(declared_deps@),
        ));
    }
}

/// Flag duplicate field/variant names in an inline record or tagged union.
fn check_inline_uniqueness(type_ref: &TypeRef, at: &str, out: &mut Vec<Violation>)
    ensures
        views_of(final(out)@) == views_of(old(out)@) + inline_violations(type_ref@, at@),
{
    match type_ref {
        TypeRef::Record { fields } => {
            let names = field_name_list(fields);
            push_duplicates(out, &names, at, "field name");
        },
        TypeRef::TaggedUnion { variants } => {
            let names = variant_name_list(variants);
            push_duplicates(out, &names, at, "variant name");
        },
        _ => {
            proof {
                assert(views_of(out@) =~= views_of(old(out)@) + inline_violations(type_ref@, at@));
            }
        },
    }
}

} // verus!

verus! {

proof fn lemma_nodes_seq_push(s: Seq<TypeRef>, x: TypeRef)
    ensures
        nodes_seq(shapes_of(s.push(x))) == nodes_seq(shapes_of(s)) + nodes(shape_of(x)),
{
    lemma_shapes_of_push(s, x);
    let p = shapes_of(s).push(shape_of(x));
    assert(p.subrange(0, p.len() - 1) =~= shapes_of(s));
}

proof fn lemma_nodes_fields_push(s: Seq<crate::contract::type_ref::Field>, x: crate::contract::type_ref::Field)
    ensures
        nodes_fields(field_shapes(s.push(x))) == nodes_fields(field_shapes(s)) + nodes(shape_of(x.ty)),
{
    lemma_field_shapes_push(s, x);
    let p = field_shapes(s).push(x@);
    assert(p.subrange(0, p.len() - 1) =~= field_shapes(s));
}

proof fn lemma_nodes_variants_push(s: Seq<crate::contract::type_ref::Variant>, x: crate::contract::type_ref::Variant)
    ensures
        nodes_variants(variant_shapes(s.push(x))) == nodes_variants(variant_shapes(s)) + match x.payload {
            Some(p) => nodes(shape_of(p)),
            None => Seq::empty(),
        },
{
    lemma_variant_shapes_push(s, x);
    let p = variant_shapes(s).push(x@);
    assert(p.subrange(0, p.len() - 1) =~= variant_shapes(s));
}

/// Depth-first collect every type node reachable from `root` (inclusive).
fn walk_type_refs<'a>(root: &'a TypeRef, out: &mut Vec<&'a TypeRef>)
    ensures
        views_of(final(out)@) == views_of(old(out)@) + nodes(root@),
    decreases root,
{
    let ghost start = views_of(out@);
    out.push(root);
    proof {
        assert(views_of(out@) =~= start + seq![root@]);
    }
    match root {
        TypeRef::List { items } => {
            walk_type_refs(&**items, out);
            proof { assert(views_of(out@) =~= start + nodes(root@)); }
        },
        TypeRef::SetOf { items } => {
            walk_type_refs(&**items, out);
            proof { assert(views_of(out@) =~= start + nodes(root@)); }
        },
        TypeRef::Optional { value } => {
            walk_type_refs(&**value, out);
            proof { assert(views_of(out@) =~= start + nodes(root@)); }
        },
        TypeRef::MapOf { keys, values } => {
            walk_type_refs(&**keys, out);
            walk_type_refs(&**values, out);
            proof { assert(views_of(out@) =~= start + nodes(root@)); }
        },
        TypeRef::Tuple { items } => {
            let mut i: usize = 0;
            proof {
                assert(shapes_of(items@.subrange(0, 0)) =~= Seq::<TypeShape>::empty());
                assert(views_of(out@) =~= start + seq![root@] + nodes_seq(shapes_of(items@.subrange(0, 0))));
            }
            while i < items.len()
                invariant
                    i <= items.len(),
                    *root == (TypeRef::Tuple { items: *items }),
                    views_of(out@) == start + seq![root@] + nodes_seq(shapes_of(items@.subrange(0, i as int))),
                decreases items.len() - i,
            {
                proof {
                    assert(decreases_to!(*root => (*root)->Tuple_items));
                    assert(decreases_to!(*items => items@));
                    assert(decreases_to!(items@ => items@[i as int]));
                }
                walk_type_refs(&items[i], out);
                proof {
                    assert(items@.subrange(0, i + 1) =~= items@.subrange(0, i as int).push(items@[i as int]));
                    lemma_nodes_seq_push(items@.subrange(0, i as int), items@[i as int]);
                }
                i = i + 1;
            }
            proof {
                assert(items@.subrange(0, items.len() as int) =~= items@);
                assert(views_of(out@) =~= start + nodes(root@));
            }
        },
        TypeRef::Record { fields } => {
            let mut i: usize = 0;
            proof {
                assert(field_shapes(fields@.subrange(0, 0)) =~= Seq::<FieldShape>::empty());
                assert(views_of(out@) =~= start + seq![root@] + nodes_fields(field_shapes(fields@.subrange(0, 0))));
            }
            while i < fields.len()
                invariant
                    i <= fields.len(),
                    *root == (TypeRef::Record { fields: *fields }),
                    views_of(out@) == start + seq![root@] + nodes_fields(field_shapes(fields@.subrange(0, i as int))),
                decreases fields.len() - i,
            {
                proof {
                    assert(decreases_to!(*root => (*root)->Record_fields));
                    assert(decreases_to!(*fields => fields@));
                    assert(decreases_to!(fields@ => fields@[i as int]));
                }
                walk_type_refs(&fields[i].ty, out);
                proof {
                    assert(fields@.subrange(0, i + 1) =~= fields@.subrange(0, i as int).push(fields@[i as int]));
                    lemma_nodes_fields_push(fields@.subrange(0, i as int), fields@[i as int]);
                }
                i = i + 1;
            }
            proof {
                assert(fields@.subrange(0, fields.len() as int) =~= fields@);
                assert(views_of(out@) =~= start + nodes(root@));
            }
        },
        TypeRef::TaggedUnion { variants } => {
            let mut i: usize = 0;
            proof {
                assert(variant_shapes(variants@.subrange(0, 0)) =~= Seq::<VariantShape>::empty());
                assert(views_of(out@) =~= start + seq![root@] + nodes_variants(variant_shapes(variants@.subrange(0, 0))));
            }
            while i < variants.len()
                invariant
                    i <= variants.len(),
                    *root == (TypeRef::TaggedUnion { variants: *variants }),
                    views_of(out@) == start + seq![root@] + nodes_variants(variant_shapes(variants@.subrange(0, i as int))),
                decreases variants.len() - i,
            {
                proof {
                    assert(decreases_to!(*root => (*root)->TaggedUnion_variants));
                    assert(decreases_to!(*variants => variants@));
                    assert(decreases_to!(variants@ => variants@[i as int]));
                }
                let ghost before = views_of(out@);
                if let Some(payload) = &variants[i].payload {
                    walk_type_refs(payload, out);
                } else {
                    proof { assert(views_of(out@) =~= before + Seq::<TypeShape>::empty()); }
                }
                proof {
                    assert(variants@.subrange(0, i + 1) =~= variants@.subrange(0, i as int).push(variants@[i as int]));
                    lemma_nodes_variants_push(variants@.subrange(0, i as int), variants@[i as int]);
                }
                i = i + 1;
            }
            proof {
                assert(variants@.subrange(0, variants.len() as int) =~= variants@);
                assert(views_of(out@) =~= start + nodes(root@));
            }
        },
        _ => {
            proof { assert(views_of(out@) =~= start + nodes(root@)); }
        },
    }
}

fn validate_operation(
    operation: &Operation,
    at: &str,
    declared_types: &Vec<&str>,
    declared_deps: &Vec<&str>,
    out: &mut Vec<Violation>,
)
    ensures
        views_of(final(out)@) == views_of(old(out)@) + operation_violations(
            operation@,
            at@,
            str_views(declared_types@),
            str_views(declared_deps@),
        ),
{
    let ghost o = operation@;
    let ghost start = views_of(out@);
    let dbg = debug_quoted(operation.name.as_str());
    let at0 = joined(at, " operation ");
    let op_at = joined(at0.as_str(), dbg.as_str());
    assert(op_at@ =~= operation_location(at@, o));

    let mut names: Vec<&str> = Vec::new();
    let mut i: usize = 0;
    while i < operation.inputs.len()
        invariant
            i <= operation.inputs.len(),
            o == operation@,
            str_views(names@) == o.inputs.map_values(|v: crate::contract::operation::NamedValueShape| v.name).subrange(0, i as int),
        decreases operation.inputs.len() - i,
    {
        let ghost prev = names@;
        let nm = operation.inputs[i].name.as_str();
        names.push(nm);
        proof {
            assert(names@ == prev.push(nm));
            assert(str_views(names@) =~= str_views(prev).push(nm@));
            assert(nm@ == (o.inputs.map_values(|v: crate::contract::operation::NamedValueShape| v.name))[i as int]);
            assert((o.inputs.map_values(|v: crate::contract::operation::NamedValueShape| v.name)).subrange(0, i + 1) =~= (o.inputs.map_values(|v: crate::contract::operation::NamedValueShape| v.name)).subrange(0, i as int).push((o.inputs.map_values(|v: crate::contract::operation::NamedValueShape| v.name))[i as int]));
        }
        i = i + 1;
    }
    proof {
        assert(str_views(names@) =~= o.inputs.map_values(|v: crate::contract::operation::NamedValueShape| v.name));
    }
    push_duplicates(out, &names, op_at.as_str(), "input name");

    let mut names: Vec<&str> = Vec::new();
    let mut i: usize = 0;
    while i < operation.observations.len()
        invariant
            i <= operation.observations.len(),
            o == operation@,
            str_views(names@) == o.observations.map_values(|v: crate::contract::operation::NamedValueShape| v.name).subrange(0, i as int),
        decreases operation.observations.len() - i,
    {
        let ghost prev = names@;
        let nm = operation.observations[i].name.as_str();
        names.push(nm);
        proof {
            assert(names@ == prev.push(nm));
            assert(str_views(names@) =~= str_views(prev).push(nm@));
            assert(nm@ == (o.observations.map_values(|v: crate::contract::operation::NamedValueShape| v.name))[i as int]);
            assert((o.observations.map_values(|v: crate::contract::operation::NamedValueShape| v.name)).subrange(0, i + 1) =~= (o.observations.map_values(|v: crate::contract::operation::NamedValueShape| v.name)).subrange(0, i as int).push((o.observations.map_values(|v: crate::contract::operation::NamedValueShape| v.name))[i as int]));
        }
        i = i + 1;
    }
    proof {
        assert(str_views(names@) =~= o.observations.map_values(|v: crate::contract::operation::NamedValueShape| v.name));
    }
    push_duplicates(out, &names, op_at.as_str(), "observation name");

    let mut names: Vec<&str> = Vec::new();
    let mut i: usize = 0;
    while i < operation.outcomes.errors.len()
        invariant
            i <= operation.outcomes.errors.len(),
            o == operation@,
            str_views(names@) == o.outcomes.errors.map_values(|e: crate::contract::operation::ErrorOutcomeShape| e.name).subrange(0, i as int),
        decreases operation.outcomes.errors.len() - i,
    {
        let ghost prev = names@;
        let nm = operation.outcomes.errors[i].name.as_str();
        names.push(nm);
        proof {
            assert(names@ == prev.push(nm));
            assert(str_views(names@) =~= str_views(prev).push(nm@));
            assert(nm@ == (o.outcomes.errors.map_values(|e: crate::contract::operation::ErrorOutcomeShape| e.name))[i as int]);
            assert((o.outcomes.errors.map_values(|e: crate::contract::operation::ErrorOutcomeShape| e.name)).subrange(0, i + 1) =~= (o.outcomes.errors.map_values(|e: crate::contract::operation::ErrorOutcomeShape| e.name)).subrange(0, i as int).push((o.outcomes.errors.map_values(|e: crate::contract::operation::ErrorOutcomeShape| e.name))[i as int]));
        }
        i = i + 1;
    }
    proof {
        assert(str_views(names@) =~= o.outcomes.errors.map_values(|e: crate::contract::operation::ErrorOutcomeShape| e.name));
    }
    push_duplicates(out, &names, op_at.as_str(), "error name");

    let ghost before_empty = views_of(out@);
    if operation.outcomes.empty && operation.outcomes.result.is_none() {
        out.push(Violation {
            location: op_at.clone(),
            kind: ViolationKind::EmptyWithoutResult,
        });
    }
    proof {
        assert(views_of(out@) =~= before_empty + (if o.outcomes.empty && o.outcomes.result is None {
            seq![ViolationShape { location: op_at@, kind: KindShape::EmptyWithoutResult }]
        } else {
            Seq::empty()
        }));
    }

    let ghost fin = |v: crate::contract::operation::NamedValueShape| nodes(v.ty);
    let ghost fer = |e: crate::contract::operation::ErrorOutcomeShape| match e.ty {
        Some(t) => nodes(t),
        None => Seq::empty(),
    };
    let mut refs: Vec<&TypeRef> = Vec::new();
    let mut i: usize = 0;
    proof {
        assert(views_of(refs@) =~= concat_map(o.inputs.subrange(0, 0), fin));
    }
    while i < operation.inputs.len()
        invariant
            i <= operation.inputs.len(),
            o == operation@,
            fin == (|v: crate::contract::operation::NamedValueShape| nodes(v.ty)),
            views_of(refs@) == concat_map(o.inputs.subrange(0, i as int), fin),
        decreases operation.inputs.len() - i,
    {
        walk_type_refs(&operation.inputs[i].ty, &mut refs);
        proof {
            assert(fin(o.inputs[i as int]) == nodes(operation.inputs@[i as int].ty@));
            lemma_concat_map_prefix(o.inputs, i as int, fin);
        }
        i = i + 1;
    }
    proof {
        assert(o.inputs.subrange(0, operation.inputs.len() as int) =~= o.inputs);
    }
    let ghost r1 = views_of(refs@);
    let mut i: usize = 0;
    proof {
        assert(views_of(refs@) =~= r1 + concat_map(o.observations.subrange(0, 0), fin));
    }
    while i < operation.observations.len()
        invariant
            i <= operation.observations.len(),
            o == operation@,
            fin == (|v: crate::contract::operation::NamedValueShape| nodes(v.ty)),
            views_of(refs@) == r1 + concat_map(o.observations.subrange(0, i as int), fin),
        decreases operation.observations.len() - i,
    {
        walk_type_refs(&operation.observations[i].ty, &mut refs);
        proof {
            assert(fin(o.observations[i as int]) == nodes(operation.observations@[i as int].ty@));
            lemma_concat_map_prefix(o.observations, i as int, fin);
        }
        i = i + 1;
    }
    proof {
        assert(o.observations.subrange(0, operation.observations.len() as int) =~= o.observations);
    }
    let ghost r2 = views_of(refs@);
    if let Some(result) = &operation.outcomes.result {
        walk_type_refs(result, &mut refs);
    }
    let ghost r3 = views_of(refs@);
    proof {
        assert(r3 =~= r2 + match o.outcomes.result {
            Some(t) => nodes(t),
            None => Seq::empty(),
        });
    }
    let mut i: usize = 0;
    proof {
        assert(views_of(refs@) =~= r3 + concat_map(o.outcomes.errors.subrange(0, 0), fer));
    }
    while i < operation.outcomes.errors.len()
        invariant
            i <= operation.outcomes.errors.len(),
            o == operation@,
            fer == (|e: crate::contract::operation::ErrorOutcomeShape| match e.ty {
                Some(t) => nodes(t),
                None => Seq::empty(),
            }),
            views_of(refs@) == r3 + concat_map(o.outcomes.errors.subrange(0, i as int), fer),
        decreases operation.outcomes.errors.len() - i,
    {
        let ghost before = views_of(refs@);
        if let Some(ty) = &operation.outcomes.errors[i].ty {
            walk_type_refs(ty, &mut refs);
        }
        proof {
            assert(o.outcomes.errors[i as int] == operation.outcomes.errors@[i as int]@);
            assert(views_of(refs@) =~= before + fer(o.outcomes.errors[i as int]));
            lemma_concat_map_prefix(o.outcomes.errors, i as int, fer);
        }
        i = i + 1;
    }
    proof {
        assert(o.outcomes.errors.subrange(0, operation.outcomes.errors.len() as int) =~= o.outcomes.errors);
        assert(views_of(refs@) =~= operation_refs(o));
    }

    let ghost mid = views_of(out@);
    let ghost g = |t: TypeShape|
        resolve_violations(t, op_at@, str_views(declared_types@), str_views(declared_deps@)) + inline_violations(t, op_at@);
    let mut k: usize = 0;
    while k < refs.len()
        invariant
            k <= refs.len(),
            g == (|t: TypeShape|
                resolve_violations(t, op_at@, str_views(declared_types@), str_views(declared_deps@)) + inline_violations(t, op_at@)),
            views_of(out@) == mid + concat_map(views_of(refs@).subrange(0, k as int), g),
        decreases refs.len() - k,
    {
        let ghost before = views_of(out@);
        resolve_named(refs[k], op_at.as_str(), declared_types, declared_deps, out);
        check_inline_uniqueness(refs[k], op_at.as_str(), out);
        proof {
            assert(views_of(refs@)[k as int] == refs@[k as int]@);
            assert(g(views_of(refs@)[k as int]) == resolve_violations(refs@[k as int]@, op_at@, str_views(declared_types@), str_views(declared_deps@)) + inline_violations(refs@[k as int]@, op_at@));
            assert(views_of(out@) =~= before + g(views_of(refs@)[k as int]));
            lemma_concat_map_prefix(views_of(refs@), k as int, g);
        }
        k = k + 1;
    }
    proof {
        assert(views_of(refs@).subrange(0, refs.len() as int) =~= views_of(refs@));
        assert(views_of(out@) =~= start + operation_violations(
            o,
            at@,
            str_views(declared_types@),
            str_views(declared_deps@),
        ));
    }
}


/// A name listed twice is reported by the duplicate check for its scope.
proof fn lemma_repeat_reported(names: Seq<Seq<char>>, at: Seq<char>, scope: Seq<char>, i: int, j: int)
    requires
        0 <= i < j < names.len(),
        names[i] == names[j],
    ensures
        dup_violations(names, at, scope).contains(
            ViolationShape { location: at, kind: KindShape::DuplicateName { scope, name: names[i] } },
        ),
{
    let x = names[i];
    law_duplicates_listed_once_ascending(names);
    assert(duplicate_names(names).contains(x));
    let k = choose|k: int| 0 <= k < duplicate_names(names).len() && duplicate_names(names)[k] == x;
    assert(dup_violations(names, at, scope)[k] == ViolationShape {
        location: at,
        kind: KindShape::DuplicateName { scope, name: x },
    });
}

/// What is wrong with one component is wrong with the document.
proof fn lemma_component_violation_reported(d: DocumentShape, ci: int, v: ViolationShape)
    requires
        0 <= ci < d.components.len(),
        component_violations(d.components[ci]).contains(v),
    ensures
        document_violations(d).contains(v),
{
    let f = |c: ComponentShape| component_violations(c);
    lemma_concat_map_contains(d.components, ci, f, v);
    let pre = format_violation("format"@, d.format, FORMAT@) + format_violation(
        "formatVersion"@,
        d.format_version,
        FORMAT_VERSION@,
    ) + dup_violations(
        d.imports.map_values(|i: crate::contract::component::ImportShape| i.registry_id),
        "document"@,
        "import registryId"@,
    ) + dup_violations(d.components.map_values(|c: ComponentShape| c.id), "document"@, "component id"@);
    let cm = concat_map(d.components, f);
    let m = choose|m: int| 0 <= m < cm.len() && cm[m] == v;
    assert(document_violations(d) =~= pre + cm);
    assert((pre + cm)[pre.len() + m] == v);
}

/// The three duplicate checks of a component, in the order they report.
proof fn lemma_component_duplicates_reported(c: ComponentShape, v: ViolationShape)
    requires
        dup_violations(dependency_ids(c), component_location(c), "dependency componentId"@).contains(v)
            || dup_violations(
            c.operations.map_values(|o: OperationShape| o.name),
            component_location(c),
            "operation name"@,
        ).contains(v) || dup_violations(declared_type_names(c), component_location(c), "type name"@).contains(
            v,
        ),
    ensures
        component_violations(c).contains(v),
{
    let at = component_location(c);
    let x = dup_violations(dependency_ids(c), at, "dependency componentId"@);
    let y = dup_violations(c.operations.map_values(|o: OperationShape| o.name), at, "operation name"@);
    let z = dup_violations(declared_type_names(c), at, "type name"@);
    let b = concat_map(
        c.types,
        |t: NamedTypeShape| named_type_violations(t, at + " type "@ + debug_str(t.name())),
    ) + concat_map(
        c.operations,
        |o: OperationShape| operation_violations(o, at, declared_type_names(c), dependency_ids(c)),
    );
    assert(component_violations(c) =~= x + y + z + b);
    if x.contains(v) {
        let k = choose|k: int| 0 <= k < x.len() && x[k] == v;
        assert((x + y + z + b)[k] == v);
    } else if y.contains(v) {
        let k = choose|k: int| 0 <= k < y.len() && y[k] == v;
        assert((x + y + z + b)[x.len() + k] == v);
    } else {
        let k = choose|k: int| 0 <= k < z.len() && z[k] == v;
        assert((x + y + z + b)[x.len() + y.len() + k] == v);
    }
}

/// A type name that a component declares twice is reported: the document
/// has a duplicate-name violation with scope `type name` for that name,
/// located at the component, and so is never reported clean.
pub proof fn law_repeated_type_names_are_reported(d: DocumentShape, ci: int, i: int, j: int)
    requires
        0 <= ci < d.components.len(),
        0 <= i < j < d.components[ci].types.len(),
        d.components[ci].types[i].name() == d.components[ci].types[j].name(),
    ensures
        document_violations(d).contains(
            ViolationShape {
                location: "component "@ + debug_str(d.components[ci].id),
                kind: KindShape::DuplicateName {
                    scope: "type name"@,
                    name: d.components[ci].types[i].name(),
                },
            },
        ),
        document_violations(d).len() > 0,
{
    let c = d.components[ci];
    let names = declared_type_names(c);
    assert(names[i] == c.types[i].name() && names[j] == c.types[j].name());
    lemma_repeat_reported(names, component_location(c), "type name"@, i, j);
    let v = ViolationShape {
        location: component_location(c),
        kind: KindShape::DuplicateName { scope: "type name"@, name: names[i] },
    };
    lemma_component_duplicates_reported(c, v);
    lemma_component_violation_reported(d, ci, v);
}

/// An operation name that a component declares twice is reported with scope
/// `operation name` at the component.
pub proof fn law_repeated_operation_names_are_reported(d: DocumentShape, ci: int, i: int, j: int)
    requires
        0 <= ci < d.components.len(),
        0 <= i < j < d.components[ci].operations.len(),
        d.components[ci].operations[i].name == d.components[ci].operations[j].name,
    ensures
        document_violations(d).contains(
            ViolationShape {
                location: "component "@ + debug_str(d.components[ci].id),
                kind: KindShape::DuplicateName {
                    scope: "operation name"@,
                    name: d.components[ci].operations[i].name,
                },
            },
        ),
{
    let c = d.components[ci];
    let names = c.operations.map_values(|o: OperationShape| o.name);
    assert(names[i] == c.operations[i].name && names[j] == c.operations[j].name);
    lemma_repeat_reported(names, component_location(c), "operation name"@, i, j);
    let v = ViolationShape {
        location: component_location(c),
        kind: KindShape::DuplicateName { scope: "operation name"@, name: names[i] },
    };
    lemma_component_duplicates_reported(c, v);
    lemma_component_violation_reported(d, ci, v);
}

/// A dependency that a component lists twice is reported with scope
/// `dependency componentId` at the component.
pub proof fn law_repeated_dependencies_are_reported(d: DocumentShape, ci: int, i: int, j: int)
    requires
        0 <= ci < d.components.len(),
        0 <= i < j < d.components[ci].dependencies.len(),
        d.components[ci].dependencies[i].component_id == d.components[ci].dependencies[j].component_id,
    ensures
        document_violations(d).contains(
            ViolationShape {
                location: "component "@ + debug_str(d.components[ci].id),
                kind: KindShape::DuplicateName {
                    scope: "dependency componentId"@,
                    name: d.components[ci].dependencies[i].component_id,
                },
            },
        ),
{
    let c = d.components[ci];
    let names = dependency_ids(c);
    assert(names[i] == c.dependencies[i].component_id && names[j] == c.dependencies[j].component_id);
    lemma_repeat_reported(names, component_location(c), "dependency componentId"@, i, j);
    let v = ViolationShape {
        location: component_location(c),
        kind: KindShape::DuplicateName { scope: "dependency componentId"@, name: names[i] },
    };
    lemma_component_duplicates_reported(c, v);
    lemma_component_violation_reported(d, ci, v);
}

/// A component id that the document uses twice is reported with scope
/// `component id` at the document.
pub proof fn law_repeated_component_ids_are_reported(d: DocumentShape, i: int, j: int)
    requires
        0 <= i < j < d.components.len(),
        d.components[i].id == d.components[j].id,
    ensures
        document_violations(d).contains(
            ViolationShape {
                location: "document"@,
                kind: KindShape::DuplicateName { scope: "component id"@, name: d.components[i].id },
            },
        ),
{
    let names = d.components.map_values(|c: ComponentShape| c.id);
    assert(names[i] == d.components[i].id && names[j] == d.components[j].id);
    lemma_repeat_reported(names, "document"@, "component id"@, i, j);
    let v = ViolationShape {
        location: "document"@,
        kind: KindShape::DuplicateName { scope: "component id"@, name: names[i] },
    };
    let p = format_violation("format"@, d.format, FORMAT@) + format_violation(
        "formatVersion"@,
        d.format_version,
        FORMAT_VERSION@,
    ) + dup_violations(
        d.imports.map_values(|i: crate::contract::component::ImportShape| i.registry_id),
        "document"@,
        "import registryId"@,
    );
    let q = dup_violations(names, "document"@, "component id"@);
    let r = concat_map(d.components, |c: ComponentShape| component_violations(c));
    assert(document_violations(d) =~= p + q + r);
    let k = choose|k: int| 0 <= k < q.len() && q[k] == v;
    assert((p + q + r)[p.len() + k] == v);
}

} // verus!
