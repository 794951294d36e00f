//! Type references and the primitive scalar set of the registry document.
//!
//! A [`TypeRef`] is the recursive, language-neutral shape of any value the
//! registry declares: an input, observation, result, error payload, record
//! field or union variant.

use vstd::prelude::*;

verus! {

broadcast use vstd::std_specs::vec::group_vec_axioms;

/// The primitive scalar types.
#[derive(Debug, Clone, Copy, PartialEq, Eq, Structural)]
pub enum Primitive {
    /// No value (`()` / `void`).
    Unit,
    /// A UTF-8 string.
    String,
    /// A boolean.
    Bool,
    /// A 32-bit signed integer.
    I32,
    /// A 64-bit signed integer.
    I64,
    /// A 32-bit unsigned integer.
    U32,
    /// A 64-bit unsigned integer.
    U64,
    /// A 32-bit binary floating-point number.
    F32,
    /// A 64-bit binary floating-point number.
    F64,
    /// An opaque byte string.
    Bytes,
}

/// A reference to a value type.
#[derive(Debug, PartialEq, Eq)]
pub enum TypeRef {
    /// A primitive scalar.
    Primitive {
        /// The scalar type.
        name: Primitive,
    },
    /// A reference to a named type, resolved by scope.
    Named {
        /// The referenced type name.
        name: String,
        /// A component scope; absent means the current component.
        component_id: Option<String>,
        /// An imported-registry scope; requires `component_id`.
        registry_id: Option<String>,
    },
    /// An ordered collection.
    List {
        /// The element type.
        items: Box<TypeRef>,
    },
    /// An unordered, duplicate-free collection.
    SetOf {
        /// The element type.
        items: Box<TypeRef>,
    },
    /// An explicitly encoded optional value.
    Optional {
        /// The wrapped value type.
        value: Box<TypeRef>,
    },
    /// A key/value mapping.
    MapOf {
        /// The key type.
        keys: Box<TypeRef>,
        /// The value type.
        values: Box<TypeRef>,
    },
    /// A fixed-arity, positionally typed value.
    Tuple {
        /// The element type at each position.
        items: Vec<TypeRef>,
    },
    /// An inline record of string-keyed fields.
    Record {
        /// The record fields.
        fields: Vec<Field>,
    },
    /// An inline tagged union of named, optionally payloaded variants.
    TaggedUnion {
        /// The union variants.
        variants: Vec<Variant>,
    },
}

/// A record field: a name bound to a type.
#[derive(Debug, PartialEq, Eq)]
pub struct Field {
    /// The field name, unique within the record.
    pub name: String,
    /// The field type.
    pub ty: TypeRef,
    /// An optional human-readable description.
    pub description: Option<String>,
}

/// A tagged-union variant: a name and an optional payload.
#[derive(Debug, PartialEq, Eq)]
pub struct Variant {
    /// The variant name, unique within the union.
    pub name: String,
    /// The variant payload type, if any.
    pub payload: Option<TypeRef>,
    /// An optional human-readable description.
    pub description: Option<String>,
}

/// The mathematical value of a [`TypeRef`]: names are character sequences.
#[verifier::ext_equal]
pub enum TypeShape {
    Primitive { name: Primitive },
    Named {
        name: Seq<char>,
        component_id: Option<Seq<char>>,
        registry_id: Option<Seq<char>>,
    },
    List { items: Box<TypeShape> },
    SetOf { items: Box<TypeShape> },
    Optional { value: Box<TypeShape> },
    MapOf { keys: Box<TypeShape>, values: Box<TypeShape> },
    Tuple { items: Seq<TypeShape> },
    Record { fields: Seq<FieldShape> },
    TaggedUnion { variants: Seq<VariantShape> },
}

/// The mathematical value of a [`Field`].
#[verifier::ext_equal]
pub struct FieldShape {
    pub name: Seq<char>,
    pub ty: TypeShape,
    pub description: Option<Seq<char>>,
}

/// The mathematical value of a [`Variant`].
#[verifier::ext_equal]
pub struct VariantShape {
    pub name: Seq<char>,
    pub payload: Option<TypeShape>,
    pub description: Option<Seq<char>>,
}

/// The view of an optional string.
pub open spec fn opt_view(o: Option<String>) -> Option<Seq<char>> {
    match o {
        Some(s) => Some(s@),
        None => None,
    }
}

/// A copy of an optional string.
pub fn opt_clone(o: &Option<String>) -> (r: Option<String>)
    ensures
        opt_view(r) == opt_view(*o),
{
    match o {
        Some(s) => Some(s.clone()),
        None => None,
    }
}

pub open spec fn shape_of(t: TypeRef) -> TypeShape
    decreases t,
{
    match t {
        TypeRef::Primitive { name } => TypeShape::Primitive { name },
        TypeRef::Named { name, component_id, registry_id } => TypeShape::Named {
            name: name@,
            component_id: opt_view(component_id),
            registry_id: opt_view(registry_id),
        },
        TypeRef::List { items } => TypeShape::List { items: Box::new(shape_of(*items)) },
        TypeRef::SetOf { items } => TypeShape::SetOf { items: Box::new(shape_of(*items)) },
        TypeRef::Optional { value } => TypeShape::Optional { value: Box::new(shape_of(*value)) },
        TypeRef::MapOf { keys, values } => TypeShape::MapOf {
            keys: Box::new(shape_of(*keys)),
            values: Box::new(shape_of(*values)),
        },
        TypeRef::Tuple { items } => TypeShape::Tuple { items: shapes_of(items@) },
        TypeRef::Record { fields } => TypeShape::Record { fields: field_shapes(fields@) },
        TypeRef::TaggedUnion { variants } => TypeShape::TaggedUnion {
            variants: variant_shapes(variants@),
        },
    }
}

pub open spec fn shapes_of(s: Seq<TypeRef>) -> Seq<TypeShape>
    decreases s,
{
    if s.len() == 0 {
        Seq::empty()
    } else {
        seq![shape_of(s[0])] + shapes_of(s.subrange(1, s.len() as int))
    }
}

pub open spec fn field_shapes(s: Seq<Field>) -> Seq<FieldShape>
    decreases s,
{
    if s.len() == 0 {
        Seq::empty()
    } else {
        seq![
            FieldShape {
                name: s[0].name@,
                ty: shape_of(s[0].ty),
                description: opt_view(s[0].description),
            },
        ] + field_shapes(s.subrange(1, s.len() as int))
    }
}

pub open spec fn variant_shapes(s: Seq<Variant>) -> Seq<VariantShape>
    decreases s,
{
    if s.len() == 0 {
        Seq::empty()
    } else {
        seq![
            VariantShape {
                name: s[0].name@,
                payload: match s[0].payload {
                    Some(p) => Some(shape_of(p)),
                    None => None,
                },
                description: opt_view(s[0].description),
            },
        ] + variant_shapes(s.subrange(1, s.len() as int))
    }
}

impl View for TypeRef {
    type V = TypeShape;

    open spec fn view(&self) -> TypeShape {
        shape_of(*self)
    }
}

impl View for Field {
    type V = FieldShape;

    open spec fn view(&self) -> FieldShape {
        FieldShape { name: self.name@, ty: shape_of(self.ty), description: opt_view(self.description) }
    }
}

impl View for Variant {
    type V = VariantShape;

    open spec fn view(&self) -> VariantShape {
        VariantShape {
            name: self.name@,
            payload: match self.payload {
                Some(p) => Some(shape_of(p)),
                None => None,
            },
            description: opt_view(self.description),
        }
    }
}

pub proof fn lemma_shapes_of_push(s: Seq<TypeRef>, t: TypeRef)
    ensures
        shapes_of(s.push(t)) == shapes_of(s).push(shape_of(t)),
    decreases s.len(),
{
    if s.len() == 0 {
        assert(s.push(t).subrange(1, 1) =~= Seq::<TypeRef>::empty());
        assert(s.push(t)[0] == t);
        assert(shapes_of(Seq::<TypeRef>::empty()) =~= Seq::empty());
        assert(shapes_of(s.push(t)) =~= seq![shape_of(t)]);
    } else {
        lemma_shapes_of_push(s.subrange(1, s.len() as int), t);
        assert(s.push(t).subrange(1, s.len() as int + 1) =~= s.subrange(1, s.len() as int).push(t));
        assert(shapes_of(s.push(t)) =~= shapes_of(s).push(shape_of(t)));
    }
}

pub proof fn lemma_field_shapes_push(s: Seq<Field>, t: Field)
    ensures
        field_shapes(s.push(t)) == field_shapes(s).push(t@),
    decreases s.len(),
{
    if s.len() == 0 {
        assert(s.push(t).subrange(1, 1) =~= Seq::<Field>::empty());
        assert(s.push(t)[0] == t);
        assert(field_shapes(Seq::<Field>::empty()) =~= Seq::empty());
        assert(field_shapes(s.push(t)) =~= seq![t@]);
    } else {
        lemma_field_shapes_push(s.subrange(1, s.len() as int), t);
        assert(s.push(t).subrange(1, s.len() as int + 1) =~= s.subrange(1, s.len() as int).push(t));
        assert(field_shapes(s.push(t)) =~= field_shapes(s).push(t@));
    }
}

pub proof fn lemma_variant_shapes_push(s: Seq<Variant>, t: Variant)
    ensures
        variant_shapes(s.push(t)) == variant_shapes(s).push(t@),
    decreases s.len(),
{
    if s.len() == 0 {
        assert(s.push(t).subrange(1, 1) =~= Seq::<Variant>::empty());
        assert(s.push(t)[0] == t);
        assert(variant_shapes(Seq::<Variant>::empty()) =~= Seq::empty());
        assert(variant_shapes(s.push(t)) =~= seq![t@]);
    } else {
        lemma_variant_shapes_push(s.subrange(1, s.len() as int), t);
        assert(s.push(t).subrange(1, s.len() as int + 1) =~= s.subrange(1, s.len() as int).push(t));
        assert(variant_shapes(s.push(t)) =~= variant_shapes(s).push(t@));
    }
}

/// A value that can be deep-copied, the copy having the same view.
pub trait Duplicate: View + Sized {
    /// A deep copy of this value.
    fn duplicate(&self) -> (r: Self)
        ensures
            r@ == self@,
    ;
}

/// The views of a sequence of values.
pub open spec fn views_of<T: View>(s: Seq<T>) -> Seq<T::V> {
    s.map_values(|x: T| x@)
}

/// A deep copy of a vector.
pub fn dup_vec<T: Duplicate>(v: &Vec<T>) -> (r: Vec<T>)
    ensures
        views_of(r@) == views_of(v@),
{
    let mut out: Vec<T> = Vec::new();
    let mut i: usize = 0;
    while i < v.len()
        invariant
            i <= v.len(),
            views_of(out@) == views_of(v@.subrange(0, i as int)),
        decreases v.len() - i,
    {
        let d = v[i].duplicate();
        let ghost prev = out@;
        out.push(d);
        proof {
            assert(v@.subrange(0, i + 1) =~= v@.subrange(0, i as int).push(v@[i as int]));
            assert(out@ =~= prev.push(d));
            assert(views_of(out@) =~= views_of(prev).push(d@));
            assert(views_of(v@.subrange(0, i + 1)) =~= views_of(v@.subrange(0, i as int)).push(
                v@[i as int]@,
            ));
        }
        i = i + 1;
    }
    proof {
        assert(v@.subrange(0, v.len() as int) =~= v@);
    }
    out
}

impl Duplicate for TypeRef {
    fn duplicate(&self) -> (r: TypeRef) {
        self.duplicate_ref()
    }
}

impl TypeRef {
    /// Whether this is the `unit` primitive.
    pub fn is_unit(&self) -> (r: bool)
        ensures
            r == (self@ == TypeShape::Primitive { name: Primitive::Unit }),
    {
        match self {
            TypeRef::Primitive { name: Primitive::Unit } => true,
            _ => false,
        }
    }

    /// A deep copy of this type reference.
    pub fn duplicate_ref(&self) -> (r: TypeRef)
        ensures
            r@ == self@,
        decreases self,
    {
        match self {
            TypeRef::Primitive { name } => TypeRef::Primitive { name: *name },
            TypeRef::Named { name, component_id, registry_id } => TypeRef::Named {
                name: name.clone(),
                component_id: opt_clone(component_id),
                registry_id: opt_clone(registry_id),
            },
            TypeRef::List { items } => TypeRef::List { items: Box::new((**items).duplicate_ref()) },
            TypeRef::SetOf { items } => TypeRef::SetOf { items: Box::new((**items).duplicate_ref()) },
            TypeRef::Optional { value } => TypeRef::Optional {
                value: Box::new((**value).duplicate_ref()),
            },
            TypeRef::MapOf { keys, values } => TypeRef::MapOf {
                keys: Box::new((**keys).duplicate_ref()),
                values: Box::new((**values).duplicate_ref()),
            },
            TypeRef::Tuple { items } => {
                let mut out: Vec<TypeRef> = Vec::new();
                let mut i: usize = 0;
                while i < items.len()
                    invariant
                        i <= items.len(),
                        *self == (TypeRef::Tuple { items: *items }),
                        shapes_of(out@) == shapes_of(items@.subrange(0, i as int)),
                    decreases items.len() - i,
                {
                    proof {
                        assert(decreases_to!(*self => (*self)->Tuple_items));
                        assert(decreases_to!(*items => items@));
                        assert(decreases_to!(items@ => items@[i as int]));
                        assert(decreases_to!(*self => items@[i as int]));
                    }
                    let d = items[i].duplicate_ref();
                    proof {
                        lemma_shapes_of_push(out@, d);
                        lemma_shapes_of_push(items@.subrange(0, i as int), items@[i as int]);
                        assert(items@.subrange(0, i + 1) =~= items@.subrange(0, i as int).push(
                            items@[i as int],
                        ));
                    }
                    out.push(d);
                    i = i + 1;
                }
                proof {
                    assert(items@.subrange(0, items.len() as int) =~= items@);
                }
                TypeRef::Tuple { items: out }
            },
            TypeRef::Record { fields } => {
                let mut out: Vec<Field> = Vec::new();
                let mut i: usize = 0;
                while i < fields.len()
                    invariant
                        i <= fields.len(),
                        *self == (TypeRef::Record { fields: *fields }),
                        field_shapes(out@) == field_shapes(fields@.subrange(0, i as int)),
                    decreases fields.len() - i,
                {
                    proof {
                        assert(decreases_to!(*self => (*self)->Record_fields));
                        assert(decreases_to!(*fields => fields@));
                        assert(decreases_to!(fields@ => fields@[i as int]));
                        assert(decreases_to!(*self => fields@[i as int].ty));
                    }
                    let f = &fields[i];
                    let d = Field {
                        name: f.name.clone(),
                        ty: f.ty.duplicate_ref(),
                        description: opt_clone(&f.description),
                    };
                    proof {
                        lemma_field_shapes_push(out@, d);
                        lemma_field_shapes_push(fields@.subrange(0, i as int), fields@[i as int]);
                        assert(fields@.subrange(0, i + 1) =~= fields@.subrange(0, i as int).push(
                            fields@[i as int],
                        ));
                    }
                    out.push(d);
                    i = i + 1;
                }
                proof {
                    assert(fields@.subrange(0, fields.len() as int) =~= fields@);
                }
                TypeRef::Record { fields: out }
            },
            TypeRef::TaggedUnion { variants } => {
                let mut out: Vec<Variant> = Vec::new();
                let mut i: usize = 0;
                while i < variants.len()
                    invariant
                        i <= variants.len(),
                        *self == (TypeRef::TaggedUnion { variants: *variants }),
                        variant_shapes(out@) == variant_shapes(variants@.subrange(0, i as int)),
                    decreases variants.len() - i,
                {
                    let v = &variants[i];
                    proof {
                        assert(decreases_to!(*self => (*self)->TaggedUnion_variants));
                        assert(decreases_to!(*variants => variants@));
                        assert(decreases_to!(variants@ => variants@[i as int]));
                        assert(decreases_to!(*self => variants@[i as int].payload));
                    }
                    let payload = match &v.payload {
                        Some(p) => Some(p.duplicate_ref()),
                        None => None,
                    };
                    let d = Variant {
                        name: v.name.clone(),
                        payload,
                        description: opt_clone(&v.description),
                    };
                    proof {
                        lemma_variant_shapes_push(out@, d);
                        lemma_variant_shapes_push(
                            variants@.subrange(0, i as int),
                            variants@[i as int],
                        );
                        assert(variants@.subrange(0, i + 1) =~= variants@.subrange(
                            0,
                            i as int,
                        ).push(variants@[i as int]));
                    }
                    out.push(d);
                    i = i + 1;
                }
                proof {
                    assert(variants@.subrange(0, variants.len() as int) =~= variants@);
                }
                TypeRef::TaggedUnion { variants: out }
            },
        }
    }
}

} // verus!
