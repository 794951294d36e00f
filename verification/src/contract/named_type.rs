//! Component-level named type declarations.
//!
//! A component's `types` array holds named records and tagged unions that its
//! operations reference by name. Unlike an inline type reference, a
//! `NamedType` always carries a name unique within its component.

use vstd::prelude::*;
use crate::contract::type_ref::{
    dup_vec, field_shapes, opt_clone, opt_view, variant_shapes, views_of, Duplicate, Field,
    FieldShape, Variant, VariantShape,
};

verus! {

/// A named type declared by a component.
#[derive(Debug, PartialEq, Eq)]
pub enum NamedType {
    /// A string-keyed record.
    Record {
        /// The type name, unique within the component.
        name: String,
        /// The record fields.
        fields: Vec<Field>,
        /// An optional human-readable description.
        description: Option<String>,
    },
    /// A tagged union of named, optionally payloaded variants.
    TaggedUnion {
        /// The type name, unique within the component.
        name: String,
        /// The union variants.
        variants: Vec<Variant>,
        /// An optional human-readable description.
        description: Option<String>,
    },
}

/// The mathematical value of a [`NamedType`].
pub enum NamedTypeShape {
    Record { name: Seq<char>, fields: Seq<FieldShape>, description: Option<Seq<char>> },
    TaggedUnion {
        name: Seq<char>,
        variants: Seq<VariantShape>,
        description: Option<Seq<char>>,
    },
}

impl NamedTypeShape {
    /// The declared name.
    pub open spec fn name(self) -> Seq<char> {
        match self {
            NamedTypeShape::Record { name, .. } => name,
            NamedTypeShape::TaggedUnion { name, .. } => name,
        }
    }
}

impl View for NamedType {
    type V = NamedTypeShape;

    open spec fn view(&self) -> NamedTypeShape {
        match self {
            NamedType::Record { name, fields, description } => NamedTypeShape::Record {
                name: name@,
                fields: field_shapes(fields@),
                description: opt_view(*description),
            },
            NamedType::TaggedUnion { name, variants, description } => NamedTypeShape::TaggedUnion {
                name: name@,
                variants: variant_shapes(variants@),
                description: opt_view(*description),
            },
        }
    }
}

pub proof fn lemma_field_shapes_views(s: Seq<Field>)
    ensures
        field_shapes(s) == views_of(s),
    decreases s.len(),
{
    if s.len() > 0 {
        lemma_field_shapes_views(s.subrange(1, s.len() as int));
        assert(views_of(s) =~= seq![s[0]@] + views_of(s.subrange(1, s.len() as int)));
    } else {
        assert(views_of(s) =~= Seq::empty());
    }
}

pub proof fn lemma_variant_shapes_views(s: Seq<Variant>)
    ensures
        variant_shapes(s) == views_of(s),
    decreases s.len(),
{
    if s.len() > 0 {
        lemma_variant_shapes_views(s.subrange(1, s.len() as int));
        assert(views_of(s) =~= seq![s[0]@] + views_of(s.subrange(1, s.len() as int)));
    } else {
        assert(views_of(s) =~= Seq::empty());
    }
}

impl Duplicate for Field {
    fn duplicate(&self) -> (r: Field) {
        Field { name: self.name.clone(), ty: self.ty.duplicate(), description: opt_clone(&self.description) }
    }
}

impl Duplicate for Variant {
    fn duplicate(&self) -> (r: Variant) {
        let payload = match &self.payload {
            Some(p) => Some(p.duplicate()),
            None => None,
        };
        Variant { name: self.name.clone(), payload, description: opt_clone(&self.description) }
    }
}

impl Duplicate for NamedType {
    fn duplicate(&self) -> (r: NamedType) {
        match self {
            NamedType::Record { name, fields, description } => {
                let f = dup_vec(fields);
                proof {
                    lemma_field_shapes_views(f@);
                    lemma_field_shapes_views(fields@);
                }
                NamedType::Record { name: name.clone(), fields: f, description: opt_clone(description) }
            },
            NamedType::TaggedUnion { name, variants, description } => {
                let v = dup_vec(variants);
                proof {
                    lemma_variant_shapes_views(v@);
                    lemma_variant_shapes_views(variants@);
                }
                NamedType::TaggedUnion {
                    name: name.clone(),
                    variants: v,
                    description: opt_clone(description),
                }
            },
        }
    }
}

impl NamedType {
    /// The declared name, unique within the owning component.
    pub fn name(&self) -> (r: &str)
        ensures
            r@ == self@.name(),
    {
        match self {
            NamedType::Record { name, .. } => name.as_str(),
            NamedType::TaggedUnion { name, .. } => name.as_str(),
        }
    }
}

} // verus!
