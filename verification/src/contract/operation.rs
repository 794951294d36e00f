//! Operation declarations: inputs, observations and completion outcomes.

use vstd::prelude::*;
use crate::contract::type_ref::{dup_vec, opt_clone, opt_view, views_of, Duplicate, TypeRef, TypeShape};

verus! {

/// A named, typed value: an operation input or observation.
#[derive(Debug, PartialEq, Eq)]
pub struct NamedValue {
    /// The value name, unique among its siblings.
    pub name: String,
    /// The value type.
    pub ty: TypeRef,
    /// An optional human-readable description.
    pub description: Option<String>,
}

/// A declared error outcome: a permitted error name and optional payload type.
#[derive(Debug, PartialEq, Eq)]
pub struct ErrorOutcome {
    /// The permitted error name, unique per operation.
    pub name: String,
    /// The optional decomposed error payload type.
    pub ty: Option<TypeRef>,
    /// An optional human-readable description.
    pub description: Option<String>,
}

/// The completion outcomes an operation may emit.
///
/// `result` declares the success value type; `empty` permits an empty
/// completion and requires `result`; `errors` enumerate the declared error
/// names.
#[derive(Debug, PartialEq, Eq)]
pub struct Outcomes {
    /// The successful result type; absent means no result channel.
    pub result: Option<TypeRef>,
    /// Whether an empty completion is permitted; requires `result`.
    pub empty: bool,
    /// The declared error outcomes.
    pub errors: Vec<ErrorOutcome>,
}

/// An operation declaration: a semantic contract of inputs, observations and
/// completion outcomes.
#[derive(Debug, PartialEq, Eq)]
pub struct Operation {
    /// The operation name, unique within the component.
    pub name: String,
    /// An optional human-readable description.
    pub description: Option<String>,
    /// The ordered input declarations.
    pub inputs: Vec<NamedValue>,
    /// The observation declarations.
    pub observations: Vec<NamedValue>,
    /// The completion outcomes.
    pub outcomes: Outcomes,
}

pub struct NamedValueShape {
    pub name: Seq<char>,
    pub ty: TypeShape,
    pub description: Option<Seq<char>>,
}

pub struct ErrorOutcomeShape {
    pub name: Seq<char>,
    pub ty: Option<TypeShape>,
    pub description: Option<Seq<char>>,
}

pub struct OutcomesShape {
    pub result: Option<TypeShape>,
    pub empty: bool,
    pub errors: Seq<ErrorOutcomeShape>,
}

pub struct OperationShape {
    pub name: Seq<char>,
    pub description: Option<Seq<char>>,
    pub inputs: Seq<NamedValueShape>,
    pub observations: Seq<NamedValueShape>,
    pub outcomes: OutcomesShape,
}

/// The view of an optional type reference.
pub open spec fn opt_type_view(o: Option<TypeRef>) -> Option<TypeShape> {
    match o {
        Some(t) => Some(t@),
        None => None,
    }
}

/// A copy of an optional type reference.
pub fn opt_type_clone(o: &Option<TypeRef>) -> (r: Option<TypeRef>)
    ensures
        opt_type_view(r) == opt_type_view(*o),
{
    match o {
        Some(t) => Some(t.duplicate()),
        None => None,
    }
}

impl View for NamedValue {
    type V = NamedValueShape;

    open spec fn view(&self) -> NamedValueShape {
        NamedValueShape { name: self.name@, ty: self.ty@, description: opt_view(self.description) }
    }
}

impl View for ErrorOutcome {
    type V = ErrorOutcomeShape;

    open spec fn view(&self) -> ErrorOutcomeShape {
        ErrorOutcomeShape {
            name: self.name@,
            ty: opt_type_view(self.ty),
            description: opt_view(self.description),
        }
    }
}

impl View for Outcomes {
    type V = OutcomesShape;

    open spec fn view(&self) -> OutcomesShape {
        OutcomesShape {
            result: opt_type_view(self.result),
            empty: self.empty,
            errors: views_of(self.errors@),
        }
    }
}

impl View for Operation {
    type V = OperationShape;

    open spec fn view(&self) -> OperationShape {
        OperationShape {
            name: self.name@,
            description: opt_view(self.description),
            inputs: views_of(self.inputs@),
            observations: views_of(self.observations@),
            outcomes: self.outcomes@,
        }
    }
}

impl Duplicate for NamedValue {
    fn duplicate(&self) -> (r: NamedValue) {
        NamedValue {
            name: self.name.clone(),
            ty: self.ty.duplicate(),
            description: opt_clone(&self.description),
        }
    }
}

impl Duplicate for ErrorOutcome {
    fn duplicate(&self) -> (r: ErrorOutcome) {
        ErrorOutcome {
            name: self.name.clone(),
            ty: opt_type_clone(&self.ty),
            description: opt_clone(&self.description),
        }
    }
}

impl Duplicate for Outcomes {
    fn duplicate(&self) -> (r: Outcomes) {
        Outcomes {
            result: opt_type_clone(&self.result),
            empty: self.empty,
            errors: dup_vec(&self.errors),
        }
    }
}

impl Duplicate for Operation {
    fn duplicate(&self) -> (r: Operation) {
        Operation {
            name: self.name.clone(),
            description: opt_clone(&self.description),
            inputs: dup_vec(&self.inputs),
            observations: dup_vec(&self.observations),
            outcomes: self.outcomes.duplicate(),
        }
    }
}

/// Whether a flag is unset (the `empty` flag is written out only when set).
pub fn is_false(b: &bool) -> (r: bool)
    ensures
        r == !*b,
{
    !*b
}

impl Outcomes {
    /// No result channel, no empty completion and no declared errors.
    pub fn none() -> (r: Outcomes)
        ensures
            r@ == (OutcomesShape { result: None, empty: false, errors: Seq::empty() }),
    {
        let r = Outcomes { result: None, empty: false, errors: Vec::new() };
        proof {
            assert(views_of(r.errors@) =~= Seq::<ErrorOutcomeShape>::empty());
        }
        r
    }
}

impl Default for Outcomes {
    fn default() -> (r: Outcomes)
        ensures
            r@ == (OutcomesShape { result: None, empty: false, errors: Seq::empty() }),
    {
        Outcomes::none()
    }
}

} // verus!
