//! What the analysis concludes about annotated functions and watched types,
//! from the facts a semantic model of the source reports about them.

use vstd::prelude::*;
use crate::analysis::registry::{FnMeta, WatchType};
use crate::analysis::semantic::{
    classify_return_ra, join_module_path, ra_lowered, ra_outcomes, type_ref_from_ra, SemanticType,
};
use crate::analysis::source::{
    attr_component, component_arg, component_arg_of, component_from_module, find_sub,
    first_literal_of, first_segment_of, first_string_literal, has_attr_text, opt_text,
    source_module_path,
};
use crate::contract::named_type::{NamedType, NamedTypeShape};
use crate::contract::operation::{NamedValue, NamedValueShape, Outcomes, OutcomesShape};
use crate::contract::type_ref::{views_of, Field, FieldShape, Primitive, TypeRef, TypeShape, Variant, VariantShape, lemma_field_shapes_push};
use crate::contract::named_type::{lemma_field_shapes_views, lemma_variant_shapes_views};
use crate::ordering::{insert_listed, is_listing, lemma_listing_exists, lemma_listing_is, listing, strictly_sorted, views};
use crate::text::{decimal, decimal_string, join, joined};

verus! {

broadcast use vstd::seq_lib::group_seq_properties;

/// A parameter of an annotated function, as the semantic model reports it.
#[derive(Debug)]
pub struct ParamFacts {
    /// The text of the parameter's pattern, if it has one.
    pub pattern: Option<String>,
    /// The written type, resolved, if it resolved.
    pub written: Option<SemanticType>,
    /// The resolved function's type for this parameter position, if any.
    pub resolved: Option<SemanticType>,
}

/// A macro call in the body of an annotated function.
#[derive(Debug)]
pub struct MacroSite {
    /// The call's source text.
    pub text: String,
    /// The type of the observed argument, if the model could infer it.
    pub argument_type: Option<SemanticType>,
    /// The module path of the function a dependency call resolves to, if any.
    pub callee_module: Option<Vec<String>>,
}

/// An annotated function, as the semantic model reports it.
#[derive(Debug)]
pub struct FnFacts {
    /// The resolved function's name, if it resolved.
    pub resolved_name: Option<String>,
    /// The name written in the source, if any.
    pub source_name: Option<String>,
    /// The resolved function's module path segments, if it resolved.
    pub resolved_module: Option<Vec<String>>,
    /// The names of the enclosing source modules, innermost first.
    pub enclosing_modules: Vec<String>,
    /// The function's source text, attributes included.
    pub text: String,
    /// Whether the function has a visibility modifier.
    pub is_public: bool,
    /// Whether the function takes `self`.
    pub has_self: bool,
    /// The parameters, the receiver excluded.
    pub params: Vec<ParamFacts>,
    /// The written return type, resolved, if any.
    pub ret_written: Option<SemanticType>,
    /// The resolved function's return type, if it resolved.
    pub ret_resolved: Option<SemanticType>,
    /// The macro calls in the body, in source order.
    pub body: Vec<MacroSite>,
}

/// A field of a watched type, as the semantic model reports it.
#[derive(Debug)]
pub struct FieldFacts {
    /// The field's name.
    pub name: String,
    /// The field's resolved type.
    pub ty: SemanticType,
}

/// A variant of a watched enum, as the semantic model reports it.
#[derive(Debug)]
pub struct VariantFacts {
    /// The variant's name.
    pub name: String,
    /// The variant's fields.
    pub fields: Vec<FieldFacts>,
}

/// A struct or enum declaration with its source text.
#[derive(Debug)]
pub struct ItemFacts {
    /// The declaration's source text, attributes included.
    pub text: String,
    /// The declared name, if any.
    pub name: Option<String>,
}

/// The component an analysed watched type is placed in.
pub const WATCH_COMPONENT: &'static str = "billing";

/// The unit type.
pub open spec fn unit_type() -> TypeShape {
    TypeShape::Primitive { name: Primitive::Unit }
}

/// The observation a `watch_point!` site records.
pub open spec fn observation_of(s: MacroSite, known: Seq<Seq<char>>) -> NamedValueShape {
    NamedValueShape {
        name: match first_literal_of(s.text@) {
            Some(n) => n,
            None => "obs"@,
        },
        ty: match s.argument_type {
            Some(t) => ra_lowered(t, known),
            None => unit_type(),
        },
        description: None,
    }
}

/// A `watch_point!` site.
pub open spec fn is_point(s: MacroSite) -> bool {
    find_sub(s.text@, "watch_point!"@) is Some
}

/// A `watch_dep!` site.
pub open spec fn is_dep(s: MacroSite) -> bool {
    find_sub(s.text@, "watch_dep!"@) is Some
}

/// The components a `watch_dep!` site names: its `component = "..."`
/// argument and the component of the function it calls.
pub open spec fn dep_mentions(s: MacroSite, c: Seq<char>) -> bool {
    is_dep(s) && (component_arg_of(s.text@) == Some(c) || (s.callee_module matches Some(m)
        && first_segment_of(join(views(m@), "::"@)) == c))
}

/// The components the body's dependency calls name.
pub open spec fn dep_components(sites: Seq<MacroSite>) -> Set<Seq<char>> {
    Set::new(|c: Seq<char>| exists|i: int| 0 <= i < sites.len() && dep_mentions(sites[i], c))
}

/// The observations of the body's `watch_point!` sites, in source order.
pub open spec fn observations_of(sites: Seq<MacroSite>, known: Seq<Seq<char>>) -> Seq<NamedValueShape> {
    sites.filter(|s: MacroSite| is_point(s)).map_values(|s: MacroSite| observation_of(s, known))
}

/// The observations and the dependency components of a function body: each
/// `watch_point!` gives an observation named by its first string literal
/// (`"obs"` without one) and typed by its argument (unit when unknown); each
/// `watch_dep!` names its `component = "..."` argument and the component of
/// the function it calls. The components come out ascending, each once.
pub fn body_sites(known: &Vec<String>, sites: &Vec<MacroSite>) -> (r: (Vec<NamedValue>, Vec<String>))
    ensures
        views_of(r.0@) == observations_of(sites@, views(known@)),
        views(r.1@) == listing(dep_components(sites@)),
{
    let ghost pred = |s: MacroSite| is_point(s);
    let ghost obs_of = |s: MacroSite| observation_of(s, views(known@));
    let mut observations: Vec<NamedValue> = Vec::new();
    let mut deps: Vec<String> = Vec::new();
    let mut i: usize = 0;
    proof {
        assert(sites@.subrange(0, 0).filter(pred) =~= Seq::<MacroSite>::empty()) by {
            reveal(Seq::filter);
        }
        assert(views_of(observations@) =~= sites@.subrange(0, 0).filter(pred).map_values(obs_of));
    }
    while i < sites.len()
        invariant
            i <= sites.len(),
            pred == (|s: MacroSite| is_point(s)),
            obs_of == (|s: MacroSite| observation_of(s, views(known@))),
            views_of(observations@) == sites@.subrange(0, i as int).filter(pred).map_values(obs_of),
            strictly_sorted(views(deps@)),
            forall|c: Seq<char>| #[trigger] views(deps@).contains(c) <==> (exists|k: int|
                0 <= k < i && dep_mentions(sites@[k], c)),
        decreases sites.len() - i,
    {
        let s = &sites[i];
        proof {
            assert(sites@.subrange(0, i + 1) =~= sites@.subrange(0, i as int).push(sites@[i as int]));
            sites@.subrange(0, i as int).lemma_filter_push(sites@[i as int], pred);
        }
        let ghost prev_obs = observations@;
        if has_attr_text(s.text.as_str(), "watch_point!") {
            let name = match first_string_literal(s.text.as_str()) {
                Some(n) => n,
                None => String::from_str("obs"),
            };
            let ty = match &s.argument_type {
                Some(t) => type_ref_from_ra(known, t),
                None => TypeRef::Primitive { name: Primitive::Unit },
            };
            let v = NamedValue { name, ty, description: None };
            observations.push(v);
            proof {
                assert(v@ == observation_of(*s, views(known@)));
                assert(views_of(observations@) =~= views_of(prev_obs).push(v@));
            }
        }
        proof {
            assert(views_of(observations@) =~= sites@.subrange(0, i + 1).filter(pred).map_values(obs_of));
        }
        let ghost before = views(deps@);
        let ghost mut added: Set<Seq<char>> = Set::empty();
        if has_attr_text(s.text.as_str(), "watch_dep!") {
            if let Some(c) = component_arg(s.text.as_str()) {
                let ghost b0 = views(deps@);
                insert_listed(&mut deps, c.as_str());
                proof {
                    added = added.insert(c@);
                    assert(forall|x: Seq<char>| #[trigger] views(deps@).contains(x) <==> (b0.contains(x) || x == c@));
                }
            }
            if let Some(m) = &s.callee_module {
                let path = join_module_path(m);
                let comp = component_from_module(path.as_str());
                let ghost b1 = views(deps@);
                insert_listed(&mut deps, comp.as_str());
                proof {
                    added = added.insert(comp@);
                }
            }
        }
        proof {
            assert forall|x: Seq<char>| #[trigger] views(deps@).contains(x) <==> (before.contains(x)
                || added.contains(x)) by {}
            assert forall|x: Seq<char>| added.contains(x) <==> dep_mentions(sites@[i as int], x) by {}
            assert forall|x: Seq<char>| #[trigger] views(deps@).contains(x) <==> (exists|k: int|
                0 <= k < i + 1 && dep_mentions(sites@[k], x)) by {
                if dep_mentions(sites@[i as int], x) {
                    assert(0 <= i < i + 1 && dep_mentions(sites@[i as int], x));
                }
                if exists|k: int| 0 <= k < i + 1 && dep_mentions(sites@[k], x) {
                    let k = choose|k: int| 0 <= k < i + 1 && dep_mentions(sites@[k], x);
                    if k < i {
                        assert(before.contains(x));
                    }
                }
                if before.contains(x) {
                    let k = choose|k: int| 0 <= k < i && dep_mentions(sites@[k], x);
                    assert(0 <= k < i + 1 && dep_mentions(sites@[k], x));
                }
            }
        }
        i = i + 1;
    }
    proof {
        assert(sites@.subrange(0, sites.len() as int) =~= sites@);
        assert forall|x: Seq<char>| #[trigger] views(deps@).contains(x) <==> dep_components(sites@).contains(x) by {}
        lemma_listing_is(dep_components(sites@), views(deps@));
    }
    (observations, deps)
}

/// The input a parameter declares: named by its pattern (`arg{idx}` without
/// one), typed by its written type, else the resolved one, else unit.
pub open spec fn input_of(idx: nat, p: ParamFacts, known: Seq<Seq<char>>) -> NamedValueShape {
    NamedValueShape {
        name: match p.pattern {
            Some(n) => n@,
            None => "arg"@ + decimal(idx),
        },
        ty: match p.written {
            Some(t) => ra_lowered(t, known),
            None => match p.resolved {
                Some(t) => ra_lowered(t, known),
                None => unit_type(),
            },
        },
        description: None,
    }
}

/// The return type of a function: the written one, else the resolved one.
pub open spec fn return_type_of(f: FnFacts) -> Option<SemanticType> {
    match f.ret_written {
        Some(t) => Some(t),
        None => f.ret_resolved,
    }
}

/// The function name: the resolved one, else the written one, else
/// `"unknown"`.
pub open spec fn fn_name_of(f: FnFacts) -> Seq<char> {
    match f.resolved_name {
        Some(n) => n@,
        None => match f.source_name {
            Some(n) => n@,
            None => "unknown"@,
        },
    }
}

/// What the analysis concludes about an annotated function.
pub open spec fn fn_meta_matches(m: FnMeta, f: FnFacts, known: Seq<Seq<char>>) -> bool {
    &&& m.name@ == fn_name_of(f)
    &&& m.fn_name@ == fn_name_of(f)
    &&& m.module@ == (match f.resolved_module {
        Some(segs) => join(views(segs@), "::"@),
        None => join(views(f.enclosing_modules@).reverse(), "::"@),
    })
    &&& m.component@ == (match component_arg_of(f.text@) {
        Some(c) => c,
        None => WATCH_COMPONENT@,
    })
    &&& views_of(m.inputs@) == Seq::new(
        f.params@.len(),
        |k: int| input_of(k as nat, f.params@[k], known),
    )
    &&& m.return_display@ == (match return_type_of(f) {
        Some(t) => t.display@,
        None => "()"@,
    })
    &&& m.outcomes@ == (match return_type_of(f) {
        Some(t) => ra_outcomes(t, known),
        None => OutcomesShape { result: None, empty: false, errors: Seq::empty() },
    })
    &&& m.is_private == !f.is_public
    &&& m.is_method == f.has_self
    &&& views_of(m.observations@) == observations_of(f.body@, known)
    &&& views(m.dependencies@) == listing(dep_components(f.body@))
}

/// The input a parameter declares.
fn input_from(idx: usize, p: &ParamFacts, known: &Vec<String>) -> (r: NamedValue)
    ensures
        r@ == input_of(idx as nat, *p, views(known@)),
{
    let name = match &p.pattern {
        Some(n) => n.clone(),
        None => {
            let digits = decimal_string(idx as u64);
            joined("arg", digits.as_str())
        },
    };
    let ty = match &p.written {
        Some(t) => type_ref_from_ra(known, t),
        None => match &p.resolved {
            Some(t) => type_ref_from_ra(known, t),
            None => TypeRef::Primitive { name: Primitive::Unit },
        },
    };
    NamedValue { name, ty, description: None }
}

/// Analyse an annotated function: its name and module (from the semantic
/// model, else the source), its component (from its `component = "..."`
/// argument, else [`WATCH_COMPONENT`]), its inputs, its return type and
/// outcomes, and the observations and dependencies of its body.
pub fn analyze_function(known: &Vec<String>, f: &FnFacts) -> (r: FnMeta)
    ensures
        fn_meta_matches(r, *f, views(known@)),
{
    let fn_name = match &f.resolved_name {
        Some(n) => n.clone(),
        None => match &f.source_name {
            Some(n) => n.clone(),
            None => String::from_str("unknown"),
        },
    };
    let module = match &f.resolved_module {
        Some(segs) => join_module_path(segs),
        None => source_module_path(&f.enclosing_modules),
    };
    let component = match attr_component(f.text.as_str()) {
        Some(c) => c,
        None => String::from_str(WATCH_COMPONENT),
    };
    let mut inputs: Vec<NamedValue> = Vec::new();
    let mut i: usize = 0;
    while i < f.params.len()
        invariant
            i <= f.params.len(),
            inputs@.len() == i,
            forall|k: int| 0 <= k < i ==> (#[trigger] inputs@[k])@ == input_of(k as nat, f.params@[k], views(known@)),
        decreases f.params.len() - i,
    {
        inputs.push(input_from(i, &f.params[i], known));
        i = i + 1;
    }
    proof {
        assert(views_of(inputs@) =~= Seq::new(
            f.params@.len(),
            |k: int| input_of(k as nat, f.params@[k], views(known@)),
        ));
    }
    let ret: Option<&SemanticType> = match &f.ret_written {
        Some(t) => Some(t),
        None => match &f.ret_resolved {
            Some(t) => Some(t),
            None => None,
        },
    };
    let return_display = match ret {
        Some(t) => t.display.clone(),
        None => String::from_str("()"),
    };
    let outcomes = match ret {
        Some(t) => classify_return_ra(known, t),
        None => Outcomes::none(),
    };
    let (observations, dependencies) = body_sites(known, &f.body);
    FnMeta {
        name: fn_name.clone(),
        module,
        fn_name,
        component,
        inputs,
        outcomes,
        return_display,
        is_private: !f.is_public,
        is_method: f.has_self,
        observations,
        dependencies,
    }
}

/// The record fields of analysed field facts.
pub open spec fn fields_of(fs: Seq<FieldFacts>, known: Seq<Seq<char>>) -> Seq<FieldShape> {
    fs.map_values(|f: FieldFacts| FieldShape { name: f.name@, ty: ra_lowered(f.ty, known), description: None })
}

/// Lower analysed field facts into record fields.
fn lower_fields(known: &Vec<String>, fs: &Vec<FieldFacts>) -> (r: Vec<Field>)
    ensures
        views_of(r@) == fields_of(fs@, views(known@)),
{
    let mut out: Vec<Field> = Vec::new();
    let mut i: usize = 0;
    while i < fs.len()
        invariant
            i <= fs.len(),
            out@.len() == i,
            forall|k: int|
                0 <= k < i ==> (#[trigger] out@[k])@ == (FieldShape {
                    name: fs@[k].name@,
                    ty: ra_lowered(fs@[k].ty, views(known@)),
                    description: None,
                }),
        decreases fs.len() - i,
    {
        let f = Field { name: fs[i].name.clone(), ty: type_ref_from_ra(known, &fs[i].ty), description: None };
        out.push(f);
        i = i + 1;
    }
    proof {
        assert(views_of(out@) =~= fields_of(fs@, views(known@)));
    }
    out
}

/// Analyse a watched struct: a record of its fields, in the
/// [`WATCH_COMPONENT`].
pub fn analyze_struct(known: &Vec<String>, name: &str, fields: &Vec<FieldFacts>) -> (r: WatchType)
    ensures
        r.component@ == WATCH_COMPONENT@,
        r.named@ == (NamedTypeShape::Record {
            name: name@,
            fields: fields_of(fields@, views(known@)),
            description: None,
        }),
{
    let fs = lower_fields(known, fields);
    proof {
        lemma_field_shapes_views(fs@);
    }
    WatchType {
        component: String::from_str(WATCH_COMPONENT),
        named: NamedType::Record { name: String::from_str(name), fields: fs, description: None },
    }
}

/// The variant an analysed enum variant declares: a record payload of its
/// fields, none when it has none.
pub open spec fn variant_of(v: VariantFacts, known: Seq<Seq<char>>) -> VariantShape {
    VariantShape {
        name: v.name@,
        payload: if v.fields@.len() == 0 {
            None
        } else {
            Some(TypeShape::Record { fields: fields_of(v.fields@, known) })
        },
        description: None,
    }
}

/// Analyse a watched enum: a tagged union of its variants, in the
/// [`WATCH_COMPONENT`].
pub fn analyze_enum(known: &Vec<String>, name: &str, variants: &Vec<VariantFacts>) -> (r: WatchType)
    ensures
        r.component@ == WATCH_COMPONENT@,
        r.named@ == (NamedTypeShape::TaggedUnion {
            name: name@,
            variants: variants@.map_values(|v: VariantFacts| variant_of(v, views(known@))),
            description: None,
        }),
{
    let mut out: Vec<Variant> = Vec::new();
    let mut i: usize = 0;
    while i < variants.len()
        invariant
            i <= variants.len(),
            out@.len() == i,
            forall|k: int| 0 <= k < i ==> (#[trigger] out@[k])@ == variant_of(variants@[k], views(known@)),
        decreases variants.len() - i,
    {
        let fs = lower_fields(known, &variants[i].fields);
        proof {
            lemma_field_shapes_views(fs@);
            assert(views_of(fs@).len() == fs@.len());
            assert(fs@.len() == variants@[i as int].fields@.len());
        }
        let payload = if fs.len() == 0 {
            None
        } else {
            Some(TypeRef::Record { fields: fs })
        };
        let v = Variant { name: variants[i].name.clone(), payload, description: None };
        proof {
            assert(v@ == variant_of(variants@[i as int], views(known@)));
        }
        out.push(v);
        i = i + 1;
    }
    proof {
        lemma_variant_shapes_views(out@);
        assert(views_of(out@) =~= variants@.map_values(|v: VariantFacts| variant_of(v, views(known@))));
    }
    WatchType {
        component: String::from_str(WATCH_COMPONENT),
        named: NamedType::TaggedUnion { name: String::from_str(name), variants: out, description: None },
    }
}

/// The names of the declarations marked `Watchable`.
pub open spec fn watchable_names(items: Seq<ItemFacts>) -> Set<Seq<char>> {
    Set::new(
        |n: Seq<char>|
            exists|i: int|
                0 <= i < items.len() && find_sub(items[i].text@, "Watchable"@) is Some
                    && opt_text(items[i].name) == Some(n),
    )
}

/// The names of the watched declarations among `items`: those whose text
/// mentions `Watchable`, ascending, each once.
pub fn collect_watchable_names(items: &Vec<ItemFacts>) -> (r: Vec<String>)
    ensures
        views(r@) == listing(watchable_names(items@)),
{
    let mut out: Vec<String> = Vec::new();
    let mut i: usize = 0;
    while i < items.len()
        invariant
            i <= items.len(),
            strictly_sorted(views(out@)),
            forall|n: Seq<char>| #[trigger] views(out@).contains(n) <==> (exists|k: int|
                0 <= k < i && find_sub(items@[k].text@, "Watchable"@) is Some && opt_text(items@[k].name)
                    == Some(n)),
        decreases items.len() - i,
    {
        let ghost before = views(out@);
        let it = &items[i];
        if has_attr_text(it.text.as_str(), "Watchable") {
            if let Some(n) = &it.name {
                insert_listed(&mut out, n.as_str());
            }
        }
        proof {
            assert forall|n: Seq<char>| #[trigger] views(out@).contains(n) <==> (exists|k: int|
                0 <= k < i + 1 && find_sub(items@[k].text@, "Watchable"@) is Some && opt_text(
                    items@[k].name,
                ) == Some(n)) by {
                if views(out@).contains(n) && !before.contains(n) {
                    assert(0 <= i < i + 1 && find_sub(items@[i as int].text@, "Watchable"@) is Some
                        && opt_text(items@[i as int].name) == Some(n));
                }
                if before.contains(n) {
                    let k = choose|k: int|
                        0 <= k < i && find_sub(items@[k].text@, "Watchable"@) is Some && opt_text(
                            items@[k].name,
                        ) == Some(n);
                    assert(0 <= k < i + 1);
                }
                if exists|k: int|
                    0 <= k < i + 1 && find_sub(items@[k].text@, "Watchable"@) is Some && opt_text(
                        items@[k].name,
                    ) == Some(n) {
                    let k = choose|k: int|
                        0 <= k < i + 1 && find_sub(items@[k].text@, "Watchable"@) is Some && opt_text(
                            items@[k].name,
                        ) == Some(n);
                    if k < i {
                        assert(before.contains(n));
                    }
                }
            }
        }
        i = i + 1;
    }
    proof {
        assert forall|n: Seq<char>| #[trigger] views(out@).contains(n) <==> watchable_names(items@).contains(n) by {}
        lemma_listing_is(watchable_names(items@), views(out@));
    }
    out
}

/// The dependency components of a body are listed once each, ascending: a
/// component is listed exactly when some dependency call names it.
pub proof fn law_body_dependencies_listed_once_ascending(sites: Seq<MacroSite>)
    ensures
        strictly_sorted(listing(dep_components(sites))),
        forall|c: Seq<char>|
            #[trigger] listing(dep_components(sites)).contains(c) <==> exists|i: int|
                0 <= i < sites.len() && dep_mentions(sites[i], c),
{
    let args = sites.map_values(
        |s: MacroSite|
            match component_arg_of(s.text@) {
                Some(c) => c,
                None => Seq::<char>::empty(),
            },
    );
    let callees = sites.map_values(
        |s: MacroSite|
            match s.callee_module {
                Some(m) => first_segment_of(join(views(m@), "::"@)),
                None => Seq::<char>::empty(),
            },
    );
    let all = args + callees;
    assert forall|c: Seq<char>| dep_components(sites).contains(c) implies #[trigger] all.contains(c) by {
        let i = choose|i: int| 0 <= i < sites.len() && dep_mentions(sites[i], c);
        if component_arg_of(sites[i].text@) == Some(c) {
            assert(all[i] == c);
        } else {
            assert(all[sites.len() + i] == c);
        }
    }
    lemma_listing_exists(dep_components(sites), all);
}

} // verus!
