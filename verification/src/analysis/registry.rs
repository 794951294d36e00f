//! The registry document built from analysed functions and types, the
//! component dependencies they reveal, and the discovery metadata the same
//! analysis amounts to.

use vstd::prelude::*;
use crate::analysis::summary::{display_type_ref, type_text};
use crate::contract::component::{Component, ComponentShape, Dependency, DependencyShape, ImportShape};
use crate::contract::document::{DocumentShape, RegistryDocument, FORMAT, FORMAT_VERSION};
use crate::contract::named_type::{lemma_field_shapes_views, lemma_variant_shapes_views, NamedType, NamedTypeShape};
use crate::contract::operation::{NamedValue, NamedValueShape, Operation, OperationShape, Outcomes};
use crate::contract::type_ref::{dup_vec, views_of, Duplicate, Field, FieldShape, TypeRef, TypeShape, Variant, VariantShape};
use crate::extract::derive::{pair_views, FieldMeta, OpMeta, TypeMeta, VariantMeta};
use crate::extract::identity::RegistryIdentity;
use crate::ordering::{insert_listed, is_listing, lemma_listing_exists, lemma_listing_is, listing, strictly_sorted, views};
use crate::text::seq_lt;
use crate::text::str_eq;

verus! {

broadcast use vstd::seq_lib::group_seq_properties;

/// What the analysis found out about one annotated function.
#[derive(Debug)]
pub struct FnMeta {
    /// The operation name.
    pub name: String,
    /// The module path the function is declared in.
    pub module: String,
    /// The function name.
    pub fn_name: String,
    /// The component the operation belongs to.
    pub component: String,
    /// The typed inputs.
    pub inputs: Vec<NamedValue>,
    /// The completion outcomes.
    pub outcomes: Outcomes,
    /// The return type as displayed.
    pub return_display: String,
    /// Whether the function is private.
    pub is_private: bool,
    /// Whether the function is a method.
    pub is_method: bool,
    /// The observations its body makes.
    pub observations: Vec<NamedValue>,
    /// The components its body depends on.
    pub dependencies: Vec<String>,
}

/// A watched type the analysis found, with its component.
#[derive(Debug)]
pub struct WatchType {
    /// The component the type belongs to.
    pub component: String,
    /// The type's declaration.
    pub named: NamedType,
}

/// The component tags of the functions and types.
pub open spec fn analysed_tags(fns: Seq<FnMeta>, types: Seq<WatchType>) -> Set<Seq<char>> {
    Set::new(
        |c: Seq<char>|
            (exists|i: int| 0 <= i < fns.len() && fns[i].component@ == c) || (exists|i: int|
                0 <= i < types.len() && types[i].component@ == c),
    )
}

/// The operation an analysed function declares.
pub open spec fn fn_operation(f: FnMeta) -> OperationShape {
    OperationShape {
        name: f.name@,
        description: None,
        inputs: views_of(f.inputs@),
        observations: views_of(f.observations@),
        outcomes: f.outcomes@,
    }
}

/// The component of tag `cid`: the operations of its functions and its types,
/// in input order, no dependencies.
pub open spec fn analysed_component(fns: Seq<FnMeta>, types: Seq<WatchType>, cid: Seq<char>) -> ComponentShape {
    ComponentShape {
        id: cid,
        description: None,
        dependencies: Seq::empty(),
        operations: fns.filter(|f: FnMeta| f.component@ == cid).map_values(|f: FnMeta| fn_operation(f)),
        types: types.filter(|t: WatchType| t.component@ == cid).map_values(|t: WatchType| t.named@),
    }
}

/// The registry document of analysed functions and types: one component per
/// tag, in ascending id order.
pub open spec fn analysed_document(
    identity: RegistryIdentity,
    fns: Seq<FnMeta>,
    types: Seq<WatchType>,
) -> DocumentShape {
    DocumentShape {
        format: FORMAT@,
        format_version: FORMAT_VERSION@,
        registry_id: identity.registry_id@,
        version: identity.version@,
        description: None,
        imports: Seq::empty(),
        components: listing(analysed_tags(fns, types)).map_values(
            |cid: Seq<char>| analysed_component(fns, types, cid),
        ),
    }
}

/// An empty component with id `id`.
pub fn empty_component(id: &str) -> (r: Component)
    ensures
        r@ == (ComponentShape {
            id: id@,
            description: None,
            dependencies: Seq::empty(),
            operations: Seq::empty(),
            types: Seq::empty(),
        }),
{
    let c = Component {
        id: String::from_str(id),
        description: None,
        dependencies: Vec::new(),
        operations: Vec::new(),
        types: Vec::new(),
    };
    proof {
        assert(c@.dependencies =~= Seq::<DependencyShape>::empty());
        assert(c@.operations =~= Seq::<OperationShape>::empty());
        assert(c@.types =~= Seq::<NamedTypeShape>::empty());
    }
    c
}

/// The distinct tags of the functions and types, ascending.
fn analysed_ids(functions: &[FnMeta], types: &[WatchType]) -> (r: Vec<String>)
    ensures
        views(r@) == listing(analysed_tags(functions@, types@)),
{
    let mut out: Vec<String> = Vec::new();
    let mut i: usize = 0;
    while i < functions.len()
        invariant
            i <= functions.len(),
            strictly_sorted(views(out@)),
            forall|x: Seq<char>| #[trigger] views(out@).contains(x) <==> (exists|k: int|
                0 <= k < i && functions@[k].component@ == x),
        decreases functions.len() - i,
    {
        let ghost before = views(out@);
        insert_listed(&mut out, functions[i].component.as_str());
        proof {
            assert forall|x: Seq<char>| #[trigger] views(out@).contains(x) <==> (exists|k: int|
                0 <= k < i + 1 && functions@[k].component@ == x) by {
                if views(out@).contains(x) && !before.contains(x) {
                    assert(0 <= i < i + 1 && functions@[i as int].component@ == x);
                }
                if before.contains(x) {
                    let k = choose|k: int| 0 <= k < i && functions@[k].component@ == x;
                    assert(0 <= k < i + 1 && functions@[k].component@ == x);
                }
                if exists|k: int| 0 <= k < i + 1 && functions@[k].component@ == x {
                    let k = choose|k: int| 0 <= k < i + 1 && functions@[k].component@ == x;
                    if k < i {
                        assert(before.contains(x));
                    }
                }
            }
        }
        i = i + 1;
    }
    let mut j: usize = 0;
    while j < types.len()
        invariant
            j <= types.len(),
            strictly_sorted(views(out@)),
            forall|x: Seq<char>| #[trigger] views(out@).contains(x) <==> ((exists|k: int|
                0 <= k < functions.len() && functions@[k].component@ == x) || (exists|k: int|
                0 <= k < j && types@[k].component@ == x)),
        decreases types.len() - j,
    {
        let ghost before = views(out@);
        insert_listed(&mut out, types[j].component.as_str());
        proof {
            assert forall|x: Seq<char>| #[trigger] views(out@).contains(x) <==> ((exists|k: int|
                0 <= k < functions.len() && functions@[k].component@ == x) || (exists|k: int|
                0 <= k < j + 1 && types@[k].component@ == x)) by {
                if views(out@).contains(x) && !before.contains(x) {
                    assert(0 <= j < j + 1 && types@[j as int].component@ == x);
                }
                if before.contains(x) && (exists|k: int| 0 <= k < j && types@[k].component@ == x) {
                    let k = choose|k: int| 0 <= k < j && types@[k].component@ == x;
                    assert(0 <= k < j + 1 && types@[k].component@ == x);
                }
                if exists|k: int| 0 <= k < j + 1 && types@[k].component@ == x {
                    let k = choose|k: int| 0 <= k < j + 1 && types@[k].component@ == x;
                    if k < j {
                        assert(before.contains(x));
                    }
                }
            }
        }
        j = j + 1;
    }
    proof {
        assert forall|x: Seq<char>| #[trigger] views(out@).contains(x) <==> analysed_tags(
            functions@,
            types@,
        ).contains(x) by {}
        lemma_listing_is(analysed_tags(functions@, types@), views(out@));
    }
    out
}

/// The component of tag `cid`.
fn analysed_component_for(cid: &str, functions: &[FnMeta], types: &[WatchType]) -> (r: Component)
    ensures
        r@ == analysed_component(functions@, types@, cid@),
{
    let ghost pred = |f: FnMeta| f.component@ == cid@;
    let ghost op_of = |f: FnMeta| fn_operation(f);
    let mut operations: Vec<Operation> = Vec::new();
    let mut i: usize = 0;
    proof {
        assert(functions@.subrange(0, 0).filter(pred) =~= Seq::<FnMeta>::empty()) by {
            reveal(Seq::filter);
        }
        assert(views_of(operations@) =~= functions@.subrange(0, 0).filter(pred).map_values(op_of));
    }
    while i < functions.len()
        invariant
            i <= functions.len(),
            pred == (|f: FnMeta| f.component@ == cid@),
            op_of == (|f: FnMeta| fn_operation(f)),
            views_of(operations@) == functions@.subrange(0, i as int).filter(pred).map_values(op_of),
        decreases functions.len() - i,
    {
        let ghost prev = operations@;
        proof {
            assert(functions@.subrange(0, i + 1) =~= functions@.subrange(0, i as int).push(functions@[i as int]));
            functions@.subrange(0, i as int).lemma_filter_push(functions@[i as int], pred);
        }
        let f = &functions[i];
        if str_eq(f.component.as_str(), cid) {
            let op = Operation {
                name: f.name.clone(),
                description: None,
                inputs: dup_vec(&f.inputs),
                observations: dup_vec(&f.observations),
                outcomes: f.outcomes.duplicate(),
            };
            operations.push(op);
            proof {
                assert(op@ == fn_operation(*f));
                assert(views_of(operations@) =~= views_of(prev).push(op@));
            }
        }
        proof {
            assert(views_of(operations@) =~= functions@.subrange(0, i + 1).filter(pred).map_values(op_of));
        }
        i = i + 1;
    }
    proof {
        assert(functions@.subrange(0, functions.len() as int) =~= functions@);
    }
    let ghost tpred = |t: WatchType| t.component@ == cid@;
    let ghost named_of = |t: WatchType| t.named@;
    let mut named: Vec<NamedType> = Vec::new();
    let mut j: usize = 0;
    proof {
        assert(types@.subrange(0, 0).filter(tpred) =~= Seq::<WatchType>::empty()) by {
            reveal(Seq::filter);
        }
        assert(views_of(named@) =~= types@.subrange(0, 0).filter(tpred).map_values(named_of));
    }
    while j < types.len()
        invariant
            j <= types.len(),
            tpred == (|t: WatchType| t.component@ == cid@),
            named_of == (|t: WatchType| t.named@),
            views_of(named@) == types@.subrange(0, j as int).filter(tpred).map_values(named_of),
        decreases types.len() - j,
    {
        let ghost prev = named@;
        proof {
            assert(types@.subrange(0, j + 1) =~= types@.subrange(0, j as int).push(types@[j as int]));
            types@.subrange(0, j as int).lemma_filter_push(types@[j as int], tpred);
        }
        if str_eq(types[j].component.as_str(), cid) {
            let d = types[j].named.duplicate();
            named.push(d);
            proof {
                assert(views_of(named@) =~= views_of(prev).push(d@));
            }
        }
        proof {
            assert(views_of(named@) =~= types@.subrange(0, j + 1).filter(tpred).map_values(named_of));
        }
        j = j + 1;
    }
    proof {
        assert(types@.subrange(0, types.len() as int) =~= types@);
    }
    let c = Component {
        id: String::from_str(cid),
        description: None,
        dependencies: Vec::new(),
        operations,
        types: named,
    };
    proof {
        assert(c@.dependencies =~= Seq::<DependencyShape>::empty());
    }
    c
}

/// Build the registry document of analysed functions and types: one
/// component per tag, ascending by id, each with its functions' operations
/// and its types in the order they were found.
pub fn build_registry(identity: RegistryIdentity, functions: &[FnMeta], types: &[WatchType]) -> (r: RegistryDocument)
    ensures
        r@ == analysed_document(identity, functions@, types@),
{
    let ids = analysed_ids(functions, types);
    let mut components: Vec<Component> = Vec::new();
    let mut i: usize = 0;
    while i < ids.len()
        invariant
            i <= ids.len(),
            views(ids@) == listing(analysed_tags(functions@, types@)),
            views_of(components@) == views(ids@).subrange(0, i as int).map_values(
                |cid: Seq<char>| analysed_component(functions@, types@, cid),
            ),
        decreases ids.len() - i,
    {
        let c = analysed_component_for(ids[i].as_str(), functions, types);
        let ghost prev = components@;
        components.push(c);
        proof {
            assert(views(ids@)[i as int] == ids@[i as int]@);
            assert(views_of(components@) =~= views_of(prev).push(c@));
            assert(views(ids@).subrange(0, i + 1) =~= views(ids@).subrange(0, i as int).push(views(ids@)[i as int]));
            assert(views_of(components@) =~= views(ids@).subrange(0, i + 1).map_values(
                |cid: Seq<char>| analysed_component(functions@, types@, cid),
            ));
        }
        i = i + 1;
    }
    proof {
        assert(views(ids@).subrange(0, ids.len() as int) =~= views(ids@));
    }
    let doc = RegistryDocument {
        format: String::from_str(FORMAT),
        format_version: String::from_str(FORMAT_VERSION),
        registry_id: identity.registry_id,
        version: identity.version,
        description: None,
        imports: Vec::new(),
        components,
    };
    proof {
        assert(doc@.imports =~= Seq::<ImportShape>::empty());
    }
    doc
}

/// `deps` with each of `ds` added in turn, skipping the component's own id
/// and ids already there.
pub open spec fn added_dependencies(deps: Seq<DependencyShape>, own: Seq<char>, ds: Seq<Seq<char>>) -> Seq<
    DependencyShape,
>
    decreases ds.len(),
{
    if ds.len() == 0 {
        deps
    } else {
        let prev = added_dependencies(deps, own, ds.drop_last());
        let d = ds.last();
        if d == own || (exists|k: int| 0 <= k < prev.len() && prev[k].component_id == d) {
            prev
        } else {
            prev.push(DependencyShape { component_id: d, registry_id: None })
        }
    }
}

/// `k` is the first component with id `id`.
pub open spec fn first_component_at(cs: Seq<ComponentShape>, id: Seq<char>, k: int) -> bool {
    0 <= k < cs.len() && cs[k].id == id && forall|j: int| 0 <= j < k ==> #[trigger] cs[j].id != id
}

/// The first component with id `id`, if any.
pub open spec fn first_component(cs: Seq<ComponentShape>, id: Seq<char>) -> Option<int> {
    if exists|k: int| first_component_at(cs, id, k) {
        Some(choose|k: int| first_component_at(cs, id, k))
    } else {
        None
    }
}

/// The components with `f`'s dependencies added to the first component of
/// its tag.
pub open spec fn with_fn_dependencies(cs: Seq<ComponentShape>, f: FnMeta) -> Seq<ComponentShape> {
    match first_component(cs, f.component@) {
        Some(k) => cs.update(
            k,
            ComponentShape {
                id: cs[k].id,
                description: cs[k].description,
                dependencies: added_dependencies(cs[k].dependencies, f.component@, views(f.dependencies@)),
                operations: cs[k].operations,
                types: cs[k].types,
            },
        ),
        None => cs,
    }
}

/// The components with the dependencies of each of `fns` added in turn.
pub open spec fn with_dependencies(cs: Seq<ComponentShape>, fns: Seq<FnMeta>) -> Seq<ComponentShape>
    decreases fns.len(),
{
    if fns.len() == 0 {
        cs
    } else {
        with_fn_dependencies(with_dependencies(cs, fns.drop_last()), fns.last())
    }
}

/// The first index of a component with id `id`.
fn find_component(cs: &Vec<Component>, id: &str) -> (r: Option<usize>)
    ensures
        match r {
            Some(k) => first_component(views_of(cs@), id@) == Some(k as int) && k < cs@.len(),
            None => first_component(views_of(cs@), id@) is None,
        },
{
    let ghost v = views_of(cs@);
    let mut i: usize = 0;
    while i < cs.len()
        invariant
            i <= cs.len(),
            v == views_of(cs@),
            forall|j: int| 0 <= j < i ==> #[trigger] v[j].id != id@,
        decreases cs.len() - i,
    {
        if str_eq(cs[i].id.as_str(), id) {
            proof {
                assert(first_component_at(v, id@, i as int));
                let w = choose|w: int| first_component_at(v, id@, w);
                assert(w == i) by {
                    if w < i {
                        assert(v[w].id != id@);
                    } else if w > i {
                        assert(v[i as int].id != id@);
                    }
                }
            }
            return Some(i);
        }
        i = i + 1;
    }
    None
}

/// Whether `deps` already names `id`.
fn has_dependency(deps: &Vec<Dependency>, id: &str) -> (r: bool)
    ensures
        r == (exists|k: int| 0 <= k < deps@.len() && views_of(deps@)[k].component_id == id@),
{
    let mut i: usize = 0;
    while i < deps.len()
        invariant
            i <= deps.len(),
            forall|k: int| 0 <= k < i ==> views_of(deps@)[k].component_id != id@,
        decreases deps.len() - i,
    {
        if str_eq(deps[i].component_id.as_str(), id) {
            proof {
                assert(views_of(deps@)[i as int].component_id == id@);
            }
            return true;
        }
        i = i + 1;
    }
    false
}

/// Record on the components the dependencies each function's body revealed:
/// each dependency of a function that is not its own component and not yet
/// listed is added to the first component of the function's tag.
pub fn add_component_dependencies(doc: &mut RegistryDocument, functions: &[FnMeta])
    ensures
        final(doc)@ == (DocumentShape {
            components: with_dependencies(old(doc)@.components, functions@),
            ..old(doc)@
        }),
{
    let mut i: usize = 0;
    proof {
        assert(functions@.subrange(0, 0) =~= Seq::<FnMeta>::empty());
    }
    while i < functions.len()
        invariant
            i <= functions.len(),
            doc@ == (DocumentShape {
                components: with_dependencies(old(doc)@.components, functions@.subrange(0, i as int)),
                ..old(doc)@
            }),
        decreases functions.len() - i,
    {
        let f = &functions[i];
        proof {
            assert(functions@.subrange(0, i + 1).drop_last() =~= functions@.subrange(0, i as int));
            assert(functions@.subrange(0, i + 1).last() == functions@[i as int]);
        }
        match find_component(&doc.components, f.component.as_str()) {
            Some(k) => {
                let mut comp = doc.components[k].duplicate();
                let ghost target = doc@.components[k as int];
                let mut j: usize = 0;
                proof {
                    assert(views(f.dependencies@).subrange(0, 0) =~= Seq::<Seq<char>>::empty());
                }
                while j < f.dependencies.len()
                    invariant
                        j <= f.dependencies.len(),
                        comp@ == (ComponentShape {
                            dependencies: added_dependencies(
                                target.dependencies,
                                f.component@,
                                views(f.dependencies@).subrange(0, j as int),
                            ),
                            ..target
                        }),
                    decreases f.dependencies.len() - j,
                {
                    proof {
                        assert(views(f.dependencies@).subrange(0, j + 1).drop_last() =~= views(
                            f.dependencies@,
                        ).subrange(0, j as int));
                        assert(views(f.dependencies@).subrange(0, j + 1).last() == f.dependencies@[j as int]@);
                    }
                    let dep = f.dependencies[j].as_str();
                    if !str_eq(dep, f.component.as_str()) && !has_dependency(&comp.dependencies, dep) {
                        let ghost before = comp@.dependencies;
                        comp.dependencies.push(Dependency { component_id: String::from_str(dep), registry_id: None });
                        proof {
                            assert(comp@.dependencies =~= before.push(
                                DependencyShape { component_id: dep@, registry_id: None },
                            ));
                        }
                    }
                    j = j + 1;
                }
                proof {
                    assert(views(f.dependencies@).subrange(0, f.dependencies.len() as int) =~= views(
                        f.dependencies@,
                    ));
                }
                let ghost before = doc@.components;
                doc.components.set(k, comp);
                proof {
                    assert(doc@.components =~= before.update(k as int, comp@));
                }
            },
            None => {},
        }
        i = i + 1;
    }
    proof {
        assert(functions@.subrange(0, functions.len() as int) =~= functions@);
    }
}

/// The `(name, rendered type)` pairs of named values.
pub open spec fn value_pairs(vs: Seq<NamedValueShape>) -> Seq<(Seq<char>, Seq<char>)> {
    vs.map_values(|v: NamedValueShape| (v.name, type_text(v.ty)))
}

/// The `(name, rendered type)` pairs of record fields.
pub open spec fn field_pairs(fs: Seq<FieldShape>) -> Seq<(Seq<char>, Seq<char>)> {
    fs.map_values(|f: FieldShape| (f.name, type_text(f.ty)))
}

/// The fields a variant's metadata records: those of a record payload.
pub open spec fn variant_pairs(v: VariantShape) -> Seq<(Seq<char>, Seq<char>)> {
    match v.payload {
        Some(TypeShape::Record { fields }) => field_pairs(fields),
        _ => Seq::empty(),
    }
}

/// The discovery metadata of an analysed function: its names, module and
/// component, its inputs by name and rendered type, its displayed return
/// type; never a setup, never `async`, filling nothing.
pub open spec fn op_meta_matches(m: OpMeta, f: FnMeta) -> bool {
    &&& m.name@ == f.name@
    &&& m.module@ == f.module@
    &&& m.fn_name@ == f.fn_name@
    &&& !m.is_setup
    &&& !m.is_async
    &&& pair_views(m.params@) == value_pairs(views_of(f.inputs@))
    &&& m.return_type@ == f.return_display@
    &&& m.fills@.len() == 0
    &&& m.component@ == f.component@
}

/// The discovery metadata of an analysed type: a record as a `"struct"` with
/// its fields, a union as an `"enum"` with its variants; no module.
pub open spec fn type_meta_matches(m: TypeMeta, t: WatchType) -> bool {
    &&& m.name@ == t.named@.name()
    &&& m.module@.len() == 0
    &&& m.component@ == t.component@
    &&& match t.named@ {
        NamedTypeShape::Record { fields, .. } => m.kind@ == "struct"@ && pair_views(m.fields@)
            == field_pairs(fields) && m.variants@.len() == 0,
        NamedTypeShape::TaggedUnion { variants, .. } => m.kind@ == "enum"@ && m.fields@.len() == 0
            && m.variants@.len() == variants.len() && forall|j: int|
            0 <= j < variants.len() ==> (#[trigger] m.variants@[j]).name@ == variants[j].name
                && pair_views(m.variants@[j].fields@) == variant_pairs(variants[j]),
    }
}

/// The `(name, rendered type)` pairs of named values.
fn named_value_pairs(vs: &Vec<NamedValue>) -> (r: Vec<FieldMeta>)
    ensures
        pair_views(r@) == value_pairs(views_of(vs@)),
{
    let mut out: Vec<FieldMeta> = Vec::new();
    let mut i: usize = 0;
    while i < vs.len()
        invariant
            i <= vs.len(),
            pair_views(out@) == value_pairs(views_of(vs@.subrange(0, i as int))),
        decreases vs.len() - i,
    {
        let entry = (vs[i].name.clone(), display_type_ref(&vs[i].ty));
        let ghost prev = out@;
        out.push(entry);
        proof {
            assert(pair_views(out@) =~= pair_views(prev).push((entry.0@, entry.1@)));
            assert(views_of(vs@.subrange(0, i + 1)) =~= views_of(vs@.subrange(0, i as int)).push(vs@[i as int]@));
            assert(value_pairs(views_of(vs@.subrange(0, i + 1))) =~= value_pairs(views_of(vs@.subrange(0, i as int))).push(
                (vs@[i as int]@.name, type_text(vs@[i as int]@.ty)),
            ));
        }
        i = i + 1;
    }
    proof {
        assert(vs@.subrange(0, vs.len() as int) =~= vs@);
    }
    out
}

/// The `(name, rendered type)` pairs of record fields.
fn record_field_pairs(fs: &Vec<Field>) -> (r: Vec<FieldMeta>)
    ensures
        pair_views(r@) == field_pairs(views_of(fs@)),
{
    let mut out: Vec<FieldMeta> = Vec::new();
    let mut i: usize = 0;
    while i < fs.len()
        invariant
            i <= fs.len(),
            pair_views(out@) == field_pairs(views_of(fs@.subrange(0, i as int))),
        decreases fs.len() - i,
    {
        let entry = (fs[i].name.clone(), display_type_ref(&fs[i].ty));
        let ghost prev = out@;
        out.push(entry);
        proof {
            assert(pair_views(out@) =~= pair_views(prev).push((entry.0@, entry.1@)));
            assert(views_of(fs@.subrange(0, i + 1)) =~= views_of(fs@.subrange(0, i as int)).push(fs@[i as int]@));
            assert(field_pairs(views_of(fs@.subrange(0, i + 1))) =~= field_pairs(views_of(fs@.subrange(0, i as int))).push(
                (fs@[i as int]@.name, type_text(fs@[i as int]@.ty)),
            ));
        }
        i = i + 1;
    }
    proof {
        assert(fs@.subrange(0, fs.len() as int) =~= fs@);
    }
    out
}

/// The discovery metadata of one analysed type.
fn watch_type_meta(t: &WatchType) -> (r: TypeMeta)
    ensures
        type_meta_matches(r, *t),
{
    match &t.named {
        NamedType::Record { name, fields, .. } => {
            proof {
                lemma_field_shapes_views(fields@);
            }
            TypeMeta {
                name: name.clone(),
                module: String::new(),
                kind: String::from_str("struct"),
                fields: record_field_pairs(fields),
                variants: Vec::new(),
                component: t.component.clone(),
            }
        },
        NamedType::TaggedUnion { name, variants, .. } => {
            proof {
                lemma_variant_shapes_views(variants@);
            }
            let mut metas: Vec<VariantMeta> = Vec::new();
            let mut i: usize = 0;
            while i < variants.len()
                invariant
                    i <= variants.len(),
                    metas@.len() == i,
                    forall|j: int|
                        0 <= j < i ==> (#[trigger] metas@[j]).name@ == variants@[j]@.name && pair_views(
                            metas@[j].fields@,
                        ) == variant_pairs(variants@[j]@),
                decreases variants.len() - i,
            {
                let v = &variants[i];
                let fields = match &v.payload {
                    Some(TypeRef::Record { fields }) => {
                        proof {
                            lemma_field_shapes_views(fields@);
                        }
                        record_field_pairs(fields)
                    },
                    _ => {
                        let e: Vec<FieldMeta> = Vec::new();
                        proof {
                            assert(pair_views(e@) =~= Seq::<(Seq<char>, Seq<char>)>::empty());
                        }
                        e
                    },
                };
                metas.push(VariantMeta { name: v.name.clone(), fields });
                i = i + 1;
            }
            let m = TypeMeta {
                name: name.clone(),
                module: String::new(),
                kind: String::from_str("enum"),
                fields: Vec::new(),
                variants: metas,
                component: t.component.clone(),
            };
            proof {
                assert forall|j: int| 0 <= j < variants@.len() implies (#[trigger] m.variants@[j]).name@
                    == t.named@->TaggedUnion_variants[j].name && pair_views(m.variants@[j].fields@)
                    == variant_pairs(t.named@->TaggedUnion_variants[j]) by {
                    assert(t.named@->TaggedUnion_variants[j] == variants@[j]@);
                }
            }
            m
        },
    }
}

/// The discovery metadata the analysed functions and types amount to: what
/// the annotation macros would have registered for them, with each type
/// rendered on one line.
pub fn runtime_metadata(functions: &[FnMeta], types: &[WatchType]) -> (r: (Vec<OpMeta>, Vec<TypeMeta>))
    ensures
        r.0@.len() == functions@.len(),
        forall|k: int| 0 <= k < functions@.len() ==> op_meta_matches(#[trigger] r.0@[k], functions@[k]),
        r.1@.len() == types@.len(),
        forall|k: int| 0 <= k < types@.len() ==> type_meta_matches(#[trigger] r.1@[k], types@[k]),
{
    let mut ops: Vec<OpMeta> = Vec::new();
    let mut i: usize = 0;
    while i < functions.len()
        invariant
            i <= functions.len(),
            ops@.len() == i,
            forall|k: int| 0 <= k < i ==> op_meta_matches(#[trigger] ops@[k], functions@[k]),
        decreases functions.len() - i,
    {
        let f = &functions[i];
        let m = OpMeta {
            name: f.name.clone(),
            module: f.module.clone(),
            fn_name: f.fn_name.clone(),
            is_setup: false,
            is_async: false,
            params: named_value_pairs(&f.inputs),
            return_type: f.return_display.clone(),
            fills: String::new(),
            component: f.component.clone(),
        };
        ops.push(m);
        i = i + 1;
    }
    let mut metas: Vec<TypeMeta> = Vec::new();
    let mut j: usize = 0;
    while j < types.len()
        invariant
            j <= types.len(),
            metas@.len() == j,
            forall|k: int| 0 <= k < j ==> type_meta_matches(#[trigger] metas@[k], types@[k]),
        decreases types.len() - j,
    {
        metas.push(watch_type_meta(&types[j]));
        j = j + 1;
    }
    (ops, metas)
}

/// No two dependencies share a component id, and none is `own`.
pub open spec fn clean_dependencies(deps: Seq<DependencyShape>, own: Seq<char>) -> bool {
    &&& forall|a: int, b: int|
        0 <= a < b < deps.len() ==> #[trigger] deps[a].component_id != #[trigger] deps[b].component_id
    &&& forall|a: int| 0 <= a < deps.len() ==> #[trigger] deps[a].component_id != own
}

/// Adding a function's dependencies never lists a component's own id and
/// never lists an id twice: clean dependency lists stay clean, and every
/// added id is one the function named.
pub proof fn law_added_dependencies_stay_clean(deps: Seq<DependencyShape>, own: Seq<char>, ds: Seq<Seq<char>>)
    requires
        clean_dependencies(deps, own),
    ensures
        clean_dependencies(added_dependencies(deps, own, ds), own),
        added_dependencies(deps, own, ds).len() >= deps.len(),
        added_dependencies(deps, own, ds).subrange(0, deps.len() as int) == deps,
        forall|k: int|
            deps.len() <= k < added_dependencies(deps, own, ds).len() ==> ds.contains(
                #[trigger] added_dependencies(deps, own, ds)[k].component_id,
            ),
    decreases ds.len(),
{
    if ds.len() > 0 {
        let prev = added_dependencies(deps, own, ds.drop_last());
        law_added_dependencies_stay_clean(deps, own, ds.drop_last());
        let d = ds.last();
        let r = added_dependencies(deps, own, ds);
        assert forall|k: int| deps.len() <= k < prev.len() implies ds.contains(
            #[trigger] prev[k].component_id,
        ) by {
            assert(ds.drop_last().contains(prev[k].component_id));
            let j = choose|j: int| 0 <= j < ds.drop_last().len() && ds.drop_last()[j] == prev[k].component_id;
            assert(ds[j] == prev[k].component_id);
        }
        if !(d == own || (exists|k: int| 0 <= k < prev.len() && prev[k].component_id == d)) {
            assert(r == prev.push(DependencyShape { component_id: d, registry_id: None }));
            assert(r.subrange(0, deps.len() as int) =~= prev.subrange(0, deps.len() as int));
            assert(ds.contains(d)) by {
                assert(ds[ds.len() - 1] == d);
            }
            assert forall|a: int, b: int| 0 <= a < b < r.len() implies #[trigger] r[a].component_id
                != #[trigger] r[b].component_id by {
                if b == r.len() - 1 {
                    assert(r[a] == prev[a]);
                } else {
                    assert(r[a] == prev[a] && r[b] == prev[b]);
                }
            }
            assert forall|a: int| 0 <= a < r.len() implies #[trigger] r[a].component_id != own by {
                if a < prev.len() {
                    assert(r[a] == prev[a]);
                }
            }
            assert forall|k: int| deps.len() <= k < r.len() implies ds.contains(
                #[trigger] r[k].component_id,
            ) by {
                if k < prev.len() {
                    assert(r[k] == prev[k]);
                }
            }
        }
    }
}

/// The analysed registry's components have strictly ascending, hence
/// pairwise distinct, ids, and there is one per tag of the functions and
/// types.
pub proof fn law_analysed_components_ascending(identity: RegistryIdentity, fns: Seq<FnMeta>, types: Seq<WatchType>)
    ensures
        forall|i: int, j: int|
            0 <= i < j < analysed_document(identity, fns, types).components.len() ==> seq_lt(
                #[trigger] analysed_document(identity, fns, types).components[i].id,
                #[trigger] analysed_document(identity, fns, types).components[j].id,
            ),
        forall|c: Seq<char>|
            analysed_tags(fns, types).contains(c) <==> exists|i: int|
                0 <= i < analysed_document(identity, fns, types).components.len()
                    && #[trigger] analysed_document(identity, fns, types).components[i].id == c,
{
    let all = fns.map_values(|f: FnMeta| f.component@) + types.map_values(|t: WatchType| t.component@);
    let tags = analysed_tags(fns, types);
    assert forall|c: Seq<char>| tags.contains(c) implies #[trigger] all.contains(c) by {
        if exists|i: int| 0 <= i < fns.len() && fns[i].component@ == c {
            let i = choose|i: int| 0 <= i < fns.len() && fns[i].component@ == c;
            assert(all[i] == c);
        } else {
            let i = choose|i: int| 0 <= i < types.len() && types[i].component@ == c;
            assert(all[fns.len() + i] == c);
        }
    }
    lemma_listing_exists(tags, all);
    let ids = listing(tags);
    let cs = analysed_document(identity, fns, types).components;
    assert forall|c: Seq<char>| tags.contains(c) <==> exists|i: int| 0 <= i < cs.len() && #[trigger] cs[i].id == c by {
        if tags.contains(c) {
            assert(ids.contains(c));
            let i = choose|i: int| 0 <= i < ids.len() && ids[i] == c;
            assert(cs[i].id == c);
        }
        if exists|i: int| 0 <= i < cs.len() && #[trigger] cs[i].id == c {
            let i = choose|i: int| 0 <= i < cs.len() && #[trigger] cs[i].id == c;
            assert(ids.contains(ids[i]));
        }
    }
}

/// Recording dependencies changes nothing but dependency lists: the
/// components keep their number, order, ids, descriptions, operations and
/// types.
pub proof fn law_dependencies_touch_only_dependencies(cs: Seq<ComponentShape>, fns: Seq<FnMeta>)
    ensures
        with_dependencies(cs, fns).len() == cs.len(),
        forall|k: int|
            0 <= k < cs.len() ==> {
                let c = #[trigger] with_dependencies(cs, fns)[k];
                &&& c.id == cs[k].id
                &&& c.description == cs[k].description
                &&& c.operations == cs[k].operations
                &&& c.types == cs[k].types
            },
    decreases fns.len(),
{
    if fns.len() > 0 {
        law_dependencies_touch_only_dependencies(cs, fns.drop_last());
    }
}

} // verus!
