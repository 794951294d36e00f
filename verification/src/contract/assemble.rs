//! Assemble a [`RegistryDocument`] from resolved operations and types.
//!
//! Operations and types are grouped by their component tag, one [`Component`]
//! per distinct tag. Components are ordered by id, and within each component
//! operations and types are ordered by name (stably), so the assembled document
//! does not depend on the input order. Each component gets an empty
//! `dependencies` list. Setups are wiring helpers, not contract operations, so
//! they are excluded from the operations and from component grouping.

use vstd::prelude::*;
use crate::contract::component::{Component, ComponentShape, DependencyShape, ImportShape};
use crate::contract::document::{DocumentShape, RegistryDocument, FORMAT, FORMAT_VERSION};
use crate::contract::named_type::{NamedType, NamedTypeShape};
use crate::contract::operation::{Operation, OperationShape};
use crate::contract::type_ref::{views_of, Duplicate};
use crate::ordering::{
    insert_listed, is_listing, key_fn, law_sort_by_key_is_sorted, law_sort_by_key_permutes,
    lemma_filter_map_multiset, lemma_listing_exists, lemma_sorted_by_key_unique, lemma_listing_is, listing, sort_by_key, sort_keyed, sorted_by_key,
    strictly_sorted, views, views_of_keyed, Keyed,
};
use crate::contract::validate::{component_violations, document_violations, dup_violations, format_violation, ViolationShape};
use crate::ordering::{concat_map, duplicate_names, repeated};
use crate::text::{lemma_seq_lt_irreflexive, seq_lt};
use crate::text::str_eq;

verus! {

broadcast use vstd::seq_lib::group_seq_properties;

/// The component id used only when there are no operations or types, so the
/// document still declares one component.
pub const DEFAULT_COMPONENT: &'static str = "default";

/// A resolved operation: a contract [`Operation`] tagged with the component it
/// belongs to and whether it is a setup (a wiring helper, not a contract
/// operation).
#[derive(Debug)]
pub struct ResolvedOperation {
    /// The component tag this operation is grouped under.
    pub component: String,
    /// Whether this operation is a setup (excluded from the assembled output).
    pub is_setup: bool,
    /// The lowered contract operation.
    pub operation: Operation,
}

/// A resolved named type: a contract [`NamedType`] tagged with the component
/// it belongs to.
#[derive(Debug)]
pub struct ResolvedType {
    /// The component tag this type is grouped under.
    pub component: String,
    /// The lowered contract named type.
    pub named_type: NamedType,
}

pub struct ResolvedOperationShape {
    pub component: Seq<char>,
    pub is_setup: bool,
    pub operation: OperationShape,
}

pub struct ResolvedTypeShape {
    pub component: Seq<char>,
    pub named_type: NamedTypeShape,
}

impl View for ResolvedOperation {
    type V = ResolvedOperationShape;

    open spec fn view(&self) -> ResolvedOperationShape {
        ResolvedOperationShape {
            component: self.component@,
            is_setup: self.is_setup,
            operation: self.operation@,
        }
    }
}

impl View for ResolvedType {
    type V = ResolvedTypeShape;

    open spec fn view(&self) -> ResolvedTypeShape {
        ResolvedTypeShape { component: self.component@, named_type: self.named_type@ }
    }
}

impl Keyed for Operation {
    open spec fn key_of(v: OperationShape) -> Seq<char> {
        v.name
    }

    fn key(&self) -> (k: &str) {
        self.name.as_str()
    }
}

impl Keyed for NamedType {
    open spec fn key_of(v: NamedTypeShape) -> Seq<char> {
        v.name()
    }

    fn key(&self) -> (k: &str) {
        self.name()
    }
}

/// The component tags of the non-setup operations and of the types.
pub open spec fn component_tags(
    ops: Seq<ResolvedOperationShape>,
    types: Seq<ResolvedTypeShape>,
) -> Set<Seq<char>> {
    Set::new(
        |c: Seq<char>|
            (exists|i: int| 0 <= i < ops.len() && !ops[i].is_setup && ops[i].component == c) || (
            exists|i: int| 0 <= i < types.len() && types[i].component == c),
    )
}

/// Whether an operation is grouped under `cid`.
pub open spec fn grouped_op(o: ResolvedOperationShape, cid: Seq<char>) -> bool {
    !o.is_setup && o.component == cid
}

/// The operations of component `cid`, stably ordered by name.
pub open spec fn component_operations(ops: Seq<ResolvedOperationShape>, cid: Seq<char>) -> Seq<
    OperationShape,
> {
    sort_by_key(
        ops.filter(|o: ResolvedOperationShape| grouped_op(o, cid)).map_values(
            |o: ResolvedOperationShape| o.operation,
        ),
        key_fn::<Operation>(),
    )
}

/// The named types of component `cid`, stably ordered by name.
pub open spec fn component_types(types: Seq<ResolvedTypeShape>, cid: Seq<char>) -> Seq<
    NamedTypeShape,
> {
    sort_by_key(
        types.filter(|t: ResolvedTypeShape| t.component == cid).map_values(
            |t: ResolvedTypeShape| t.named_type,
        ),
        key_fn::<NamedType>(),
    )
}

/// The component assembled for tag `cid`.
pub open spec fn assembled_component(
    ops: Seq<ResolvedOperationShape>,
    types: Seq<ResolvedTypeShape>,
    cid: Seq<char>,
) -> ComponentShape {
    ComponentShape {
        id: cid,
        description: None,
        dependencies: Seq::empty(),
        operations: component_operations(ops, cid),
        types: component_types(types, cid),
    }
}

/// The empty component that stands in when there is nothing to group.
pub open spec fn default_component() -> ComponentShape {
    ComponentShape {
        id: DEFAULT_COMPONENT@,
        description: None,
        dependencies: Seq::empty(),
        operations: Seq::empty(),
        types: Seq::empty(),
    }
}

/// The assembled components: one per distinct tag, by ascending id, or the
/// default component when there is none.
pub open spec fn assembled_components(
    ops: Seq<ResolvedOperationShape>,
    types: Seq<ResolvedTypeShape>,
) -> Seq<ComponentShape> {
    let ids = listing(component_tags(ops, types));
    if ids.len() == 0 {
        seq![default_component()]
    } else {
        ids.map_values(|cid: Seq<char>| assembled_component(ops, types, cid))
    }
}

/// The assembled document.
pub open spec fn assembled_document(
    ops: Seq<ResolvedOperationShape>,
    types: Seq<ResolvedTypeShape>,
    registry_id: Seq<char>,
    version: Seq<char>,
) -> DocumentShape {
    DocumentShape {
        format: FORMAT@,
        format_version: FORMAT_VERSION@,
        registry_id,
        version,
        description: None,
        imports: Seq::empty(),
        components: assembled_components(ops, types),
    }
}

/// Assemble a registry document from resolved operations and types.
///
/// `registry_id`/`version` stamp the document's identity; they come solely
/// from the caller. Setups are excluded from the operations and from
/// component grouping.
pub fn assemble(
    ops: &[ResolvedOperation],
    types: &[ResolvedType],
    registry_id: String,
    version: String,
) -> (r: RegistryDocument)
    ensures
        r@ == assembled_document(views_of(ops@), views_of(types@), registry_id@, version@),
{
    let ghost ov = views_of(ops@);
    let ghost tv = views_of(types@);
    let ids = component_ids(ops, types);
    let mut components: Vec<Component> = Vec::new();
    let mut i: usize = 0;
    while i < ids.len()
        invariant
            i <= ids.len(),
            ov == views_of(ops@),
            tv == views_of(types@),
            views(ids@) == listing(component_tags(ov, tv)),
            views_of(components@) == views(ids@).subrange(0, i as int).map_values(
                |cid: Seq<char>| assembled_component(ov, tv, cid),
            ),
        decreases ids.len() - i,
    {
        let c = assemble_component(ids[i].as_str(), ops, types);
        let ghost prev = components@;
        components.push(c);
        proof {
            assert(views(ids@)[i as int] == ids@[i as int]@);
            assert(views_of(components@) =~= views_of(prev).push(c@));
            assert(views(ids@).subrange(0, i + 1) =~= views(ids@).subrange(0, i as int).push(views(ids@)[i as int]));
            assert(views_of(components@) =~= views(ids@).subrange(0, i + 1).map_values(
                |cid: Seq<char>| assembled_component(ov, tv, cid),
            ));
        }
        i = i + 1;
    }
    if components.len() == 0 {
        let d = Component {
            id: String::from_str(DEFAULT_COMPONENT),
            description: None,
            dependencies: Vec::new(),
            operations: Vec::new(),
            types: Vec::new(),
        };
        components.push(d);
        proof {
            assert(d@.dependencies =~= Seq::<DependencyShape>::empty());
            assert(d@.operations =~= Seq::<OperationShape>::empty());
            assert(d@.types =~= Seq::<NamedTypeShape>::empty());
            assert(views_of(components@) =~= seq![default_component()]);
        }
    } else {
        proof {
            assert(views(ids@).subrange(0, ids.len() as int) =~= views(ids@));
        }
    }
    let doc = RegistryDocument {
        format: String::from_str(FORMAT),
        format_version: String::from_str(FORMAT_VERSION),
        registry_id,
        version,
        description: None,
        imports: Vec::new(),
        components,
    };
    proof {
        assert(doc@.imports =~= Seq::<ImportShape>::empty());
    }
    doc
}

/// The distinct component tags across the non-setup operations and the types,
/// in ascending order.
fn component_ids(ops: &[ResolvedOperation], types: &[ResolvedType]) -> (r: Vec<String>)
    ensures
        views(r@) == listing(component_tags(views_of(ops@), views_of(types@))),
{
    let ghost ov = views_of(ops@);
    let ghost tv = views_of(types@);
    let mut out: Vec<String> = Vec::new();
    let mut i: usize = 0;
    while i < ops.len()
        invariant
            i <= ops.len(),
            ov == views_of(ops@),
            strictly_sorted(views(out@)),
            forall|x: Seq<char>| #[trigger] views(out@).contains(x) <==> (exists|k: int|
                0 <= k < i && !ov[k].is_setup && ov[k].component == x),
        decreases ops.len() - i,
    {
        let ghost before = views(out@);
        if !ops[i].is_setup {
            insert_listed(&mut out, ops[i].component.as_str());
        }
        proof {
            assert forall|x: Seq<char>| #[trigger] views(out@).contains(x) <==> (exists|k: int|
                0 <= k < i + 1 && !ov[k].is_setup && ov[k].component == x) by {
                assert(ov[i as int] == ops@[i as int]@);
                if views(out@).contains(x) && !before.contains(x) {
                    assert(0 <= i < i + 1 && !ov[i as int].is_setup && ov[i as int].component == x);
                }
                if before.contains(x) {
                    let k = choose|k: int| 0 <= k < i && !ov[k].is_setup && ov[k].component == x;
                    assert(0 <= k < i + 1 && !ov[k].is_setup && ov[k].component == x);
                }
                if exists|k: int| 0 <= k < i + 1 && !ov[k].is_setup && ov[k].component == x {
                    let k = choose|k: int| 0 <= k < i + 1 && !ov[k].is_setup && ov[k].component == x;
                    if k < i {
                        assert(before.contains(x));
                    }
                }
            }
        }
        i = i + 1;
    }
    let mut j: usize = 0;
    while j < types.len()
        invariant
            j <= types.len(),
            ov == views_of(ops@),
            tv == views_of(types@),
            strictly_sorted(views(out@)),
            forall|x: Seq<char>| #[trigger] views(out@).contains(x) <==> ((exists|k: int|
                0 <= k < ops.len() && !ov[k].is_setup && ov[k].component == x) || (exists|k: int|
                0 <= k < j && tv[k].component == x)),
        decreases types.len() - j,
    {
        let ghost before = views(out@);
        insert_listed(&mut out, types[j].component.as_str());
        proof {
            assert forall|x: Seq<char>| #[trigger] views(out@).contains(x) <==> ((exists|k: int|
                0 <= k < ops.len() && !ov[k].is_setup && ov[k].component == x) || (exists|k: int|
                0 <= k < j + 1 && tv[k].component == x)) by {
                assert(tv[j as int] == types@[j as int]@);
                if views(out@).contains(x) && !before.contains(x) {
                    assert(0 <= j < j + 1 && tv[j as int].component == x);
                }
                if before.contains(x) && (exists|k: int| 0 <= k < j && tv[k].component == x) {
                    let k = choose|k: int| 0 <= k < j && tv[k].component == x;
                    assert(0 <= k < j + 1 && tv[k].component == x);
                }
                if exists|k: int| 0 <= k < j + 1 && tv[k].component == x {
                    let k = choose|k: int| 0 <= k < j + 1 && tv[k].component == x;
                    if k < j {
                        assert(before.contains(x));
                    }
                }
            }
        }
        j = j + 1;
    }
    proof {
        assert forall|x: Seq<char>| #[trigger] views(out@).contains(x) <==> component_tags(ov, tv).contains(x) by {}
        lemma_listing_is(component_tags(ov, tv), views(out@));
    }
    out
}

/// Build the [`Component`] for one component tag from the resolved operations
/// and types that carry it.
fn assemble_component(cid: &str, ops: &[ResolvedOperation], types: &[ResolvedType]) -> (r: Component)
    ensures
        r@ == assembled_component(views_of(ops@), views_of(types@), cid@),
{
    let ghost ov = views_of(ops@);
    let ghost tv = views_of(types@);
    let ghost pred = |o: ResolvedOperationShape| grouped_op(o, cid@);
    let mut operations: Vec<Operation> = Vec::new();
    let mut i: usize = 0;
    proof {
        assert(ov.subrange(0, 0).filter(pred) =~= Seq::<ResolvedOperationShape>::empty()) by {
            reveal(Seq::filter);
        }
        assert(views_of_keyed(operations@) =~= ov.subrange(0, 0).filter(pred).map_values(
            |o: ResolvedOperationShape| o.operation,
        ));
    }
    while i < ops.len()
        invariant
            i <= ops.len(),
            ov == views_of(ops@),
            pred == (|o: ResolvedOperationShape| grouped_op(o, cid@)),
            views_of_keyed(operations@) == ov.subrange(0, i as int).filter(pred).map_values(
                |o: ResolvedOperationShape| o.operation,
            ),
        decreases ops.len() - i,
    {
        let ghost prev = operations@;
        proof {
            assert(ov.subrange(0, i + 1) =~= ov.subrange(0, i as int).push(ov[i as int]));
            ov.subrange(0, i as int).lemma_filter_push(ov[i as int], pred);
        }
        if !ops[i].is_setup && str_eq(ops[i].component.as_str(), cid) {
            let d = ops[i].operation.duplicate();
            operations.push(d);
            proof {
                assert(views_of_keyed(operations@) =~= views_of_keyed(prev).push(d@));
            }
        }
        proof {
            assert(views_of_keyed(operations@) =~= ov.subrange(0, i + 1).filter(pred).map_values(
                |o: ResolvedOperationShape| o.operation,
            ));
        }
        i = i + 1;
    }
    proof {
        assert(ov.subrange(0, ops.len() as int) =~= ov);
    }
    let operations = sort_keyed(operations);

    let ghost tpred = |t: ResolvedTypeShape| t.component == cid@;
    let mut named_types: Vec<NamedType> = Vec::new();
    let mut j: usize = 0;
    proof {
        assert(tv.subrange(0, 0).filter(tpred) =~= Seq::<ResolvedTypeShape>::empty()) by {
            reveal(Seq::filter);
        }
        assert(views_of_keyed(named_types@) =~= tv.subrange(0, 0).filter(tpred).map_values(
            |t: ResolvedTypeShape| t.named_type,
        ));
    }
    while j < types.len()
        invariant
            j <= types.len(),
            tv == views_of(types@),
            tpred == (|t: ResolvedTypeShape| t.component == cid@),
            views_of_keyed(named_types@) == tv.subrange(0, j as int).filter(tpred).map_values(
                |t: ResolvedTypeShape| t.named_type,
            ),
        decreases types.len() - j,
    {
        let ghost prev = named_types@;
        proof {
            assert(tv.subrange(0, j + 1) =~= tv.subrange(0, j as int).push(tv[j as int]));
            tv.subrange(0, j as int).lemma_filter_push(tv[j as int], tpred);
        }
        if str_eq(types[j].component.as_str(), cid) {
            let d = types[j].named_type.duplicate();
            named_types.push(d);
            proof {
                assert(views_of_keyed(named_types@) =~= views_of_keyed(prev).push(d@));
            }
        }
        proof {
            assert(views_of_keyed(named_types@) =~= tv.subrange(0, j + 1).filter(tpred).map_values(
                |t: ResolvedTypeShape| t.named_type,
            ));
        }
        j = j + 1;
    }
    proof {
        assert(tv.subrange(0, types.len() as int) =~= tv);
    }
    let named_types = sort_keyed(named_types);

    let c = Component {
        id: String::from_str(cid),
        description: None,
        dependencies: Vec::new(),
        operations,
        types: named_types,
    };
    proof {
        assert(c@.dependencies =~= Seq::<DependencyShape>::empty());
        assert(views_of(c.operations@) =~= views_of_keyed(c.operations@));
        assert(views_of(c.types@) =~= views_of_keyed(c.types@));
    }
    c
}

/// Every component tag occurs among the tags of the operations and types.
proof fn lemma_tags_listed(ops: Seq<ResolvedOperationShape>, types: Seq<ResolvedTypeShape>)
    ensures
        is_listing(component_tags(ops, types), listing(component_tags(ops, types))),
{
    let all = ops.map_values(|o: ResolvedOperationShape| o.component) + types.map_values(
        |t: ResolvedTypeShape| t.component,
    );
    assert forall|c: Seq<char>| component_tags(ops, types).contains(c) implies #[trigger] all.contains(c) by {
        if exists|i: int| 0 <= i < ops.len() && !ops[i].is_setup && ops[i].component == c {
            let i = choose|i: int| 0 <= i < ops.len() && !ops[i].is_setup && ops[i].component == c;
            assert(all[i] == c);
        } else {
            let i = choose|i: int| 0 <= i < types.len() && types[i].component == c;
            assert(all[ops.len() + i] == c);
        }
    }
    lemma_listing_exists(component_tags(ops, types), all);
}

/// The assembled document has at least one component, and its components have
/// strictly ascending, hence pairwise distinct, ids.
pub proof fn law_components_ascending(
    ops: Seq<ResolvedOperationShape>,
    types: Seq<ResolvedTypeShape>,
    registry_id: Seq<char>,
    version: Seq<char>,
)
    ensures
        assembled_document(ops, types, registry_id, version).components.len() >= 1,
        forall|i: int, j: int|
            0 <= i < j < assembled_document(ops, types, registry_id, version).components.len()
                ==> seq_lt(
                #[trigger] assembled_document(ops, types, registry_id, version).components[i].id,
                #[trigger] assembled_document(ops, types, registry_id, version).components[j].id,
            ),
{
    lemma_tags_listed(ops, types);
}

/// One component per tag: when some non-setup operation or some type carries
/// a tag, the components are exactly those assembled for the tags; when none
/// does, the document holds the default component alone.
pub proof fn law_one_component_per_tag(
    ops: Seq<ResolvedOperationShape>,
    types: Seq<ResolvedTypeShape>,
    registry_id: Seq<char>,
    version: Seq<char>,
)
    ensures
        component_tags(ops, types) == Set::<Seq<char>>::empty() ==> assembled_document(
            ops,
            types,
            registry_id,
            version,
        ).components == seq![default_component()],
        forall|c: Seq<char>|
            component_tags(ops, types).contains(c) ==> exists|i: int|
                0 <= i < assembled_document(ops, types, registry_id, version).components.len()
                    && #[trigger] assembled_document(ops, types, registry_id, version).components[i]
                    == assembled_component(ops, types, c),
        component_tags(ops, types) != Set::<Seq<char>>::empty() ==> forall|i: int|
            0 <= i < assembled_document(ops, types, registry_id, version).components.len()
                ==> component_tags(ops, types).contains(
                #[trigger] assembled_document(ops, types, registry_id, version).components[i].id,
            ),
{
    lemma_tags_listed(ops, types);
    let tags = component_tags(ops, types);
    let ids = listing(tags);
    let cs = assembled_document(ops, types, registry_id, version).components;
    if tags == Set::<Seq<char>>::empty() {
        if ids.len() > 0 {
            assert(ids.contains(ids[0]));
        }
    } else {
        assert(exists|c: Seq<char>| tags.contains(c)) by {
            if !exists|c: Seq<char>| tags.contains(c) {
                assert(tags =~= Set::<Seq<char>>::empty());
            }
        }
        let c0 = choose|c: Seq<char>| tags.contains(c);
        assert(ids.contains(c0));
        assert forall|c: Seq<char>| tags.contains(c) implies exists|i: int|
            0 <= i < cs.len() && #[trigger] cs[i] == assembled_component(ops, types, c) by {
            assert(ids.contains(c));
            let i = choose|i: int| 0 <= i < ids.len() && ids[i] == c;
            assert(cs[i] == assembled_component(ops, types, c));
        }
        assert forall|i: int| 0 <= i < cs.len() implies tags.contains(#[trigger] cs[i].id) by {
            assert(ids.contains(ids[i]));
        }
    }
}

/// Within the component assembled for `cid`: the operations are ordered by
/// name, are exactly the non-setup operations tagged `cid` (each as often as
/// it occurs), and include no setup; the types are ordered by name and are
/// exactly the types tagged `cid`; the component declares no dependency.
pub proof fn law_component_contents(
    ops: Seq<ResolvedOperationShape>,
    types: Seq<ResolvedTypeShape>,
    cid: Seq<char>,
)
    ensures
        assembled_component(ops, types, cid).id == cid,
        assembled_component(ops, types, cid).dependencies.len() == 0,
        sorted_by_key(assembled_component(ops, types, cid).operations, key_fn::<Operation>()),
        assembled_component(ops, types, cid).operations.to_multiset() == ops.filter(
            |o: ResolvedOperationShape| grouped_op(o, cid),
        ).map_values(|o: ResolvedOperationShape| o.operation).to_multiset(),
        forall|o: OperationShape|
            #[trigger] assembled_component(ops, types, cid).operations.contains(o) <==> exists|i: int|
                0 <= i < ops.len() && !ops[i].is_setup && ops[i].component == cid
                    && ops[i].operation == o,
        sorted_by_key(assembled_component(ops, types, cid).types, key_fn::<NamedType>()),
        assembled_component(ops, types, cid).types.to_multiset() == types.filter(
            |t: ResolvedTypeShape| t.component == cid,
        ).map_values(|t: ResolvedTypeShape| t.named_type).to_multiset(),
        forall|t: NamedTypeShape|
            #[trigger] assembled_component(ops, types, cid).types.contains(t) <==> exists|i: int|
                0 <= i < types.len() && types[i].component == cid && types[i].named_type == t,
{
    broadcast use vstd::seq_lib::group_to_multiset_ensures;

    let pred = |o: ResolvedOperationShape| grouped_op(o, cid);
    let fo = ops.filter(pred);
    let mo = fo.map_values(|o: ResolvedOperationShape| o.operation);
    law_sort_by_key_is_sorted(mo, key_fn::<Operation>());
    law_sort_by_key_permutes(mo, key_fn::<Operation>());
    let sorted_ops = assembled_component(ops, types, cid).operations;
    assert forall|o: OperationShape| #[trigger] sorted_ops.contains(o) <==> exists|i: int|
        0 <= i < ops.len() && !ops[i].is_setup && ops[i].component == cid && ops[i].operation == o by {
        assert(sorted_ops.contains(o) <==> sorted_ops.to_multiset().count(o) > 0);
        assert(mo.contains(o) <==> mo.to_multiset().count(o) > 0);
        if mo.contains(o) {
            let j = choose|j: int| 0 <= j < mo.len() && mo[j] == o;
            assert(mo.len() == fo.len());
            ops.lemma_filter_pred(pred, j);
            ops.lemma_filter_contains_rev(pred, fo[j]);
            let i = choose|i: int| 0 <= i < ops.len() && ops[i] == fo[j];
            assert(ops[i].operation == o);
        }
        if exists|i: int| 0 <= i < ops.len() && !ops[i].is_setup && ops[i].component == cid
            && ops[i].operation == o {
            let i = choose|i: int| 0 <= i < ops.len() && !ops[i].is_setup && ops[i].component == cid
                && ops[i].operation == o;
            ops.lemma_filter_contains(pred, i);
            let j = choose|j: int| 0 <= j < fo.len() && fo[j] == ops[i];
            assert(mo[j] == o);
        }
    }

    let tpred = |t: ResolvedTypeShape| t.component == cid;
    let ft = types.filter(tpred);
    let mt = ft.map_values(|t: ResolvedTypeShape| t.named_type);
    law_sort_by_key_is_sorted(mt, key_fn::<NamedType>());
    law_sort_by_key_permutes(mt, key_fn::<NamedType>());
    let sorted_types = assembled_component(ops, types, cid).types;
    assert forall|t: NamedTypeShape| #[trigger] sorted_types.contains(t) <==> exists|i: int|
        0 <= i < types.len() && types[i].component == cid && types[i].named_type == t by {
        assert(sorted_types.contains(t) <==> sorted_types.to_multiset().count(t) > 0);
        assert(mt.contains(t) <==> mt.to_multiset().count(t) > 0);
        if mt.contains(t) {
            let j = choose|j: int| 0 <= j < mt.len() && mt[j] == t;
            assert(mt.len() == ft.len());
            types.lemma_filter_pred(tpred, j);
            types.lemma_filter_contains_rev(tpred, ft[j]);
            let i = choose|i: int| 0 <= i < types.len() && types[i] == ft[j];
            assert(types[i].named_type == t);
        }
        if exists|i: int| 0 <= i < types.len() && types[i].component == cid && types[i].named_type == t {
            let i = choose|i: int| 0 <= i < types.len() && types[i].component == cid && types[i].named_type == t;
            types.lemma_filter_contains(tpred, i);
            let j = choose|j: int| 0 <= j < ft.len() && ft[j] == types[i];
            assert(mt[j] == t);
        }
    }
}

/// Within every component, operations that share a name are the same
/// operation.
pub open spec fn op_names_determine_ops(ops: Seq<ResolvedOperationShape>) -> bool {
    forall|i: int, j: int|
        0 <= i < ops.len() && 0 <= j < ops.len() && !ops[i].is_setup && !ops[j].is_setup
            && ops[i].component == ops[j].component && ops[i].operation.name
            == ops[j].operation.name ==> #[trigger] ops[i].operation == #[trigger] ops[j].operation
}

/// Within every component, types that share a name are the same type.
pub open spec fn type_names_determine_types(types: Seq<ResolvedTypeShape>) -> bool {
    forall|i: int, j: int|
        0 <= i < types.len() && 0 <= j < types.len() && types[i].component == types[j].component
            && types[i].named_type.name() == types[j].named_type.name() ==> #[trigger] types[i].named_type
            == #[trigger] types[j].named_type
}

/// Reordered inputs assemble the same component for a tag.
proof fn lemma_component_ignores_order(
    ops1: Seq<ResolvedOperationShape>,
    ops2: Seq<ResolvedOperationShape>,
    types1: Seq<ResolvedTypeShape>,
    types2: Seq<ResolvedTypeShape>,
    cid: Seq<char>,
)
    requires
        ops1.to_multiset() == ops2.to_multiset(),
        types1.to_multiset() == types2.to_multiset(),
        op_names_determine_ops(ops1),
        type_names_determine_types(types1),
    ensures
        assembled_component(ops1, types1, cid) == assembled_component(ops2, types2, cid),
{
    broadcast use vstd::seq_lib::group_to_multiset_ensures;

    let pred = |o: ResolvedOperationShape| grouped_op(o, cid);
    let op_of = |o: ResolvedOperationShape| o.operation;
    lemma_filter_map_multiset(ops1, ops2, pred, op_of);
    law_component_contents(ops1, types1, cid);
    law_component_contents(ops2, types2, cid);
    let so1 = component_operations(ops1, cid);
    let so2 = component_operations(ops2, cid);
    assert forall|x: OperationShape, y: OperationShape|
        so1.contains(x) && so1.contains(y) && key_fn::<Operation>()(x) == key_fn::<Operation>()(y)
        implies x == y by {
        assert(assembled_component(ops1, types1, cid).operations.contains(x));
        assert(assembled_component(ops1, types1, cid).operations.contains(y));
        let i = choose|i: int|
            0 <= i < ops1.len() && !ops1[i].is_setup && ops1[i].component == cid && ops1[i].operation == x;
        let j = choose|j: int|
            0 <= j < ops1.len() && !ops1[j].is_setup && ops1[j].component == cid && ops1[j].operation == y;
        assert(ops1[i].operation == ops1[j].operation);
    }
    lemma_sorted_by_key_unique(so1, so2, key_fn::<Operation>());

    let tpred = |t: ResolvedTypeShape| t.component == cid;
    let type_of = |t: ResolvedTypeShape| t.named_type;
    lemma_filter_map_multiset(types1, types2, tpred, type_of);
    let st1 = component_types(types1, cid);
    let st2 = component_types(types2, cid);
    assert forall|x: NamedTypeShape, y: NamedTypeShape|
        st1.contains(x) && st1.contains(y) && key_fn::<NamedType>()(x) == key_fn::<NamedType>()(y)
        implies x == y by {
        assert(assembled_component(ops1, types1, cid).types.contains(x));
        assert(assembled_component(ops1, types1, cid).types.contains(y));
        let i = choose|i: int|
            0 <= i < types1.len() && types1[i].component == cid && types1[i].named_type == x;
        let j = choose|j: int|
            0 <= j < types1.len() && types1[j].component == cid && types1[j].named_type == y;
        assert(types1[i].named_type == types1[j].named_type);
    }
    lemma_sorted_by_key_unique(st1, st2, key_fn::<NamedType>());
}

/// The assembled document does not depend on the order of its inputs: any
/// reordering of the operations and of the types assembles the same document,
/// as long as, within a component, operations (types) that share a name are
/// the same operation (type).
pub proof fn law_assembly_ignores_input_order(
    ops1: Seq<ResolvedOperationShape>,
    ops2: Seq<ResolvedOperationShape>,
    types1: Seq<ResolvedTypeShape>,
    types2: Seq<ResolvedTypeShape>,
    registry_id: Seq<char>,
    version: Seq<char>,
)
    requires
        ops1.to_multiset() == ops2.to_multiset(),
        types1.to_multiset() == types2.to_multiset(),
        op_names_determine_ops(ops1),
        type_names_determine_types(types1),
    ensures
        assembled_document(ops1, types1, registry_id, version) == assembled_document(
            ops2,
            types2,
            registry_id,
            version,
        ),
{
    broadcast use vstd::seq_lib::group_to_multiset_ensures;

    assert(component_tags(ops1, types1) =~= component_tags(ops2, types2)) by {
        assert forall|c: Seq<char>| component_tags(ops1, types1).contains(c) implies component_tags(
            ops2,
            types2,
        ).contains(c) by {
            if exists|i: int| 0 <= i < ops1.len() && !ops1[i].is_setup && ops1[i].component == c {
                let i = choose|i: int| 0 <= i < ops1.len() && !ops1[i].is_setup && ops1[i].component == c;
                assert(ops1.contains(ops1[i]));
                assert(ops1.to_multiset().count(ops1[i]) > 0);
                assert(ops2.contains(ops1[i]));
            } else {
                let i = choose|i: int| 0 <= i < types1.len() && types1[i].component == c;
                assert(types1.contains(types1[i]));
                assert(types1.to_multiset().count(types1[i]) > 0);
                assert(types2.contains(types1[i]));
            }
        }
        assert forall|c: Seq<char>| component_tags(ops2, types2).contains(c) implies component_tags(
            ops1,
            types1,
        ).contains(c) by {
            if exists|i: int| 0 <= i < ops2.len() && !ops2[i].is_setup && ops2[i].component == c {
                let i = choose|i: int| 0 <= i < ops2.len() && !ops2[i].is_setup && ops2[i].component == c;
                assert(ops2.contains(ops2[i]));
                assert(ops2.to_multiset().count(ops2[i]) > 0);
                assert(ops1.contains(ops2[i]));
            } else {
                let i = choose|i: int| 0 <= i < types2.len() && types2[i].component == c;
                assert(types2.contains(types2[i]));
                assert(types2.to_multiset().count(types2[i]) > 0);
                assert(types1.contains(types2[i]));
            }
        }
    }
    let ids = listing(component_tags(ops1, types1));
    if ids.len() > 0 {
        let cs1 = assembled_components(ops1, types1);
        let cs2 = assembled_components(ops2, types2);
        assert forall|i: int| 0 <= i < cs1.len() implies cs1[i] == cs2[i] by {
            lemma_component_ignores_order(ops1, ops2, types1, types2, ids[i]);
        }
        assert(cs1 =~= cs2);
    }
}

/// No name is repeated in a strictly ascending sequence.
proof fn lemma_ascending_has_no_duplicates(names: Seq<Seq<char>>)
    requires
        strictly_sorted(names),
    ensures
        duplicate_names(names) == Seq::<Seq<char>>::empty(),
{
    assert(repeated(names) =~= Set::<Seq<char>>::empty()) by {
        assert forall|x: Seq<char>| !repeated(names).contains(x) by {
            if repeated(names).contains(x) {
                let (i, j) = choose|i: int, j: int| 0 <= i < j < names.len() && names[i] == x && names[j] == x;
                assert(seq_lt(names[i], names[j]));
                lemma_seq_lt_irreflexive(x);
            }
        }
    }
    assert(is_listing(Set::<Seq<char>>::empty(), Seq::<Seq<char>>::empty()));
    lemma_listing_is(Set::<Seq<char>>::empty(), Seq::<Seq<char>>::empty());
}

/// An assembled document breaks no document-level rule: it carries the
/// canonical format and format version, and no import or component id is
/// repeated; all it can be reported for lies within its components.
pub proof fn law_assembled_document_is_well_formed_at_top(
    ops: Seq<ResolvedOperationShape>,
    types: Seq<ResolvedTypeShape>,
    registry_id: Seq<char>,
    version: Seq<char>,
)
    ensures
        document_violations(assembled_document(ops, types, registry_id, version)) == concat_map(
            assembled_document(ops, types, registry_id, version).components,
            |c: ComponentShape| component_violations(c),
        ),
{
    let d = assembled_document(ops, types, registry_id, version);
    law_components_ascending(ops, types, registry_id, version);
    let ids = d.components.map_values(|c: ComponentShape| c.id);
    assert(strictly_sorted(ids)) by {
        assert forall|i: int, j: int| 0 <= i < j < ids.len() implies seq_lt(#[trigger] ids[i], #[trigger] ids[j]) by {
            assert(ids[i] == d.components[i].id);
            assert(ids[j] == d.components[j].id);
        }
    }
    lemma_ascending_has_no_duplicates(ids);
    let imports = d.imports.map_values(|i: ImportShape| i.registry_id);
    assert(imports =~= Seq::<Seq<char>>::empty());
    lemma_ascending_has_no_duplicates(imports);
    assert(format_violation("format"@, d.format, FORMAT@) =~= Seq::<ViolationShape>::empty());
    assert(format_violation("formatVersion"@, d.format_version, FORMAT_VERSION@) =~= Seq::<
        ViolationShape,
    >::empty());
    assert(dup_violations(ids, "document"@, "component id"@) =~= Seq::<ViolationShape>::empty());
    assert(dup_violations(imports, "document"@, "import registryId"@) =~= Seq::<ViolationShape>::empty());
    assert(document_violations(d) =~= concat_map(d.components, |c: ComponentShape| component_violations(c)));
}

} // verus!
