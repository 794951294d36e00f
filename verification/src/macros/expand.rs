//! What the annotation macros generate, decided over the syntax models: the
//! completion event an operation emits, the inputs it captures, the metadata
//! its registration records, the metadata a watched type registers, the
//! inputs a dependency call captures and the field mutations an operation
//! body echoes.

use vstd::prelude::*;
use crate::extract::derive::{pair_views, FieldMeta, OpMeta, TypeMeta, VariantMeta};
use crate::macros::args::{rename_view, watchable_field_name, watchable_list_of, ArgError, AttrArgs};
use crate::macros::ident::{ident_char, sanitize_ident};
use crate::macros::syntax::{
    classify_return, error_name_of, is_mut_ref, is_printable_param, param_name, param_name_of,
    printable, result_error_name, return_kind_of, Param, ReturnKind, TypeSyntax,
};
use crate::ordering::{contains_string, views};
use crate::text::{decimal, decimal_string, joined, str_eq};

verus! {

broadcast use vstd::seq_lib::group_seq_properties;

/// The completion event an operation emits after its body.
#[derive(Debug, Clone, PartialEq, Eq)]
pub enum CompletionPlan {
    /// A unit return: no completion event.
    Nothing,
    /// `Result<T, E>`: the value on `Ok`; on `Err` an error named by the
    /// decomposed value, else `fallback`.
    ResultOrError {
        /// The error name used when the error value is not a tagged variant.
        fallback: String,
    },
    /// `Result<Option<T>, E>`: the value on `Ok(Some)`, an empty completion on
    /// `Ok(None)`, an error on `Err`.
    ResultEmptyOrError {
        /// The error name used when the error value is not a tagged variant.
        fallback: String,
    },
    /// `Option<T>`: the value on `Some`, an empty completion on `None`.
    ResultOrEmpty,
    /// A printable scalar: the value itself as the result.
    DirectResult,
    /// Anything else: the value, encoded through the fallback ladder, as the
    /// result.
    EncodedResult,
}

/// Build the completion event of an operation whose return type is `ret`
/// (`None` when absent).
pub fn completion_plan(ret: &Option<TypeSyntax>) -> (r: CompletionPlan)
    ensures
        match r {
            CompletionPlan::Nothing => return_kind_of(*ret) == ReturnKind::Unit,
            CompletionPlan::ResultOrError { fallback } => return_kind_of(*ret) == ReturnKind::Result
                && fallback@ == error_name_of(*ret),
            CompletionPlan::ResultEmptyOrError { fallback } => return_kind_of(*ret)
                == ReturnKind::ResultOption && fallback@ == error_name_of(*ret),
            CompletionPlan::ResultOrEmpty => return_kind_of(*ret) == ReturnKind::Option,
            CompletionPlan::DirectResult => return_kind_of(*ret) == ReturnKind::Other && (*ret matches Some(
                t,
            ) && printable(t)),
            CompletionPlan::EncodedResult => return_kind_of(*ret) == ReturnKind::Other && !(*ret matches Some(
                t,
            ) && printable(t)),
        },
{
    match classify_return(ret) {
        ReturnKind::Unit => CompletionPlan::Nothing,
        ReturnKind::Result => CompletionPlan::ResultOrError { fallback: result_error_name(ret) },
        ReturnKind::ResultOption => CompletionPlan::ResultEmptyOrError {
            fallback: result_error_name(ret),
        },
        ReturnKind::Option => CompletionPlan::ResultOrEmpty,
        ReturnKind::Other => {
            let printable_ret = match ret {
                Some(t) => is_printable_param(t),
                None => false,
            };
            if printable_ret {
                CompletionPlan::DirectResult
            } else {
                CompletionPlan::EncodedResult
            }
        },
    }
}

/// The captured inputs of an operation, as `(event key, parameter
/// identifier)` pairs: every parameter but the `&mut` ones, keyed by its event
/// name.
pub open spec fn input_captures(ps: Seq<Param>) -> Seq<(Seq<char>, Seq<char>)>
    decreases ps.len(),
{
    if ps.len() == 0 {
        Seq::empty()
    } else {
        let rest = input_captures(ps.drop_last());
        let p = ps.last();
        if p.ty matches TypeSyntax::Reference { mutable, .. } && mutable {
            rest
        } else {
            rest.push((param_name_of(p), p.ident@))
        }
    }
}

/// The inputs an operation captures when its span opens: each non-`&mut`
/// parameter, keyed by its event name, paired with its identifier.
pub fn operation_inputs(params: &Vec<Param>) -> (r: Vec<(String, String)>)
    ensures
        pair_views(r@) == input_captures(params@),
{
    let mut out: Vec<(String, String)> = Vec::new();
    let mut i: usize = 0;
    proof {
        assert(params@.subrange(0, 0) =~= Seq::<Param>::empty());
        assert(pair_views(out@) =~= Seq::<(Seq<char>, Seq<char>)>::empty());
    }
    while i < params.len()
        invariant
            i <= params.len(),
            pair_views(out@) == input_captures(params@.subrange(0, i as int)),
        decreases params.len() - i,
    {
        proof {
            assert(params@.subrange(0, i + 1).drop_last() =~= params@.subrange(0, i as int));
            assert(params@.subrange(0, i + 1).last() == params@[i as int]);
        }
        let p = &params[i];
        if !is_mut_ref(&p.ty) {
            let entry = (param_name(p), p.ident.clone());
            let ghost prev = out@;
            out.push(entry);
            proof {
                assert(pair_views(out@) =~= pair_views(prev).push((entry.0@, entry.1@)));
            }
        }
        i = i + 1;
    }
    proof {
        assert(params@.subrange(0, params.len() as int) =~= params@);
    }
    out
}

/// The registered parameters of an operation: every parameter, by its event
/// name and its type text.
pub open spec fn registered_params(ps: Seq<Param>) -> Seq<(Seq<char>, Seq<char>)> {
    ps.map_values(|p: Param| (param_name_of(p), p.ty_text@))
}

/// The metadata an operation's registration records: the function's name
/// (which is also the operation's), the module it is declared in, whether it
/// is `async`, every parameter by event name and type text, the return type
/// text (`"()"` when absent) and the component; an operation is never a
/// setup and fills nothing.
pub fn operation_meta(
    fn_name: &str,
    module: &str,
    is_async: bool,
    component: &str,
    params: &Vec<Param>,
    return_text: &Option<String>,
) -> (r: OpMeta)
    ensures
        r.name@ == fn_name@,
        r.module@ == module@,
        r.fn_name@ == fn_name@,
        !r.is_setup,
        r.is_async == is_async,
        pair_views(r.params@) == registered_params(params@),
        r.return_type@ == (match *return_text {
            Some(t) => t@,
            None => "()"@,
        }),
        r.fills@.len() == 0,
        r.component@ == component@,
{
    let mut entries: Vec<FieldMeta> = Vec::new();
    let mut i: usize = 0;
    while i < params.len()
        invariant
            i <= params.len(),
            pair_views(entries@) == registered_params(params@.subrange(0, i as int)),
        decreases params.len() - i,
    {
        let p = &params[i];
        let entry = (param_name(p), p.ty_text.clone());
        let ghost prev = entries@;
        entries.push(entry);
        proof {
            assert(pair_views(entries@) =~= pair_views(prev).push((entry.0@, entry.1@)));
            assert(registered_params(params@.subrange(0, i + 1)) =~= registered_params(
                params@.subrange(0, i as int),
            ).push((param_name_of(params@[i as int]), params@[i as int].ty_text@)));
        }
        i = i + 1;
    }
    proof {
        assert(params@.subrange(0, params.len() as int) =~= params@);
    }
    OpMeta {
        name: String::from_str(fn_name),
        module: String::from_str(module),
        fn_name: String::from_str(fn_name),
        is_setup: false,
        is_async,
        params: entries,
        return_type: match return_text {
            Some(t) => t.clone(),
            None => String::from_str("()"),
        },
        fills: String::new(),
        component: String::from_str(component),
    }
}

/// One attribute on a struct field: its path and its arguments.
#[derive(Debug, Clone, PartialEq, Eq)]
pub struct FieldAttr {
    /// The attribute's path, as written.
    pub path: String,
    /// The attribute's arguments.
    pub args: AttrArgs,
}

/// A struct field as the derive sees it.
#[derive(Debug, Clone, PartialEq, Eq)]
pub struct FieldSyntax {
    /// The field's identifier; `None` for a tuple-struct field.
    pub ident: Option<String>,
    /// The field's type as source text.
    pub ty_text: String,
    /// The field's attributes.
    pub attrs: Vec<FieldAttr>,
}

/// What a field's attributes say: whether a `#[watchable]` marks it and the
/// last rename among them, or the first rejected argument.
pub open spec fn field_marking(attrs: Seq<FieldAttr>) -> Result<(bool, Option<Seq<char>>), ArgError>
    decreases attrs.len(),
{
    if attrs.len() == 0 {
        Ok((false, None))
    } else {
        match field_marking(attrs.drop_last()) {
            Err(e) => Err(e),
            Ok((marked, rename)) => {
                let a = attrs.last();
                if a.path@ != "watchable"@ {
                    Ok((marked, rename))
                } else {
                    match (match a.args {
                        AttrArgs::List(items) => watchable_list_of(items@),
                        _ => Ok(None),
                    }) {
                        Err(e) => Err(e),
                        Ok(Some(n)) => Ok((true, Some(n))),
                        Ok(None) => Ok((true, rename)),
                    }
                }
            },
        }
    }
}

/// The registered `(name, type text)` of a field: a marked, named field under
/// its rename or its identifier; `None` for an unmarked or unnamed field.
pub open spec fn watched_field(f: FieldSyntax) -> Result<Option<(Seq<char>, Seq<char>)>, ArgError> {
    match field_marking(f.attrs@) {
        Err(e) => Err(e),
        Ok((marked, rename)) => if !marked {
            Ok(None)
        } else {
            match f.ident {
                None => Ok(None),
                Some(id) => Ok(
                    Some(
                        (
                            match rename {
                                Some(n) => n,
                                None => id@,
                            },
                            f.ty_text@,
                        ),
                    ),
                ),
            }
        },
    }
}

/// The registered fields of a struct, in declaration order, or the first
/// rejected field argument.
pub open spec fn watched_fields_of(fs: Seq<FieldSyntax>) -> Result<Seq<(Seq<char>, Seq<char>)>, ArgError>
    decreases fs.len(),
{
    if fs.len() == 0 {
        Ok(Seq::empty())
    } else {
        match watched_fields_of(fs.drop_last()) {
            Err(e) => Err(e),
            Ok(prev) => match watched_field(fs.last()) {
                Err(e) => Err(e),
                Ok(None) => Ok(prev),
                Ok(Some(p)) => Ok(prev.push(p)),
            },
        }
    }
}

/// The view of a field list or its error.
pub open spec fn fields_view(r: Result<Vec<FieldMeta>, ArgError>) -> Result<Seq<(Seq<char>, Seq<char>)>, ArgError> {
    match r {
        Ok(v) => Ok(pair_views(v@)),
        Err(e) => Err(e),
    }
}

proof fn lemma_field_marking_error_persists(attrs: Seq<FieldAttr>, k: int)
    requires
        0 <= k <= attrs.len(),
        field_marking(attrs.subrange(0, k)) is Err,
    ensures
        field_marking(attrs) == field_marking(attrs.subrange(0, k)),
    decreases attrs.len(),
{
    if k == attrs.len() {
        assert(attrs.subrange(0, k) =~= attrs);
    } else {
        let d = attrs.drop_last();
        assert(d.subrange(0, k) =~= attrs.subrange(0, k));
        lemma_field_marking_error_persists(d, k);
    }
}

proof fn lemma_watched_fields_error_persists(fs: Seq<FieldSyntax>, k: int)
    requires
        0 <= k <= fs.len(),
        watched_fields_of(fs.subrange(0, k)) is Err,
    ensures
        watched_fields_of(fs) == watched_fields_of(fs.subrange(0, k)),
    decreases fs.len(),
{
    if k == fs.len() {
        assert(fs.subrange(0, k) =~= fs);
    } else {
        let d = fs.drop_last();
        assert(d.subrange(0, k) =~= fs.subrange(0, k));
        lemma_watched_fields_error_persists(d, k);
    }
}

/// Whether `f` is marked `#[watchable]`, and its rename, if any.
fn field_marks(f: &FieldSyntax) -> (r: Result<(bool, Option<String>), ArgError>)
    ensures
        match r {
            Ok((marked, rename)) => field_marking(f.attrs@) == Ok::<(bool, Option<Seq<char>>), ArgError>(
                (marked, crate::macros::args::opt_seq(rename)),
            ),
            Err(e) => field_marking(f.attrs@) == Err::<(bool, Option<Seq<char>>), ArgError>(e),
        },
{
    let mut marked = false;
    let mut rename: Option<String> = None;
    let mut i: usize = 0;
    proof {
        assert(f.attrs@.subrange(0, 0) =~= Seq::<FieldAttr>::empty());
    }
    while i < f.attrs.len()
        invariant
            i <= f.attrs.len(),
            field_marking(f.attrs@.subrange(0, i as int)) == Ok::<(bool, Option<Seq<char>>), ArgError>(
                (marked, crate::macros::args::opt_seq(rename)),
            ),
        decreases f.attrs.len() - i,
    {
        proof {
            assert(f.attrs@.subrange(0, i + 1).drop_last() =~= f.attrs@.subrange(0, i as int));
            assert(f.attrs@.subrange(0, i + 1).last() == f.attrs@[i as int]);
        }
        let a = &f.attrs[i];
        if str_eq(a.path.as_str(), "watchable") {
            marked = true;
            match watchable_field_name(&a.args) {
                Ok(Some(n)) => {
                    rename = Some(n);
                },
                Ok(None) => {},
                Err(e) => {
                    proof {
                        lemma_field_marking_error_persists(f.attrs@, i + 1);
                    }
                    return Err(e);
                },
            }
        }
        i = i + 1;
    }
    proof {
        assert(f.attrs@.subrange(0, f.attrs.len() as int) =~= f.attrs@);
    }
    Ok((marked, rename))
}

/// The `(name, type text)` of each `#[watchable]` field of a struct, in
/// declaration order: a `#[watchable(name = "...")]` rename replaces the
/// identifier; unmarked and unnamed fields are skipped; a malformed or unknown
/// `#[watchable]` argument rejects the derive.
pub fn watched_fields(fields: &Vec<FieldSyntax>) -> (r: Result<Vec<FieldMeta>, ArgError>)
    ensures
        fields_view(r) == watched_fields_of(fields@),
{
    let mut out: Vec<FieldMeta> = Vec::new();
    let mut i: usize = 0;
    proof {
        assert(fields@.subrange(0, 0) =~= Seq::<FieldSyntax>::empty());
        assert(pair_views(out@) =~= Seq::<(Seq<char>, Seq<char>)>::empty());
    }
    while i < fields.len()
        invariant
            i <= fields.len(),
            watched_fields_of(fields@.subrange(0, i as int)) == Ok::<
                Seq<(Seq<char>, Seq<char>)>,
                ArgError,
            >(pair_views(out@)),
        decreases fields.len() - i,
    {
        proof {
            assert(fields@.subrange(0, i + 1).drop_last() =~= fields@.subrange(0, i as int));
            assert(fields@.subrange(0, i + 1).last() == fields@[i as int]);
        }
        let f = &fields[i];
        match field_marks(f) {
            Err(e) => {
                proof {
                    lemma_watched_fields_error_persists(fields@, i + 1);
                }
                return Err(e);
            },
            Ok((marked, rename)) => {
                if marked {
                    match &f.ident {
                        Some(id) => {
                            let name = match rename {
                                Some(n) => n,
                                None => id.clone(),
                            };
                            let entry = (name, f.ty_text.clone());
                            let ghost prev = out@;
                            out.push(entry);
                            proof {
                                assert(pair_views(out@) =~= pair_views(prev).push((entry.0@, entry.1@)));
                            }
                        },
                        None => {},
                    }
                }
            },
        }
        i = i + 1;
    }
    proof {
        assert(fields@.subrange(0, fields.len() as int) =~= fields@);
    }
    Ok(out)
}

/// The metadata a `#[derive(Watchable)]` struct registers: its name, module
/// and component, kind `"struct"`, and its watched fields; a malformed or
/// unknown `#[watchable]` argument rejects the derive.
pub fn struct_type_meta(name: &str, module: &str, component: &str, fields: &Vec<FieldSyntax>) -> (r: Result<TypeMeta, ArgError>)
    ensures
        match r {
            Ok(t) => t.name@ == name@ && t.module@ == module@ && t.kind@ == "struct"@ && t.component@
                == component@ && t.variants@.len() == 0 && watched_fields_of(fields@) == Ok::<
                Seq<(Seq<char>, Seq<char>)>,
                ArgError,
            >(pair_views(t.fields@)),
            Err(e) => watched_fields_of(fields@) == Err::<Seq<(Seq<char>, Seq<char>)>, ArgError>(e),
        },
{
    match watched_fields(fields) {
        Ok(watched) => Ok(
            TypeMeta {
                name: String::from_str(name),
                module: String::from_str(module),
                kind: String::from_str("struct"),
                fields: watched,
                variants: Vec::new(),
                component: String::from_str(component),
            },
        ),
        Err(e) => Err(e),
    }
}

/// The fields of an enum variant as the derive sees them.
#[derive(Debug, Clone, PartialEq, Eq)]
pub enum VariantFields {
    /// A unit variant.
    Unit,
    /// A variant with named fields, as `(identifier, type text)` pairs.
    Named(Vec<FieldMeta>),
    /// A tuple variant.
    Unnamed,
}

/// An enum variant as the derive sees it.
#[derive(Debug, Clone, PartialEq, Eq)]
pub struct VariantSyntax {
    /// The variant's identifier.
    pub ident: String,
    /// The variant's fields.
    pub fields: VariantFields,
}

/// The registered fields of a variant: its named fields, none for a unit or
/// tuple variant.
pub open spec fn variant_fields_of(v: VariantSyntax) -> Seq<(Seq<char>, Seq<char>)> {
    match v.fields {
        VariantFields::Named(fs) => pair_views(fs@),
        _ => Seq::empty(),
    }
}

/// A copy of `v`'s pairs.
fn copy_pairs(v: &Vec<FieldMeta>) -> (r: Vec<FieldMeta>)
    ensures
        pair_views(r@) == pair_views(v@),
{
    let mut out: Vec<FieldMeta> = Vec::new();
    let mut i: usize = 0;
    while i < v.len()
        invariant
            i <= v.len(),
            pair_views(out@) == pair_views(v@.subrange(0, i as int)),
        decreases v.len() - i,
    {
        let entry = (v[i].0.clone(), v[i].1.clone());
        let ghost prev = out@;
        out.push(entry);
        proof {
            assert(pair_views(out@) =~= pair_views(prev).push((entry.0@, entry.1@)));
            assert(pair_views(v@.subrange(0, i + 1)) =~= pair_views(v@.subrange(0, i as int)).push(
                (v@[i as int].0@, v@[i as int].1@),
            ));
        }
        i = i + 1;
    }
    proof {
        assert(v@.subrange(0, v.len() as int) =~= v@);
    }
    out
}

/// The registered metadata of one enum variant: its name and, for a variant
/// with named fields, each field's identifier and type text.
pub fn variant_meta(v: &VariantSyntax) -> (r: VariantMeta)
    ensures
        r.name@ == v.ident@,
        pair_views(r.fields@) == variant_fields_of(*v),
{
    let fields = match &v.fields {
        VariantFields::Named(fs) => copy_pairs(fs),
        _ => {
            let e: Vec<FieldMeta> = Vec::new();
            proof {
                assert(pair_views(e@) =~= Seq::<(Seq<char>, Seq<char>)>::empty());
            }
            e
        },
    };
    VariantMeta { name: v.ident.clone(), fields }
}

/// The metadata a `#[derive(Watchable)]` enum registers: its name, module and
/// component, kind `"enum"`, no fields, and one entry per variant in
/// declaration order.
pub fn enum_type_meta(name: &str, module: &str, component: &str, variants: &Vec<VariantSyntax>) -> (r: TypeMeta)
    ensures
        r.name@ == name@,
        r.module@ == module@,
        r.kind@ == "enum"@,
        r.component@ == component@,
        r.fields@.len() == 0,
        r.variants@.len() == variants@.len(),
        forall|k: int|
            0 <= k < variants@.len() ==> (#[trigger] r.variants@[k]).name@ == variants@[k].ident@
                && pair_views(r.variants@[k].fields@) == variant_fields_of(variants@[k]),
{
    let mut metas: Vec<VariantMeta> = Vec::new();
    let mut i: usize = 0;
    while i < variants.len()
        invariant
            i <= variants.len(),
            metas@.len() == i,
            forall|k: int|
                0 <= k < i ==> (#[trigger] metas@[k]).name@ == variants@[k].ident@ && pair_views(
                    metas@[k].fields@,
                ) == variant_fields_of(variants@[k]),
        decreases variants.len() - i,
    {
        let m = variant_meta(&variants[i]);
        metas.push(m);
        i = i + 1;
    }
    TypeMeta {
        name: String::from_str(name),
        module: String::from_str(module),
        kind: String::from_str("enum"),
        fields: Vec::new(),
        variants: metas,
        component: String::from_str(component),
    }
}

/// The names of the registration items a watched type generates: a constant
/// and a static, each suffixed with the type's sanitized name.
pub fn type_registration_idents(name: &str) -> (r: (String, String))
    ensures
        r.0@ == "_DRIFTWATCH_TYPE_REG_"@ + name@.map_values(|c: char| ident_char(c)),
        r.1@ == "_DRIFTWATCH_TYPE_S_"@ + name@.map_values(|c: char| ident_char(c)),
{
    let suffix = sanitize_ident(name);
    (joined("_DRIFTWATCH_TYPE_REG_", suffix.as_str()), joined("_DRIFTWATCH_TYPE_S_", suffix.as_str()))
}

/// An expression, reduced to what the macros inspect.
#[derive(Debug, PartialEq, Eq)]
pub enum ExprSyntax {
    /// A path; `ident` is its identifier when the path is a single plain
    /// identifier.
    Path {
        /// The single identifier, if the path is one.
        ident: Option<String>,
    },
    /// `&expr` or `&mut expr`.
    Reference {
        /// The referenced expression.
        expr: Box<ExprSyntax>,
    },
    /// `base.member`; `member` is the field name, `None` for a tuple index.
    Field {
        /// The expression whose field is accessed.
        base: Box<ExprSyntax>,
        /// The named member.
        member: Option<String>,
    },
    /// A call `f(args)`.
    Call {
        /// The arguments.
        args: Vec<ExprSyntax>,
    },
    /// A method call `recv.m(args)`.
    MethodCall {
        /// The arguments (the receiver excluded).
        args: Vec<ExprSyntax>,
    },
    /// `base.await`.
    Await {
        /// The awaited expression.
        base: Box<ExprSyntax>,
    },
    /// `left = right`.
    Assign {
        /// The assigned place.
        left: Box<ExprSyntax>,
    },
    /// A compound assignment such as `left += right`.
    CompoundAssign {
        /// The assigned place.
        left: Box<ExprSyntax>,
    },
    /// Any other expression.
    Other,
}

/// The input name of the `i`-th argument of a dependency call: its
/// identifier when it is a bare path (a leading `&`/`&mut` peeled), else the
/// positional `arg{i}`.
pub open spec fn arg_name_of(i: nat, a: ExprSyntax) -> Seq<char>
    decreases a,
{
    match a {
        ExprSyntax::Reference { expr } => arg_name_of(i, *expr),
        ExprSyntax::Path { ident } => match ident {
            Some(id) => id@,
            None => "arg"@ + decimal(i),
        },
        _ => "arg"@ + decimal(i),
    }
}

/// The input name of the `i`-th argument of a dependency call.
pub fn arg_name(i: usize, a: &ExprSyntax) -> (r: String)
    ensures
        r@ == arg_name_of(i as nat, *a),
    decreases a,
{
    match a {
        ExprSyntax::Reference { expr } => arg_name(i, expr),
        ExprSyntax::Path { ident: Some(id) } => id.clone(),
        _ => {
            let digits = decimal_string(i as u64);
            joined("arg", digits.as_str())
        },
    }
}

/// The expression a dependency call observes: a trailing `.await` peeled.
pub open spec fn peeled(e: ExprSyntax) -> ExprSyntax {
    match e {
        ExprSyntax::Await { base } => *base,
        _ => e,
    }
}

/// The inputs a dependency call captures: the name of each argument of a
/// call or method call (the receiver is never captured); none for any other
/// expression.
pub open spec fn dep_inputs_of(e: ExprSyntax) -> Seq<Seq<char>> {
    match peeled(e) {
        ExprSyntax::Call { args } => Seq::new(args@.len(), |k: int| arg_name_of(k as nat, args@[k])),
        ExprSyntax::MethodCall { args } => Seq::new(args@.len(), |k: int| arg_name_of(k as nat, args@[k])),
        _ => Seq::empty(),
    }
}

/// The names of a call's arguments.
fn arg_names(args: &Vec<ExprSyntax>) -> (r: Vec<String>)
    ensures
        views(r@) == Seq::new(args@.len(), |k: int| arg_name_of(k as nat, args@[k])),
{
    let mut out: Vec<String> = Vec::new();
    let mut i: usize = 0;
    while i < args.len()
        invariant
            i <= args.len(),
            out@.len() == i,
            views(out@) == Seq::new(i as nat, |k: int| arg_name_of(k as nat, args@[k])),
        decreases args.len() - i,
    {
        let n = arg_name(i, &args[i]);
        let ghost prev = out@;
        out.push(n);
        proof {
            assert forall|k: int| 0 <= k < i + 1 implies #[trigger] views(out@)[k] == arg_name_of(
                k as nat,
                args@[k],
            ) by {
                if k < i {
                    assert(out@[k] == prev[k]);
                    assert(views(prev)[k] == arg_name_of(k as nat, args@[k]));
                } else {
                    assert(out@[k] == n);
                }
            }
            assert(views(out@) =~= Seq::new((i + 1) as nat, |k: int| arg_name_of(k as nat, args@[k])));
        }
        i = i + 1;
    }
    out
}

/// What a dependency call captures: whether it ends in `.await` (re-applied
/// inside the observed path) and the names of the inputs it captures.
pub fn dep_inputs(expr: &ExprSyntax) -> (r: (bool, Vec<String>))
    ensures
        r.0 == (*expr is Await),
        views(r.1@) == dep_inputs_of(*expr),
{
    let (target, awaits) = match expr {
        ExprSyntax::Await { base } => (&**base, true),
        _ => (expr, false),
    };
    let names = match target {
        ExprSyntax::Call { args } => arg_names(args),
        ExprSyntax::MethodCall { args } => arg_names(args),
        _ => {
            let e: Vec<String> = Vec::new();
            proof {
                assert(views(e@) =~= Seq::<Seq<char>>::empty());
            }
            e
        },
    };
    (awaits, names)
}

/// A statement of an operation body, reduced to what the echo inspects.
#[derive(Debug, PartialEq, Eq)]
pub enum StmtSyntax {
    /// An expression statement; `semi` when it ends in `;`.
    Expr {
        /// The expression.
        expr: ExprSyntax,
        /// Whether a semicolon follows.
        semi: bool,
    },
    /// A `let` binding.
    Local,
    /// An item or macro statement.
    Other,
}

/// The state an operation body is instrumented with: the value-parameter
/// names whose field mutations are echoed, and the enclosing operation's
/// component, which a nested dependency inherits.
#[derive(Debug, Clone, PartialEq, Eq)]
pub struct BodyInstrumenter {
    /// The value-parameter names whose field mutations are echoed.
    pub param_names: Vec<String>,
    /// The enclosing operation's declared component.
    pub component: String,
}

/// The observation a mutation of the place `lhs` is echoed under: `field` for
/// `self.field`, `param.field` for a field of a tracked parameter, none
/// otherwise.
pub open spec fn field_event_of(lhs: ExprSyntax, params: Seq<Seq<char>>) -> Option<Seq<char>> {
    match lhs {
        ExprSyntax::Field { base, member } => match member {
            Some(f) => match *base {
                ExprSyntax::Path { ident } => match ident {
                    Some(id) => if id@ == "self"@ {
                        Some(f@)
                    } else if params.contains(id@) {
                        Some(id@ + "."@ + f@)
                    } else {
                        None
                    },
                    None => None,
                },
                _ => None,
            },
            None => None,
        },
        _ => None,
    }
}

/// The observation a statement is echoed under: an assignment or compound
/// assignment statement to a tracked field.
pub open spec fn mutation_event_of(stmt: StmtSyntax, params: Seq<Seq<char>>) -> Option<Seq<char>> {
    match stmt {
        StmtSyntax::Expr { expr, semi } => if !semi {
            None
        } else {
            match expr {
                ExprSyntax::Assign { left } => field_event_of(*left, params),
                ExprSyntax::CompoundAssign { left } => field_event_of(*left, params),
                _ => None,
            }
        },
        _ => None,
    }
}

/// The view of an optional string.
pub open spec fn opt_view(o: Option<String>) -> Option<Seq<char>> {
    match o {
        Some(s) => Some(s@),
        None => None,
    }
}

/// The observation a mutation of the place `lhs` is echoed under.
fn field_event(lhs: &ExprSyntax, param_names: &Vec<String>) -> (r: Option<String>)
    ensures
        opt_view(r) == field_event_of(*lhs, views(param_names@)),
{
    match lhs {
        ExprSyntax::Field { base, member: Some(f) } => match &**base {
            ExprSyntax::Path { ident: Some(id) } => {
                if str_eq(id.as_str(), "self") {
                    Some(f.clone())
                } else if contains_string(param_names, id.as_str()) {
                    let a = joined(id.as_str(), ".");
                    Some(a.concat(f.as_str()))
                } else {
                    None
                }
            },
            _ => None,
        },
        _ => None,
    }
}

impl BodyInstrumenter {
    /// The observation a statement of the body is echoed under, if any: an
    /// assignment or compound assignment (ending in `;`) to a field of `self`
    /// or of a tracked value parameter.
    pub fn mutation_event(&self, stmt: &StmtSyntax) -> (r: Option<String>)
        ensures
            opt_view(r) == mutation_event_of(*stmt, views(self.param_names@)),
    {
        match stmt {
            StmtSyntax::Expr { expr, semi } => {
                if !*semi {
                    return None;
                }
                match expr {
                    ExprSyntax::Assign { left } => field_event(left, &self.param_names),
                    ExprSyntax::CompoundAssign { left } => field_event(left, &self.param_names),
                    _ => None,
                }
            },
            _ => None,
        }
    }
}

} // verus!
