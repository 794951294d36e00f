//! The parts of a function signature the annotation macros inspect: types,
//! parameters and return types, reduced to plain values, and the predicates
//! the expansion decides by.

use vstd::prelude::*;
use crate::text::str_eq;

verus! {

broadcast use vstd::seq_lib::group_seq_properties;

/// A type as written in a signature, reduced to what the macros inspect.
#[derive(Debug, PartialEq, Eq)]
pub enum TypeSyntax {
    /// A path type such as `std::num::ParseIntError` or `Result<T, E>`.
    Path {
        /// The path segments, outermost first.
        segments: Vec<PathSegment>,
    },
    /// A tuple type; `()` has no elements.
    Tuple {
        /// The element types.
        elems: Vec<TypeSyntax>,
    },
    /// A reference `&T` or `&mut T`.
    Reference {
        /// Whether the reference is `&mut`.
        mutable: bool,
        /// The referent type.
        elem: Box<TypeSyntax>,
    },
    /// Any other type form (slices, arrays, trait objects, ...).
    Other,
}

/// One segment of a path type.
#[derive(Debug, PartialEq, Eq)]
pub struct PathSegment {
    /// The segment's identifier.
    pub ident: String,
    /// The angle-bracketed argument list (`<...>`); `None` when the segment
    /// has none.
    pub args: Option<Vec<GenericArg>>,
}

/// One argument of an angle-bracketed list.
#[derive(Debug, PartialEq, Eq)]
pub enum GenericArg {
    /// A type argument.
    Type(TypeSyntax),
    /// A lifetime, const or binding argument.
    Other,
}

/// A typed parameter: its identifier, its type, the type as source text, and
/// its `#[watch_input("name")]` override, if any.
#[derive(Debug, PartialEq, Eq)]
pub struct Param {
    /// The parameter's identifier in code.
    pub ident: String,
    /// The declared type.
    pub ty: TypeSyntax,
    /// The declared type as source text.
    pub ty_text: String,
    /// The `#[watch_input]` event-name override.
    pub rename: Option<String>,
}

/// How an operation's return type is mapped to a completion event.
#[derive(Debug, Clone, Copy, PartialEq, Eq, Structural)]
pub enum ReturnKind {
    /// `()` / absent: no completion event.
    Unit,
    /// `Result<T, E>`: result (Ok) / error (Err).
    Result,
    /// `Result<Option<T>, E>`: result (Ok(Some)) / empty (Ok(None)) / error
    /// (Err).
    ResultOption,
    /// `Option<T>`: result (Some) / empty (None).
    Option,
    /// Anything else: result.
    Other,
}

/// The identifier of the last segment of a path type.
pub open spec fn last_ident(ty: TypeSyntax) -> Option<Seq<char>> {
    match ty {
        TypeSyntax::Path { segments } => if segments@.len() > 0 {
            Some(segments@.last().ident@)
        } else {
            None
        },
        _ => None,
    }
}

/// The type arguments among `args`, in order.
pub open spec fn type_args(args: Seq<GenericArg>) -> Seq<TypeSyntax>
    decreases args.len(),
{
    if args.len() == 0 {
        Seq::empty()
    } else {
        let rest = type_args(args.drop_last());
        match args.last() {
            GenericArg::Type(t) => rest.push(t),
            GenericArg::Other => rest,
        }
    }
}

/// The type arguments of an outer `Result<..>`, when it has an
/// angle-bracketed list.
pub open spec fn result_type_args(ty: TypeSyntax) -> Option<Seq<TypeSyntax>> {
    match ty {
        TypeSyntax::Path { segments } => if segments@.len() > 0 && segments@.last().ident@
            == "Result"@ {
            match segments@.last().args {
                Some(a) => Some(type_args(a@)),
                None => None,
            }
        } else {
            None
        },
        _ => None,
    }
}

/// The `E` of a `Result<T, E>`: its second type argument.
pub open spec fn result_err_of(ty: TypeSyntax) -> Option<TypeSyntax> {
    match result_type_args(ty) {
        Some(ts) => if ts.len() > 1 {
            Some(ts[1])
        } else {
            None
        },
        None => None,
    }
}

/// The `T` of a `Result<T, E>`: its first type argument.
pub open spec fn result_ok_of(ty: TypeSyntax) -> Option<TypeSyntax> {
    match result_type_args(ty) {
        Some(ts) => if ts.len() > 0 {
            Some(ts[0])
        } else {
            None
        },
        None => None,
    }
}

/// An outer `Option<..>`.
pub open spec fn is_option_type(ty: TypeSyntax) -> bool {
    last_ident(ty) == Some("Option"@)
}

/// The completion mapping of a return type (`None` is an absent return type).
pub open spec fn return_kind_of(ret: Option<TypeSyntax>) -> ReturnKind {
    match ret {
        None => ReturnKind::Unit,
        Some(t) => match t {
            TypeSyntax::Tuple { elems } => if elems@.len() == 0 {
                ReturnKind::Unit
            } else {
                ReturnKind::Other
            },
            TypeSyntax::Path { segments } => if segments@.len() == 0 {
                ReturnKind::Other
            } else if segments@.last().ident@ == "Result"@ {
                match result_ok_of(t) {
                    Some(ok) => if is_option_type(ok) {
                        ReturnKind::ResultOption
                    } else {
                        ReturnKind::Result
                    },
                    None => ReturnKind::Result,
                }
            } else if segments@.last().ident@ == "Option"@ {
                ReturnKind::Option
            } else {
                ReturnKind::Other
            },
            _ => ReturnKind::Other,
        },
    }
}

/// The error name of a `Result<T, E>` return: the last path segment of `E`,
/// or `"error"` when `E` is not an inspectable path.
pub open spec fn error_name_of(ret: Option<TypeSyntax>) -> Seq<char> {
    match ret {
        Some(t) => match result_err_of(t) {
            Some(e) => match last_ident(e) {
                Some(n) => n,
                None => "error"@,
            },
            None => "error"@,
        },
        None => "error"@,
    }
}

/// The scalar identifiers whose values print directly.
pub open spec fn primitive_ident(n: Seq<char>) -> bool {
    n == "i8"@ || n == "i16"@ || n == "i32"@ || n == "i64"@ || n == "i128"@ || n == "isize"@ || n
        == "u8"@ || n == "u16"@ || n == "u32"@ || n == "u64"@ || n == "u128"@ || n == "usize"@ || n
        == "f32"@ || n == "f64"@ || n == "bool"@ || n == "char"@ || n == "String"@ || n == "str"@
}

/// An owned primitive: a path whose last segment is a scalar identifier.
pub open spec fn owned_primitive(ty: TypeSyntax) -> bool {
    match last_ident(ty) {
        Some(n) => primitive_ident(n),
        None => false,
    }
}

/// An owned primitive or a reference to one.
pub open spec fn printable(ty: TypeSyntax) -> bool {
    owned_primitive(ty) || match ty {
        TypeSyntax::Reference { elem, .. } => owned_primitive(*elem),
        _ => false,
    }
}

proof fn lemma_type_args_append(a: Seq<GenericArg>, b: Seq<GenericArg>)
    ensures
        type_args(a + b) == type_args(a) + type_args(b),
    decreases b.len(),
{
    if b.len() == 0 {
        assert(a + b =~= a);
        assert(type_args(b) =~= Seq::<TypeSyntax>::empty());
        assert(type_args(a) + type_args(b) =~= type_args(a));
    } else {
        let b0 = b.drop_last();
        lemma_type_args_append(a, b0);
        assert((a + b).drop_last() =~= a + b0);
        assert((a + b).last() == b.last());
        match b.last() {
            GenericArg::Type(t) => {
                assert(type_args(a) + type_args(b0).push(t) =~= (type_args(a) + type_args(b0)).push(t));
            },
            GenericArg::Other => {},
        }
    }
}

/// The `n`-th type argument among `args`.
fn nth_type_arg(args: &Vec<GenericArg>, n: usize) -> (r: Option<&TypeSyntax>)
    ensures
        match r {
            Some(t) => n < type_args(args@).len() && type_args(args@)[n as int] == *t,
            None => n >= type_args(args@).len(),
        },
{
    let mut i: usize = 0;
    let mut seen: usize = 0;
    proof {
        assert(args@.subrange(0, 0) =~= Seq::<GenericArg>::empty());
    }
    while i < args.len()
        invariant
            i <= args.len(),
            seen == type_args(args@.subrange(0, i as int)).len(),
            seen <= n,
        decreases args.len() - i,
    {
        proof {
            assert(args@.subrange(0, i + 1).drop_last() =~= args@.subrange(0, i as int));
            assert(args@.subrange(0, i + 1).last() == args@[i as int]);
        }
        match &args[i] {
            GenericArg::Type(t) => {
                if seen == n {
                    proof {
                        lemma_type_args_append(args@.subrange(0, i + 1), args@.subrange(i + 1, args.len() as int));
                        assert(args@.subrange(0, i + 1) + args@.subrange(i + 1, args.len() as int) =~= args@);
                        assert(type_args(args@.subrange(0, i + 1)) == type_args(args@.subrange(0, i as int)).push(*t));
                    }
                    return Some(t);
                }
                seen = seen + 1;
            },
            GenericArg::Other => {},
        }
        i = i + 1;
    }
    proof {
        assert(args@.subrange(0, args.len() as int) =~= args@);
    }
    None
}

/// The identifier of the last segment of a path type.
fn last_segment_ident(ty: &TypeSyntax) -> (r: Option<&str>)
    ensures
        match r {
            Some(s) => last_ident(*ty) == Some(s@),
            None => last_ident(*ty) is None,
        },
{
    match ty {
        TypeSyntax::Path { segments } => {
            if segments.len() > 0 {
                Some(segments[segments.len() - 1].ident.as_str())
            } else {
                None
            }
        },
        _ => None,
    }
}

/// The type arguments of an outer `Result<..>`, when it has an
/// angle-bracketed list.
fn result_args(ty: &TypeSyntax) -> (r: Option<&Vec<GenericArg>>)
    ensures
        match r {
            Some(a) => result_type_args(*ty) == Some(type_args(a@)),
            None => result_type_args(*ty) is None,
        },
{
    match ty {
        TypeSyntax::Path { segments } => {
            if segments.len() > 0 && str_eq(segments[segments.len() - 1].ident.as_str(), "Result") {
                match &segments[segments.len() - 1].args {
                    Some(a) => Some(a),
                    None => None,
                }
            } else {
                None
            }
        },
        _ => None,
    }
}

/// The `E` type of a `Result<T, E>` return, if the outer path is `Result`
/// with at least two type arguments.
pub fn result_err_type(ty: &TypeSyntax) -> (r: Option<&TypeSyntax>)
    ensures
        match r {
            Some(t) => result_err_of(*ty) == Some(*t),
            None => result_err_of(*ty) is None,
        },
{
    match result_args(ty) {
        Some(a) => nth_type_arg(a, 1),
        None => None,
    }
}

/// The `T` type of a `Result<T, E>` return, if inspectable.
pub fn result_ok_type(ty: &TypeSyntax) -> (r: Option<&TypeSyntax>)
    ensures
        match r {
            Some(t) => result_ok_of(*ty) == Some(*t),
            None => result_ok_of(*ty) is None,
        },
{
    match result_args(ty) {
        Some(a) => nth_type_arg(a, 0),
        None => None,
    }
}

/// True when `ty` is an outer `Option<..>`.
pub fn is_option(ty: &TypeSyntax) -> (r: bool)
    ensures
        r == is_option_type(*ty),
{
    match last_segment_ident(ty) {
        Some(s) => str_eq(s, "Option"),
        None => false,
    }
}

/// Classify a return type (`None` when absent) by its outermost path segment:
/// `()`/absent is [`ReturnKind::Unit`], `Result<Option<T>, E>`
/// [`ReturnKind::ResultOption`], other `Result`s [`ReturnKind::Result`],
/// `Option` [`ReturnKind::Option`], anything else [`ReturnKind::Other`].
pub fn classify_return(ret: &Option<TypeSyntax>) -> (r: ReturnKind)
    ensures
        r == return_kind_of(*ret),
{
    match ret {
        None => ReturnKind::Unit,
        Some(t) => match t {
            TypeSyntax::Tuple { elems } => {
                if elems.len() == 0 {
                    ReturnKind::Unit
                } else {
                    ReturnKind::Other
                }
            },
            TypeSyntax::Path { segments } => {
                if segments.len() == 0 {
                    ReturnKind::Other
                } else {
                    let head = segments[segments.len() - 1].ident.as_str();
                    if str_eq(head, "Result") {
                        match result_ok_type(t) {
                            Some(ok) => if is_option(ok) {
                                ReturnKind::ResultOption
                            } else {
                                ReturnKind::Result
                            },
                            None => ReturnKind::Result,
                        }
                    } else if str_eq(head, "Option") {
                        ReturnKind::Option
                    } else {
                        ReturnKind::Other
                    }
                }
            },
            _ => ReturnKind::Other,
        },
    }
}

/// The error-name fallback for a `Result<T, E>` return: the last path
/// segment of `E`, or `"error"` when `E` is not an inspectable path.
pub fn result_error_name(ret: &Option<TypeSyntax>) -> (r: String)
    ensures
        r@ == error_name_of(*ret),
{
    if let Some(t) = ret {
        if let Some(e) = result_err_type(t) {
            if let Some(n) = last_segment_ident(e) {
                return String::from_str(n);
            }
        }
    }
    String::from_str("error")
}

/// True for owned scalar types: the integer and float widths, `bool`,
/// `char`, `String` and `str`.
pub fn is_owned_primitive(ty: &TypeSyntax) -> (r: bool)
    ensures
        r == owned_primitive(*ty),
{
    match last_segment_ident(ty) {
        Some(n) => str_eq(n, "i8") || str_eq(n, "i16") || str_eq(n, "i32") || str_eq(n, "i64")
            || str_eq(n, "i128") || str_eq(n, "isize") || str_eq(n, "u8") || str_eq(n, "u16")
            || str_eq(n, "u32") || str_eq(n, "u64") || str_eq(n, "u128") || str_eq(n, "usize")
            || str_eq(n, "f32") || str_eq(n, "f64") || str_eq(n, "bool") || str_eq(n, "char")
            || str_eq(n, "String") || str_eq(n, "str"),
        None => false,
    }
}

/// True for `&mut T` parameters: mutable state threaded through an operation,
/// not value inputs.
pub fn is_mut_ref(ty: &TypeSyntax) -> (r: bool)
    ensures
        r == (*ty matches TypeSyntax::Reference { mutable, .. } && mutable),
{
    match ty {
        TypeSyntax::Reference { mutable, .. } => *mutable,
        _ => false,
    }
}

/// True for owned primitives and references to primitives (notably `&str`):
/// values that print directly.
pub fn is_printable_param(ty: &TypeSyntax) -> (r: bool)
    ensures
        r == printable(*ty),
{
    if is_owned_primitive(ty) {
        return true;
    }
    match ty {
        TypeSyntax::Reference { elem, .. } => is_owned_primitive(elem),
        _ => false,
    }
}

/// The event name of a parameter: its `#[watch_input]` override, else its
/// identifier.
pub open spec fn param_name_of(p: Param) -> Seq<char> {
    match p.rename {
        Some(n) => n@,
        None => p.ident@,
    }
}

/// The emitted name of a parameter: its `#[watch_input]` override, else the
/// code identifier.
pub fn param_name(p: &Param) -> (r: String)
    ensures
        r@ == param_name_of(*p),
{
    match &p.rename {
        Some(n) => n.clone(),
        None => p.ident.clone(),
    }
}

} // verus!
