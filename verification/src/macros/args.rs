//! The argument lists of the annotation macros, parsed from their tokens:
//! `#[watch_operation(component = "...")]`, `#[watch_dep("name", component =
//! "...")]`, `watch_dep!("name"[, component = "..."], expr)`,
//! `watch_point!("name", expr)` and `#[watchable(name = "...")]`.

use vstd::prelude::*;
use crate::text::str_eq;

verus! {

/// Diagnostic when an operation is annotated without a component.
pub const MISSING_COMPONENT: &'static str = "`#[watch_operation]` requires a component: `#[watch_operation(component = \"...\")]`";

/// One token of a macro's argument list.
#[derive(Debug, Clone, PartialEq, Eq)]
pub enum ArgToken {
    /// An identifier.
    Ident(String),
    /// A punctuation character such as `=` or `,`.
    Punct(char),
    /// A string literal, by its value.
    Str(String),
    /// Any other literal or group.
    Other,
}

/// Why a macro's arguments were rejected.
#[derive(Debug, Clone, Copy, PartialEq, Eq, Structural)]
pub enum ArgError {
    /// The operation's component is absent or empty ([`MISSING_COMPONENT`]).
    MissingComponent,
    /// A keyword argument other than `component = "..."`.
    ExpectedComponentKey,
    /// A `#[watchable(..)]` argument other than `name = "..."`.
    UnknownWatchableArgument,
    /// A token of the wrong kind, a missing token, or tokens left over.
    Malformed,
}

/// The arguments of `#[watch_operation(component = "...")]`. The component is
/// mandatory: it supplies both the span's component id and the registry
/// entry's component.
#[derive(Debug, Clone, PartialEq, Eq)]
pub struct OperationArgs {
    /// The author-declared component id.
    pub component: String,
}

/// The arguments of `#[watch_dep("name", component = "...")]`. The name is
/// mandatory; the component defaults to the enclosing operation's.
#[derive(Debug, Clone, PartialEq, Eq)]
pub struct DepArgs {
    /// The dependency (nested-operation) name.
    pub name: String,
    /// An explicit component override, or `None` to inherit the parent's.
    pub component: Option<String>,
}

/// A parsed `watch_dep!("name"[, component = "..."], expr)` invocation: the
/// wrapped expression is the tokens from `expr_start` on.
#[derive(Debug, Clone, PartialEq, Eq)]
pub struct DepCall {
    /// The dependency (nested-operation) name.
    pub name: String,
    /// An explicit component override, or `None` to inherit the parent's.
    pub component: Option<String>,
    /// Where the wrapped expression starts.
    pub expr_start: usize,
}

/// A parsed `watch_point!("name", expr)` invocation: the observed expression
/// is the tokens from `expr_start` on.
#[derive(Debug, Clone, PartialEq, Eq)]
pub struct PointCall {
    /// The observation name.
    pub name: String,
    /// Where the observed expression starts.
    pub expr_start: usize,
}

/// The arguments of an attribute: `#[a]`, `#[a(..)]` or `#[a = ..]`.
#[derive(Debug, Clone, PartialEq, Eq)]
pub enum AttrArgs {
    /// A bare attribute.
    Bare,
    /// A parenthesized list of nested items.
    List(Vec<NestedMeta>),
    /// A `= value` attribute.
    NameValue,
}

/// One item of a parenthesized attribute list.
#[derive(Debug, Clone, PartialEq, Eq)]
pub struct NestedMeta {
    /// The item's path when it starts with one.
    pub path: Option<String>,
    /// What follows the path.
    pub value: MetaValue,
}

/// What follows an item's path.
#[derive(Debug, Clone, PartialEq, Eq)]
pub enum MetaValue {
    /// Nothing.
    Absent,
    /// `= "..."`, by the string's value.
    Str(String),
    /// Anything else.
    Other,
}

/// The value of the string literal at `i`.
pub open spec fn str_at(t: Seq<ArgToken>, i: int) -> Option<Seq<char>> {
    if 0 <= i < t.len() {
        match t[i] {
            ArgToken::Str(s) => Some(s@),
            _ => None,
        }
    } else {
        None
    }
}

/// The identifier at `i`.
pub open spec fn ident_at(t: Seq<ArgToken>, i: int) -> Option<Seq<char>> {
    if 0 <= i < t.len() {
        match t[i] {
            ArgToken::Ident(s) => Some(s@),
            _ => None,
        }
    } else {
        None
    }
}

/// The punctuation `c` is at `i`.
pub open spec fn punct_at(t: Seq<ArgToken>, i: int, c: char) -> bool {
    0 <= i < t.len() && t[i] == ArgToken::Punct(c)
}

/// What `component = "..."` parses to.
pub open spec fn operation_args_of(t: Seq<ArgToken>) -> Result<Seq<char>, ArgError> {
    if t.len() == 0 {
        Err(ArgError::MissingComponent)
    } else {
        match ident_at(t, 0) {
            None => Err(ArgError::Malformed),
            Some(k) => if k != "component"@ {
                Err(ArgError::MissingComponent)
            } else if !punct_at(t, 1, '=') {
                Err(ArgError::Malformed)
            } else {
                match str_at(t, 2) {
                    None => Err(ArgError::Malformed),
                    Some(v) => if v.len() == 0 {
                        Err(ArgError::MissingComponent)
                    } else if t.len() > 3 {
                        Err(ArgError::Malformed)
                    } else {
                        Ok(v)
                    },
                }
            },
        }
    }
}

/// What `"name"[, component = "..."]` parses to.
pub open spec fn dep_args_of(t: Seq<ArgToken>) -> Result<(Seq<char>, Option<Seq<char>>), ArgError> {
    match str_at(t, 0) {
        None => Err(ArgError::Malformed),
        Some(name) => if t.len() == 1 {
            Ok((name, None))
        } else if !punct_at(t, 1, ',') {
            Err(ArgError::Malformed)
        } else {
            match ident_at(t, 2) {
                None => Err(ArgError::Malformed),
                Some(k) => if k != "component"@ {
                    Err(ArgError::ExpectedComponentKey)
                } else if !punct_at(t, 3, '=') {
                    Err(ArgError::Malformed)
                } else {
                    match str_at(t, 4) {
                        None => Err(ArgError::Malformed),
                        Some(c) => if t.len() > 5 {
                            Err(ArgError::Malformed)
                        } else {
                            Ok((name, Some(c)))
                        },
                    }
                },
            }
        },
    }
}

/// What `"name"[, component = "..."], expr` parses to: the name, the
/// component and where the expression starts.
pub open spec fn dep_call_of(t: Seq<ArgToken>) -> Result<(Seq<char>, Option<Seq<char>>, int), ArgError> {
    match str_at(t, 0) {
        None => Err(ArgError::Malformed),
        Some(name) => if !punct_at(t, 1, ',') {
            Err(ArgError::Malformed)
        } else if ident_at(t, 2) is Some && punct_at(t, 3, '=') {
            if ident_at(t, 2) != Some("component"@) {
                Err(ArgError::ExpectedComponentKey)
            } else {
                match str_at(t, 4) {
                    None => Err(ArgError::Malformed),
                    Some(c) => if !punct_at(t, 5, ',') || t.len() <= 6 {
                        Err(ArgError::Malformed)
                    } else {
                        Ok((name, Some(c), 6))
                    },
                }
            }
        } else if t.len() <= 2 {
            Err(ArgError::Malformed)
        } else {
            Ok((name, None, 2))
        },
    }
}

/// What `"name", expr` parses to: the name and where the expression starts.
pub open spec fn point_call_of(t: Seq<ArgToken>) -> Result<(Seq<char>, int), ArgError> {
    match str_at(t, 0) {
        None => Err(ArgError::Malformed),
        Some(name) => if !punct_at(t, 1, ',') || t.len() <= 2 {
            Err(ArgError::Malformed)
        } else {
            Ok((name, 2))
        },
    }
}

/// What one `#[watchable(..)]` item says: a `name = "..."` rename, or why it
/// is rejected.
pub open spec fn watchable_item_of(m: NestedMeta) -> Result<Seq<char>, ArgError> {
    match m.path {
        None => Err(ArgError::Malformed),
        Some(p) => if p@ != "name"@ {
            Err(ArgError::UnknownWatchableArgument)
        } else {
            match m.value {
                MetaValue::Str(s) => Ok(s@),
                _ => Err(ArgError::Malformed),
            }
        },
    }
}

/// What a `#[watchable(..)]` list says: the first rejected item's error, else
/// the last rename, if any.
pub open spec fn watchable_list_of(items: Seq<NestedMeta>) -> Result<Option<Seq<char>>, ArgError>
    decreases items.len(),
{
    if items.len() == 0 {
        Ok(None)
    } else {
        match watchable_list_of(items.drop_last()) {
            Err(e) => Err(e),
            Ok(_) => match watchable_item_of(items.last()) {
                Err(e) => Err(e),
                Ok(n) => Ok(Some(n)),
            },
        }
    }
}

/// Once a prefix of the items is rejected, so is the whole list, with the
/// same error.
proof fn lemma_watchable_error_persists(items: Seq<NestedMeta>, k: int)
    requires
        0 <= k <= items.len(),
        watchable_list_of(items.subrange(0, k)) is Err,
    ensures
        watchable_list_of(items) == watchable_list_of(items.subrange(0, k)),
    decreases items.len(),
{
    if k == items.len() {
        assert(items.subrange(0, k) =~= items);
    } else {
        let d = items.drop_last();
        assert(d.subrange(0, k) =~= items.subrange(0, k));
        lemma_watchable_error_persists(d, k);
    }
}

/// The view of an optional string.
pub open spec fn opt_seq(o: Option<String>) -> Option<Seq<char>> {
    match o {
        Some(s) => Some(s@),
        None => None,
    }
}

/// The string literal at `i`.
fn str_token(t: &Vec<ArgToken>, i: usize) -> (r: Option<&String>)
    ensures
        match r {
            Some(s) => str_at(t@, i as int) == Some(s@),
            None => str_at(t@, i as int) is None,
        },
{
    if i < t.len() {
        match &t[i] {
            ArgToken::Str(s) => Some(s),
            _ => None,
        }
    } else {
        None
    }
}

/// The identifier at `i`.
fn ident_token(t: &Vec<ArgToken>, i: usize) -> (r: Option<&String>)
    ensures
        match r {
            Some(s) => ident_at(t@, i as int) == Some(s@),
            None => ident_at(t@, i as int) is None,
        },
{
    if i < t.len() {
        match &t[i] {
            ArgToken::Ident(s) => Some(s),
            _ => None,
        }
    } else {
        None
    }
}

/// Whether the punctuation `c` is at `i`.
fn punct_token(t: &Vec<ArgToken>, i: usize, c: char) -> (r: bool)
    ensures
        r == punct_at(t@, i as int, c),
{
    if i < t.len() {
        match &t[i] {
            ArgToken::Punct(p) => *p == c,
            _ => false,
        }
    } else {
        false
    }
}

impl OperationArgs {
    /// Parse `component = "..."`. The component is mandatory and non-empty.
    pub fn parse(tokens: &Vec<ArgToken>) -> (r: Result<OperationArgs, ArgError>)
        ensures
            match r {
                Ok(a) => operation_args_of(tokens@) == Ok::<Seq<char>, ArgError>(a.component@),
                Err(e) => operation_args_of(tokens@) == Err::<Seq<char>, ArgError>(e),
            },
    {
        if tokens.len() == 0 {
            return Err(ArgError::MissingComponent);
        }
        let key = match ident_token(tokens, 0) {
            Some(k) => k,
            None => return Err(ArgError::Malformed),
        };
        if !str_eq(key.as_str(), "component") {
            return Err(ArgError::MissingComponent);
        }
        if !punct_token(tokens, 1, '=') {
            return Err(ArgError::Malformed);
        }
        let value = match str_token(tokens, 2) {
            Some(v) => v,
            None => return Err(ArgError::Malformed),
        };
        if value.unicode_len() == 0 {
            return Err(ArgError::MissingComponent);
        }
        if tokens.len() > 3 {
            return Err(ArgError::Malformed);
        }
        Ok(OperationArgs { component: value.clone() })
    }
}

impl DepArgs {
    /// Parse `"name"[, component = "..."]`.
    pub fn parse(tokens: &Vec<ArgToken>) -> (r: Result<DepArgs, ArgError>)
        ensures
            match r {
                Ok(a) => dep_args_of(tokens@) == Ok::<(Seq<char>, Option<Seq<char>>), ArgError>(
                    (a.name@, opt_seq(a.component)),
                ),
                Err(e) => dep_args_of(tokens@) == Err::<(Seq<char>, Option<Seq<char>>), ArgError>(e),
            },
    {
        let name = match str_token(tokens, 0) {
            Some(n) => n,
            None => return Err(ArgError::Malformed),
        };
        if tokens.len() == 1 {
            return Ok(DepArgs { name: name.clone(), component: None });
        }
        if !punct_token(tokens, 1, ',') {
            return Err(ArgError::Malformed);
        }
        let key = match ident_token(tokens, 2) {
            Some(k) => k,
            None => return Err(ArgError::Malformed),
        };
        if !str_eq(key.as_str(), "component") {
            return Err(ArgError::ExpectedComponentKey);
        }
        if !punct_token(tokens, 3, '=') {
            return Err(ArgError::Malformed);
        }
        let component = match str_token(tokens, 4) {
            Some(c) => c,
            None => return Err(ArgError::Malformed),
        };
        if tokens.len() > 5 {
            return Err(ArgError::Malformed);
        }
        Ok(DepArgs { name: name.clone(), component: Some(component.clone()) })
    }
}

impl DepCall {
    /// Parse `"name"[, component = "..."], expr`. A `component` keyword is
    /// told apart from the expression by an identifier followed by `=`.
    pub fn parse(tokens: &Vec<ArgToken>) -> (r: Result<DepCall, ArgError>)
        ensures
            match r {
                Ok(c) => dep_call_of(tokens@) == Ok::<(Seq<char>, Option<Seq<char>>, int), ArgError>(
                    (c.name@, opt_seq(c.component), c.expr_start as int),
                ),
                Err(e) => dep_call_of(tokens@) == Err::<(Seq<char>, Option<Seq<char>>, int), ArgError>(
                    e,
                ),
            },
    {
        let name = match str_token(tokens, 0) {
            Some(n) => n,
            None => return Err(ArgError::Malformed),
        };
        if !punct_token(tokens, 1, ',') {
            return Err(ArgError::Malformed);
        }
        match ident_token(tokens, 2) {
            Some(key) => {
                if punct_token(tokens, 3, '=') {
                    if !str_eq(key.as_str(), "component") {
                        return Err(ArgError::ExpectedComponentKey);
                    }
                    let component = match str_token(tokens, 4) {
                        Some(c) => c,
                        None => return Err(ArgError::Malformed),
                    };
                    if !punct_token(tokens, 5, ',') || tokens.len() <= 6 {
                        return Err(ArgError::Malformed);
                    }
                    return Ok(DepCall { name: name.clone(), component: Some(component.clone()), expr_start: 6 });
                }
            },
            None => {},
        }
        if tokens.len() <= 2 {
            return Err(ArgError::Malformed);
        }
        Ok(DepCall { name: name.clone(), component: None, expr_start: 2 })
    }
}

impl PointCall {
    /// Parse `"name", expr`.
    pub fn parse(tokens: &Vec<ArgToken>) -> (r: Result<PointCall, ArgError>)
        ensures
            match r {
                Ok(c) => point_call_of(tokens@) == Ok::<(Seq<char>, int), ArgError>(
                    (c.name@, c.expr_start as int),
                ),
                Err(e) => point_call_of(tokens@) == Err::<(Seq<char>, int), ArgError>(e),
            },
    {
        let name = match str_token(tokens, 0) {
            Some(n) => n,
            None => return Err(ArgError::Malformed),
        };
        if !punct_token(tokens, 1, ',') || tokens.len() <= 2 {
            return Err(ArgError::Malformed);
        }
        Ok(PointCall { name: name.clone(), expr_start: 2 })
    }
}

/// The view of a parsed `#[watchable]` rename.
pub open spec fn rename_view(r: Result<Option<String>, ArgError>) -> Result<Option<Seq<char>>, ArgError> {
    match r {
        Ok(o) => Ok(opt_seq(o)),
        Err(e) => Err(e),
    }
}

/// Parse a `#[watchable]` field attribute: `Ok(Some(name))` for a
/// `#[watchable(name = "...")]` rename, `Ok(None)` for a bare `#[watchable]`
/// or an empty list, and an error for an unknown key or a malformed value.
pub fn watchable_field_name(args: &AttrArgs) -> (r: Result<Option<String>, ArgError>)
    ensures
        rename_view(r) == (match *args {
            AttrArgs::List(items) => watchable_list_of(items@),
            _ => Ok(None),
        }),
{
    let items = match args {
        AttrArgs::List(items) => items,
        _ => return Ok(None),
    };
    let mut name: Option<String> = None;
    let mut i: usize = 0;
    proof {
        assert(items@.subrange(0, 0) =~= Seq::<NestedMeta>::empty());
    }
    while i < items.len()
        invariant
            i <= items.len(),
            *args == AttrArgs::List(*items),
            watchable_list_of(items@.subrange(0, i as int)) == Ok::<Option<Seq<char>>, ArgError>(
                opt_seq(name),
            ),
        decreases items.len() - i,
    {
        proof {
            assert(items@.subrange(0, i + 1).drop_last() =~= items@.subrange(0, i as int));
            assert(items@.subrange(0, i + 1).last() == items@[i as int]);
        }
        let item = &items[i];
        let path = match &item.path {
            Some(p) => p,
            None => {
                proof {
                    lemma_watchable_error_persists(items@, i + 1);
                }
                return Err(ArgError::Malformed);
            },
        };
        if !str_eq(path.as_str(), "name") {
            proof {
                lemma_watchable_error_persists(items@, i + 1);
            }
            return Err(ArgError::UnknownWatchableArgument);
        }
        match &item.value {
            MetaValue::Str(s) => {
                name = Some(s.clone());
            },
            _ => {
                proof {
                    lemma_watchable_error_persists(items@, i + 1);
                }
                return Err(ArgError::Malformed);
            },
        }
        i = i + 1;
    }
    proof {
        assert(items@.subrange(0, items.len() as int) =~= items@);
    }
    Ok(name)
}

} // verus!
