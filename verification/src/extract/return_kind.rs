//! Classify a stringified return type into completion [`Outcomes`].
//!
//! - `Result<T, E>`: result `T`, errors `[E]`;
//! - `Result<Option<T>, E>`: result `T`, empty allowed, errors `[E]`;
//! - `Option<T>`: result `T`, empty allowed, no errors;
//! - `()` (or nothing): no result, no errors;
//! - any other `T`: result `T`.
//!
//! An error outcome carries only its name, the last path segment of `E`; the
//! payload type is left absent so it never dangles against the declared types.

use vstd::prelude::*;
use crate::contract::operation::{ErrorOutcome, ErrorOutcomeShape, Outcomes, OutcomesShape};
use crate::contract::type_ref::views_of;
use crate::extract::scan::{depth_at, find_char, first_at, lemma_split_two, no_top_level_comma, split_generic};
use crate::extract::type_ref::{
    generic_parts, generic_parts_of, generic_text, head_of, is_plain_ident, law_lowering_ignores_surrounding_whitespace,
    lemma_lowering_reads_membership, lemma_plain_generic, lemma_trim_unpadded, lowered, parse_type_ref, same_members,
    type_head,
};
use crate::ordering::str_views;
use crate::text::{is_blank, lemma_trim_blank, lemma_trim_idempotent, str_eq, trim, trim_bounds};

verus! {

/// The outcomes for a `Result` whose ok type is `ok` and whose arguments are
/// `args`.
pub open spec fn result_outcomes(ok: Seq<char>, args: Seq<Seq<char>>, known: Seq<Seq<char>>) -> OutcomesShape {
    let errors = if args.len() > 1 {
        seq![ErrorOutcomeShape { name: head_of(args[1]), ty: None, description: None }]
    } else {
        Seq::empty()
    };
    match generic_parts_of(ok) {
        Some((base, inner)) => if base == "Option"@ {
            OutcomesShape {
                result: Some(lowered(if inner.len() > 0 { inner[0] } else { "()"@ }, known)),
                empty: true,
                errors,
            }
        } else {
            OutcomesShape { result: Some(lowered(ok, known)), empty: false, errors }
        },
        None => OutcomesShape { result: Some(lowered(ok, known)), empty: false, errors },
    }
}

/// The outcomes declared by the return type `t`.
pub open spec fn outcomes_of(t: Seq<char>, known: Seq<Seq<char>>) -> OutcomesShape {
    let s = trim(t);
    if s.len() == 0 || s == "()"@ {
        OutcomesShape { result: None, empty: false, errors: Seq::empty() }
    } else {
        match generic_parts_of(s) {
            Some((base, args)) => if base == "Result"@ {
                result_outcomes(if args.len() > 0 { args[0] } else { "()"@ }, args, known)
            } else if base == "Option"@ {
                OutcomesShape {
                    result: Some(lowered(if args.len() > 0 { args[0] } else { "()"@ }, known)),
                    empty: true,
                    errors: Seq::empty(),
                }
            } else {
                OutcomesShape { result: Some(lowered(s, known)), empty: false, errors: Seq::empty() }
            },
            None => OutcomesShape { result: Some(lowered(s, known)), empty: false, errors: Seq::empty() },
        }
    }
}

/// Classify `return_type` into completion [`Outcomes`]; `known` is the set of
/// declared type names the result type is lowered against.
pub fn classify_return(return_type: &str, known: &Vec<&str>) -> (r: Outcomes)
    ensures
        r@ == outcomes_of(return_type@, str_views(known@)),
{
    let n = return_type.unicode_len();
    let (a, b) = trim_bounds(return_type, 0, n);
    proof {
        assert(return_type@.subrange(0, n as int) =~= return_type@);
    }
    let s = return_type.substring_char(a, b);
    if b == a || str_eq(s, "()") {
        return Outcomes::none();
    }
    match generic_parts(s) {
        Some((base, args)) => {
            if str_eq(base, "Result") {
                let ok: &str = if args.len() > 0 { args[0] } else { "()" };
                let mut errors: Vec<ErrorOutcome> = Vec::new();
                if args.len() > 1 {
                    errors.push(ErrorOutcome {
                        name: String::from_str(type_head(args[1])),
                        ty: None,
                        description: None,
                    });
                }
                let ghost ev = if str_views(args@).len() > 1 {
                    seq![ErrorOutcomeShape { name: head_of(str_views(args@)[1]), ty: None, description: None }]
                } else {
                    Seq::empty()
                };
                proof {
                    assert(views_of(errors@) =~= ev);
                }
                match generic_parts(ok) {
                    Some((b2, inner)) => {
                        if str_eq(b2, "Option") {
                            let v: &str = if inner.len() > 0 { inner[0] } else { "()" };
                            Outcomes { result: Some(parse_type_ref(v, known)), empty: true, errors }
                        } else {
                            Outcomes { result: Some(parse_type_ref(ok, known)), empty: false, errors }
                        }
                    },
                    None => Outcomes { result: Some(parse_type_ref(ok, known)), empty: false, errors },
                }
            } else if str_eq(base, "Option") {
                let v: &str = if args.len() > 0 { args[0] } else { "()" };
                let r = Outcomes { result: Some(parse_type_ref(v, known)), empty: true, errors: Vec::new() };
                proof {
                    assert(views_of(r.errors@) =~= Seq::<ErrorOutcomeShape>::empty());
                }
                r
            } else {
                let r = Outcomes { result: Some(parse_type_ref(s, known)), empty: false, errors: Vec::new() };
                proof {
                    assert(views_of(r.errors@) =~= Seq::<ErrorOutcomeShape>::empty());
                }
                r
            }
        },
        None => {
            let r = Outcomes { result: Some(parse_type_ref(s, known)), empty: false, errors: Vec::new() };
            proof {
                assert(views_of(r.errors@) =~= Seq::<ErrorOutcomeShape>::empty());
            }
            r
        },
    }
}

/// Whitespace around a return type does not change its outcomes.
pub proof fn law_outcomes_ignore_surrounding_whitespace(t: Seq<char>, known: Seq<Seq<char>>)
    ensures
        outcomes_of(trim(t), known) == outcomes_of(t, known),
{
    lemma_trim_idempotent(t);
}


/// The outcomes of a return type read the declared names only by membership.
pub proof fn lemma_outcomes_read_membership(t: Seq<char>, k1: Seq<Seq<char>>, k2: Seq<Seq<char>>)
    requires
        same_members(k1, k2),
    ensures
        outcomes_of(t, k1) == outcomes_of(t, k2),
{
    let s = trim(t);
    lemma_lowering_reads_membership(s, k1, k2);
    match generic_parts_of(s) {
        Some((base, args)) => {
            let a0 = if args.len() > 0 { args[0] } else { "()"@ };
            lemma_lowering_reads_membership(a0, k1, k2);
            match generic_parts_of(a0) {
                Some((b, inner)) => {
                    lemma_lowering_reads_membership(if inner.len() > 0 { inner[0] } else { "()"@ }, k1, k2);
                },
                None => {},
            }
        },
        None => {},
    }
}


/// A plain identifier has no generic arguments.
proof fn lemma_plain_ident_not_generic(t: Seq<char>)
    requires
        is_plain_ident(t),
    ensures
        trim(t) == t,
        split_generic(t) is None,
{
    assert(t[0] == t[0]);
    assert(t.last() == t[t.len() - 1]);
    lemma_trim_unpadded(t);
    assert forall|k: int| !first_at(t, '<', k) by {
        if 0 <= k < t.len() {
            assert(t[k] != '<');
        }
    }
    assert(find_char(t, '<') is None);
}

/// The outcomes of `Result<t, e>`, where the comma between `t` and `e` is the
/// only one outside brackets: exactly one error outcome, named by the head of
/// `e` and without payload type; and the result is the whole of `t`, which
/// cannot be empty, unless `t` is an `Option<x>`, whose result is `x` and
/// which can be empty.
pub proof fn law_result_outcomes(t: Seq<char>, e: Seq<char>, known: Seq<Seq<char>>)
    requires
        no_top_level_comma(t),
        depth_at(t, t.len()) == 0,
        no_top_level_comma(e),
    ensures
        outcomes_of("Result<"@ + t + ","@ + e + ">"@, known).errors == seq![
            ErrorOutcomeShape { name: head_of(e), ty: None, description: None },
        ],
        is_plain_ident(t) ==> outcomes_of("Result<"@ + t + ","@ + e + ">"@, known).result == Some(
            lowered(t, known),
        ) && !outcomes_of("Result<"@ + t + ","@ + e + ">"@, known).empty,
        forall|w: Seq<char>, x: Seq<char>|
            is_plain_ident(w) && w != "Option"@ && t == #[trigger] generic_text(w, x) ==> outcomes_of(
                "Result<"@ + t + ","@ + e + ">"@,
                known,
            ).result == Some(lowered(t, known)) && !outcomes_of("Result<"@ + t + ","@ + e + ">"@, known).empty,
        forall|x: Seq<char>|
            no_top_level_comma(x) && t == #[trigger] generic_text("Option"@, x) ==> outcomes_of(
                "Result<"@ + t + ","@ + e + ">"@,
                known,
            ).result == Some(lowered(x, known)) && outcomes_of("Result<"@ + t + ","@ + e + ">"@, known).empty,
{
    reveal_strlit("Result");
    reveal_strlit("Result<");
    reveal_strlit("Option");
    reveal_strlit("<");
    reveal_strlit(">");
    reveal_strlit(",");
    reveal_strlit("()");
    let inner = t + seq![','] + e;
    let u = "Result<"@ + t + ","@ + e + ">"@;
    assert(u =~= generic_text("Result"@, inner));
    lemma_plain_generic("Result"@, inner);
    lemma_split_two(t, e);
    lemma_trim_idempotent(t);
    lemma_trim_idempotent(e);
    law_lowering_ignores_surrounding_whitespace(t, known);
    assert(u.len() != 2);
    assert(outcomes_of(u, known) == result_outcomes(trim(t), seq![trim(t), trim(e)], known));
    if is_plain_ident(t) {
        lemma_plain_ident_not_generic(t);
    }
    assert forall|w: Seq<char>, x: Seq<char>|
        is_plain_ident(w) && w != "Option"@ && t == #[trigger] generic_text(w, x) implies outcomes_of(
            u,
            known,
        ).result == Some(lowered(t, known)) && !outcomes_of(u, known).empty by {
        lemma_plain_generic(w, x);
    }
    assert forall|x: Seq<char>|
        no_top_level_comma(x) && t == #[trigger] generic_text("Option"@, x) implies outcomes_of(u, known).result
        == Some(lowered(x, known)) && outcomes_of(u, known).empty by {
        lemma_plain_generic("Option"@, x);
        crate::extract::scan::lemma_split_without_comma(x);
        lemma_trim_idempotent(x);
        law_lowering_ignores_surrounding_whitespace(x, known);
    }
}

/// The outcomes of a return type that is not a `Result`: `Option<x>` has
/// result `x` and can be empty; any other plain-based generic `w<x>` has
/// the whole type as result and cannot be empty; neither declares errors.
pub proof fn law_non_result_outcomes(w: Seq<char>, x: Seq<char>, known: Seq<Seq<char>>)
    requires
        is_plain_ident(w),
        no_top_level_comma(x),
    ensures
        outcomes_of(generic_text("Option"@, x), known) == (OutcomesShape {
            result: Some(lowered(x, known)),
            empty: true,
            errors: Seq::empty(),
        }),
        w != "Option"@ && w != "Result"@ ==> outcomes_of(generic_text(w, x), known) == (OutcomesShape {
            result: Some(lowered(generic_text(w, x), known)),
            empty: false,
            errors: Seq::empty(),
        }),
{
    reveal_strlit("Result");
    reveal_strlit("Option");
    reveal_strlit("<");
    reveal_strlit(">");
    reveal_strlit("()");
    lemma_plain_generic("Option"@, x);
    lemma_plain_generic(w, x);
    crate::extract::scan::lemma_split_without_comma(x);
    law_lowering_ignores_surrounding_whitespace(x, known);
    assert(generic_text("Option"@, x).len() != 2);
    assert(generic_text(w, x).len() != 2);
}


/// A blank return type, or `()`, declares no result, cannot be empty and
/// has no errors.
pub proof fn law_unit_outcomes(t: Seq<char>, known: Seq<Seq<char>>)
    requires
        is_blank(t) || trim(t) == "()"@,
    ensures
        outcomes_of(t, known) == (OutcomesShape { result: None, empty: false, errors: Seq::empty() }),
{
    lemma_trim_blank(t);
}

} // verus!
