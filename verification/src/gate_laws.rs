//! What the interpreter has been shown of an expression that it takes.
use vstd::prelude::*;

use crate::ast::{Expr, ExprKind, IntTy, Ty, UnOp};
use crate::bindings::value_of;
use crate::gates::{
    args_gate, cached_gate, elements_gate, expr_gate, kind_gate, local_ty, semantic_ty, sink_gate,
    u64_ty, LocalsV,
};
use crate::lookup::candidate_from;
use crate::place::PlaceV;
use crate::plan::{CandidateEntryV, PlanV};

verus! {

/// An expression that is taken where a type is expected: it is taken, and is of that type.
pub open spec fn taken_as(e: Expr, ty: Ty, locals: LocalsV) -> bool {
    expr_gate(e, locals) is Ok && semantic_ty(e, locals) == Ok::<Ty, Seq<char>>(ty)
}

/// A concrete integer type.
pub open spec fn machine_integer(ty: Ty) -> bool {
    ty matches Ty::Int(t) && !(t is TParam)
}

/// A place that expects a type takes only expressions of that type.
pub proof fn law_places_take_their_own_type(
    expected: Ty,
    e: Expr,
    locals: LocalsV,
    context: Seq<char>,
)
    ensures
        sink_gate(expected, e, locals, context) is Ok ==> taken_as(e, expected, locals),
        taken_as(e, expected, locals) && expected != Ty::Array(Box::new(Ty::Bool)) ==> sink_gate(
            expected,
            e,
            locals,
            context,
        ) is Ok,
{
}

/// The operands of an operator that is taken are taken, and of the types that the operator works on:
/// truth values under a logical one, one concrete integer type under any other. Its own type is that
/// of a truth value or of its operands.
pub proof fn law_operators_are_taken_by_type(e: Expr, locals: LocalsV)
    requires
        expr_gate(e, locals) is Ok,
    ensures
        e.kind matches ExprKind::Binary { op, lhs, rhs, .. } ==> {
            &&& op is And || op is Or ==> taken_as(*lhs, Ty::Bool, locals) && taken_as(
                *rhs,
                Ty::Bool,
                locals,
            ) && e.ty == Some(Ty::Bool)
            &&& !(op is And) && !(op is Or) ==> {
                &&& expr_gate(*lhs, locals) is Ok
                &&& expr_gate(*rhs, locals) is Ok
                &&& semantic_ty(*lhs, locals) matches Ok(ty)
                &&& machine_integer(ty)
                &&& semantic_ty(*rhs, locals) == Ok::<Ty, Seq<char>>(ty)
                &&& op.comparison() ==> e.ty == Some(Ty::Bool)
                &&& !op.comparison() ==> e.ty == Some(ty)
            }
        },
        e.kind matches ExprKind::Unary { op: UnOp::Not, operand } ==> taken_as(
            *operand,
            Ty::Bool,
            locals,
        ) && e.ty == Some(Ty::Bool),
        e.kind matches ExprKind::Unary { op: UnOp::Neg, operand } ==> (expr_gate(*operand, locals)
            is Ok && (semantic_ty(*operand, locals) matches Ok(ty) && machine_integer(ty) && e.ty
            == Some(ty))),
{
    assert(kind_gate(e, locals) is Ok);
}

/// A name that is taken is known, is no owning option, and is of the type that it is annotated with,
/// but for a resource; a literal has a type of its own kind.
pub proof fn law_names_are_taken_by_type(e: Expr, locals: LocalsV)
    requires
        expr_gate(e, locals) is Ok,
    ensures
        e.kind matches ExprKind::Var(name) ==> (local_ty(locals, name@) matches Some(ty)
            && !ty.affine_option() && (e.ty matches Some(cached) ==> cached == ty || ty is Res)),
        e.kind is IntLit ==> (e.ty matches Some(ty) && machine_integer(ty)),
        e.kind is BoolLit ==> e.ty == Some(Ty::Bool),
        !(e.kind is SlotOp),
        e.kind matches ExprKind::Len { array } ==> (local_ty(locals, array@) matches Some(ty)
            && ty.spec_as_array() is Some && e.ty == Some(Ty::Int(IntTy::U64))),
        e.kind matches ExprKind::Index { array, index, .. } ==> (local_ty(
            locals,
            array@,
        ) matches Some(ty) && (ty.spec_as_array() matches Some((payload, _)) && e.ty == Some(payload)
            && taken_as(*index, Ty::Int(IntTy::U64), locals))),
        e.kind matches ExprKind::OptTake { option, .. } ==> (value_of(
            locals,
            option@,
        ) matches Some(local) && local.mutable && local.ty.affine_option() && e.ty
            == local.ty.affine_payload()),
        e.kind matches ExprKind::OptValue { operand } ==> expr_gate(*operand, locals) is Ok && (
        semantic_ty(*operand, locals) matches Ok(ty) && !ty.affine_option()),
        e.kind matches ExprKind::AllocArray { elem, len, init } ==> taken_as(
            *len,
            Ty::Int(IntTy::U64),
            locals,
        ) && taken_as(*init, elem, locals) && e.ty == Some(Ty::Array(Box::new(elem))),
{
    assert(kind_gate(e, locals) is Ok);
}

proof fn lemma_args(args: Seq<Expr>, i: nat, locals: LocalsV, context: Option<Seq<char>>, k: int)
    requires
        i <= k < args.len(),
        args_gate(args, i, locals, context) is Ok,
    ensures
        expr_gate(args[k], locals) is Ok,
    decreases args.len() - i,
{
    if i < k {
        lemma_args(args, i + 1, locals, context, k);
    }
}

proof fn lemma_elements(payload: Ty, elements: Seq<Expr>, i: nat, locals: LocalsV, k: int)
    requires
        i <= k < elements.len(),
        elements_gate(payload, elements, i, locals) is Ok,
    ensures
        taken_as(elements[k], payload, locals),
    decreases elements.len() - i,
{
    if i < k {
        lemma_elements(payload, elements, i + 1, locals, k);
    } else {
        law_places_take_their_own_type(
            payload,
            elements[k],
            locals,
            "array literal element"@,
        );
    }
}

/// Every argument of a call, a construction and a method call that is taken is taken, and every
/// element of an array literal is, as the payload that the literal has.
pub proof fn law_every_argument_is_taken(e: Expr, locals: LocalsV, k: int)
    requires
        expr_gate(e, locals) is Ok,
    ensures
        e.kind matches ExprKind::Call { args, type_args, .. } ==> type_args@.len() == 0 && (0 <= k
            < args@.len() ==> expr_gate(args@[k], locals) is Ok),
        e.kind matches ExprKind::CtorCall { args, type_args, .. } ==> type_args@.len() == 0 && (0 <= k
            < args@.len() ==> expr_gate(args@[k], locals) is Ok),
        e.kind matches ExprKind::MethodCall { args, .. } ==> (0 <= k < args@.len() ==> expr_gate(
            args@[k],
            locals,
        ) is Ok),
        e.kind matches ExprKind::ArrayLit(elements) ==> (e.ty matches Some(Ty::Array(payload)) && (0
            <= k < elements@.len() ==> taken_as(elements@[k], *payload, locals))),
{
    assert(kind_gate(e, locals) is Ok);
    match e.kind {
        ExprKind::Call { args, .. } => {
            if 0 <= k < args@.len() {
                lemma_args(args@, 0, locals, None, k);
            }
        },
        ExprKind::CtorCall { args, .. } => {
            if 0 <= k < args@.len() {
                lemma_args(args@, 0, locals, Some("call argument"@), k);
            }
        },
        ExprKind::MethodCall { args, .. } => {
            if 0 <= k < args@.len() {
                lemma_args(args@, 0, locals, Some("method argument"@), k);
            }
        },
        ExprKind::ArrayLit(elements) => {
            match e.ty {
                Some(Ty::Array(payload)) => {
                    if 0 <= k < elements@.len() {
                        lemma_elements(*payload, elements@, 0, locals, k);
                    }
                },
                _ => {},
            }
        },
        _ => {},
    }
}

/// The type that an expression is annotated with is the one that is expected of it, or it is refused.
pub proof fn law_annotations_agree(found: Option<Ty>, expected: Ty, context: Seq<char>)
    ensures
        cached_gate(found, expected, context) is Ok <==> found == Some(expected),
        u64_ty() == Ty::Int(IntTy::U64),
{
}

proof fn lemma_candidate(ids: Seq<CandidateEntryV>, place: PlaceV, i: nat)
    ensures
        candidate_from(ids, place, i) matches Some(id) ==> exists|k: int|
            i <= k < ids.len() && (#[trigger] ids[k]).place == place && ids[k].id == id,
        candidate_from(ids, place, i) is None ==> forall|k: int|
            i <= k < ids.len() ==> (#[trigger] ids[k]).place != place,
    decreases ids.len() - i,
{
    if i < ids.len() && ids[i as int].place != place {
        lemma_candidate(ids, place, i + 1);
    }
}

/// The drop candidate of a place is the one that the plan holds for that place; a place that the plan
/// holds none for has none.
pub proof fn law_candidates_are_found_by_place(p: PlanV, place: PlaceV)
    ensures
        p.candidate_for(place) matches Some(c) ==> exists|k: int|
            0 <= k < p.candidate_ids.len() && (#[trigger] p.candidate_ids[k]).place == place && c
                == p.candidates[p.candidate_ids[k].id.0 as int],
        p.candidate_for(place) is None ==> forall|k: int|
            0 <= k < p.candidate_ids.len() ==> (#[trigger] p.candidate_ids[k]).place != place,
{
    lemma_candidate(p.candidate_ids, place, 0);
}

} // verus!
