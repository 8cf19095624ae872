//! What the static parts say: where control goes, what can trap, what is destroyed, and which
//! programs the interpreter takes.
use vstd::prelude::*;

use crate::ast::{ClassDecl, Expr, ExprKind, FnDecl, IntTy, Program, RecordDecl, Stmt, Ty, UnOp};
use crate::drops::{drop_action_of, ActionV, ErrV, RecipeV};
use crate::eval_laws::in_type;
use crate::flow::{block_flow, stmt_flow, stmts_flow};
use crate::gates::{
    class_field_ty_gate, class_fields_gate, class_gate, classes_gate, field_ty_gate, fn_gate,
    fns_gate, methods_gate, param_ty_gate, params_gate, program_gate, record_gate, records_gate,
    return_ty_gate, stmts_gate,
};
use crate::lookup::{in_scope, invariant_traps, site_from, stmt_traps, variant_traps};
use crate::outline::ScopeId;
use crate::place::PlaceV;
use crate::plan::{PlanV, SiteEntry, SiteKey};
use crate::span::Span;
use crate::steps::{computed, int_type};
use crate::traps::{at_span, expr_trap_kinds, expr_traps, DirectV, TrapKeyV, TrapKindV};

verus! {

// ------------------------------------------------------------------------------------------
// Flow
// ------------------------------------------------------------------------------------------

/// Control reaches what follows a statement: never after a return; after a branch through either of
/// its blocks, and through a missing second one; always after a loop, whose condition may be false
/// at once; and after an unsafe or an exposing block through its body.
pub proof fn law_flow_of_each_statement(s: Stmt)
    ensures
        s is Return ==> !stmt_flow(s).reaches_next && stmt_flow(s).has_reachable_return && stmt_flow(
            s,
        ).contains_return,
        s matches Stmt::If { then_block, else_block: Some(other), .. } ==> {
            &&& stmt_flow(s).reaches_next <==> block_flow(then_block@).reaches_next || block_flow(
                other@,
            ).reaches_next
            &&& stmt_flow(s).has_reachable_return <==> block_flow(
                then_block@,
            ).has_reachable_return || block_flow(other@).has_reachable_return
            &&& stmt_flow(s).contains_return <==> block_flow(then_block@).contains_return
                || block_flow(other@).contains_return
        },
        s matches Stmt::If { then_block, else_block: None, .. } ==> {
            &&& stmt_flow(s).reaches_next
            &&& stmt_flow(s).has_reachable_return <==> block_flow(then_block@).has_reachable_return
            &&& stmt_flow(s).contains_return <==> block_flow(then_block@).contains_return
        },
        s matches Stmt::While { body, .. } ==> {
            &&& stmt_flow(s).reaches_next
            &&& stmt_flow(s).has_reachable_return <==> block_flow(body@).has_reachable_return
            &&& stmt_flow(s).contains_return <==> block_flow(body@).contains_return
        },
        s matches Stmt::Unsafe { body, .. } ==> stmt_flow(s) == block_flow(body@),
        s matches Stmt::Expose { body, .. } ==> stmt_flow(s) == block_flow(body@),
        !(s is Return || s is If || s is While || s is Unsafe || s is Expose) ==> stmt_flow(
            s,
        ).reaches_next && !stmt_flow(s).has_reachable_return && !stmt_flow(s).contains_return,
{
}

proof fn lemma_flow_prefix(s: Seq<Stmt>, n: nat, i: int)
    requires
        n <= s.len(),
    ensures
        stmts_flow(s, n).reaches_next <==> (forall|k: int|
            0 <= k < n ==> stmt_flow(#[trigger] s[k]).reaches_next),
        stmts_flow(s, n).contains_return <==> (exists|k: int|
            0 <= k < n && stmt_flow(#[trigger] s[k]).contains_return),
    decreases n,
{
    if n > 0 {
        lemma_flow_prefix(s, (n - 1) as nat, i);
        if stmts_flow(s, n).reaches_next {
            assert forall|k: int| 0 <= k < n implies stmt_flow(#[trigger] s[k]).reaches_next by {
                if k < n - 1 {
                    assert(stmt_flow(s[k]).reaches_next);
                }
            }
        }
        if stmts_flow(s, n).contains_return {
            if stmt_flow(s[n - 1]).contains_return {
                assert(0 <= n - 1 < n && stmt_flow(s[n - 1]).contains_return);
            } else {
                let k = choose|k: int| 0 <= k < n - 1 && stmt_flow(#[trigger] s[k]).contains_return;
                assert(0 <= k < n && stmt_flow(s[k]).contains_return);
            }
        }
        if exists|k: int| 0 <= k < n && stmt_flow(#[trigger] s[k]).contains_return {
            let k = choose|k: int| 0 <= k < n && stmt_flow(#[trigger] s[k]).contains_return;
            if k < n - 1 {
                assert(0 <= k < n - 1 && stmt_flow(s[k]).contains_return);
            }
        }
    }
}

/// Control reaches the end of a block exactly where it passes every statement of it; a block contains
/// a return exactly where one of its statements does.
pub proof fn law_flow_of_a_block(s: Seq<Stmt>)
    ensures
        block_flow(s).reaches_next <==> (forall|k: int|
            0 <= k < s.len() ==> stmt_flow(#[trigger] s[k]).reaches_next),
        block_flow(s).contains_return <==> (exists|k: int|
            0 <= k < s.len() && stmt_flow(#[trigger] s[k]).contains_return),
{
    lemma_flow_prefix(s, s.len(), 0);
}

// ------------------------------------------------------------------------------------------
// Traps
// ------------------------------------------------------------------------------------------

/// The arithmetic operators and what each can trap by, at the place of the expression: overflow of
/// its own kind; for a division also a divisor of nothing, and overflow only where the type is
/// signed.
pub proof fn law_arithmetic_can_trap(e: Expr, t: IntTy)
    requires
        e.kind is Binary,
        e.ty == Some(Ty::Int(t)),
        !(t is TParam),
    ensures
        ({
            let op = e.kind->Binary_op;
            let can = expr_traps(e);
            &&& op is Add ==> can == Ok::<Seq<DirectV>, ErrV>(
                seq![DirectV { span: e.span, kind: TrapKindV::AddOverflow(t) }],
            )
            &&& op is Sub ==> can == Ok::<Seq<DirectV>, ErrV>(
                seq![DirectV { span: e.span, kind: TrapKindV::SubOverflow(t) }],
            )
            &&& op is Mul ==> can == Ok::<Seq<DirectV>, ErrV>(
                seq![DirectV { span: e.span, kind: TrapKindV::MulOverflow(t) }],
            )
            &&& op is Div && t.is_signed() ==> can == Ok::<Seq<DirectV>, ErrV>(
                seq![
                    DirectV { span: e.span, kind: TrapKindV::DivByZero(t) },
                    DirectV { span: e.span, kind: TrapKindV::DivOverflow(t) },
                ],
            )
            &&& op is Div && !t.is_signed() ==> can == Ok::<Seq<DirectV>, ErrV>(
                seq![DirectV { span: e.span, kind: TrapKindV::DivByZero(t) }],
            )
            &&& op is Rem ==> can == Ok::<Seq<DirectV>, ErrV>(
                seq![DirectV { span: e.span, kind: TrapKindV::RemByZero(t) }],
            )
            &&& op.comparison() || op is And || op is Or ==> can == Ok::<Seq<DirectV>, ErrV>(
                Seq::empty(),
            )
        }),
{
    let kinds = expr_trap_kinds(e)->Ok_0;
    let op = e.kind->Binary_op;
    assert(expr_traps(e) == Ok::<Seq<DirectV>, ErrV>(at_span(e.span, kinds)));
    if op is Add {
        assert(at_span(e.span, kinds) =~= seq![
            DirectV { span: e.span, kind: TrapKindV::AddOverflow(t) },
        ]);
    } else if op is Sub {
        assert(at_span(e.span, kinds) =~= seq![
            DirectV { span: e.span, kind: TrapKindV::SubOverflow(t) },
        ]);
    } else if op is Mul {
        assert(at_span(e.span, kinds) =~= seq![
            DirectV { span: e.span, kind: TrapKindV::MulOverflow(t) },
        ]);
    } else if op is Div && t.is_signed() {
        assert(at_span(e.span, kinds) =~= seq![
            DirectV { span: e.span, kind: TrapKindV::DivByZero(t) },
            DirectV { span: e.span, kind: TrapKindV::DivOverflow(t) },
        ]);
    } else if op is Div {
        assert(at_span(e.span, kinds) =~= seq![
            DirectV { span: e.span, kind: TrapKindV::DivByZero(t) },
        ]);
    } else if op is Rem {
        assert(at_span(e.span, kinds) =~= seq![
            DirectV { span: e.span, kind: TrapKindV::RemByZero(t) },
        ]);
    } else {
        assert(at_span(e.span, kinds) =~= Seq::<DirectV>::empty());
    }
}

/// An expression that traps while it runs was planned to: where an operator on integers of its type
/// gives no value, its plan has a trap for it.
pub proof fn law_traps_were_planned(
    source: Seq<char>,
    e: Expr,
    a: i128,
    b: i128,
    rhs: Span,
    t: IntTy,
)
    requires
        e.kind is Binary,
        e.ty == Some(Ty::Int(t)),
        !(t is TParam),
        in_type(t, a as int),
        in_type(t, b as int),
        e.kind->Binary_op is Add || e.kind->Binary_op is Sub || e.kind->Binary_op is Mul
            || e.kind->Binary_op is Div || e.kind->Binary_op is Rem,
        computed(source, e.kind->Binary_op, a, b, e, rhs) is Err,
    ensures
        expr_trap_kinds(e) matches Ok(kinds) && kinds.len() > 0,
        b == 0 && e.kind->Binary_op is Div ==> expr_trap_kinds(e)->Ok_0.contains(
            TrapKindV::DivByZero(t),
        ),
        b == 0 && e.kind->Binary_op is Rem ==> expr_trap_kinds(e)->Ok_0.contains(
            TrapKindV::RemByZero(t),
        ),
        b != 0 && e.kind->Binary_op is Div ==> expr_trap_kinds(e)->Ok_0.contains(
            TrapKindV::DivOverflow(t),
        ),
{
    let op = e.kind->Binary_op;
    let kinds = expr_trap_kinds(e)->Ok_0;
    assert(int_type(e) == Some(t));
    if op is Div {
        assert(kinds[0] == TrapKindV::DivByZero(t));
        if b != 0 {
            assert(t.is_signed());
            assert(kinds[1] == TrapKindV::DivOverflow(t));
        }
    }
    if op is Rem {
        assert(kinds[0] == TrapKindV::RemByZero(t));
    }
}

/// Each other expression and what it can trap by, with the name of what it touches.
pub proof fn law_expressions_can_trap(e: Expr, t: Ty)
    requires
        e.ty == Some(t),
    ensures
        ({
            let can = expr_trap_kinds(e);
            &&& e.kind matches ExprKind::Index { array, .. } ==> can == Ok::<Seq<TrapKindV>, ErrV>(
                seq![TrapKindV::ArrayIndex { array: array@, element: t }],
            )
            &&& e.kind matches ExprKind::SelfFieldIndex { field, .. } ==> can == Ok::<
                Seq<TrapKindV>,
                ErrV,
            >(seq![TrapKindV::SelfFieldIndex { field: field@, element: t }])
            &&& e.kind matches ExprKind::ClassFieldIndex { obj, field, .. } ==> can == Ok::<
                Seq<TrapKindV>,
                ErrV,
            >(seq![TrapKindV::ClassFieldIndex { object: obj@, field: field@, element: t }])
            &&& e.kind matches ExprKind::OptValue { .. } ==> can == Ok::<Seq<TrapKindV>, ErrV>(
                seq![TrapKindV::OptionValue(t)],
            )
            &&& e.kind matches ExprKind::OptTake { option, .. } ==> can == Ok::<
                Seq<TrapKindV>,
                ErrV,
            >(seq![TrapKindV::OptionTake { option: option@, payload: t }])
            &&& e.kind matches ExprKind::Call { callee, .. } ==> can == Ok::<Seq<TrapKindV>, ErrV>(
                seq![TrapKindV::FunctionCall { callee: callee@, result: t }],
            )
            &&& e.kind matches ExprKind::CtorCall { class, init, .. } ==> can == Ok::<
                Seq<TrapKindV>,
                ErrV,
            >(seq![TrapKindV::ConstructorCall { class: class@, initializer: init@, result: t }])
            &&& e.kind matches ExprKind::MethodCall { recv, method, .. } ==> can == Ok::<
                Seq<TrapKindV>,
                ErrV,
            >(seq![TrapKindV::MethodCall { receiver: recv@, method: method@, result: t }])
            &&& e.kind is IntLit || e.kind is BoolLit || e.kind is Var || e.kind is Widen
                || e.kind is IsSome || e.kind is SomeE || e.kind is NoneE || e.kind is Len
                || e.kind is Borrow || e.kind is SelfField || e.kind is ClassField
                || e.kind is RecordField || e.kind is RecordLit ==> can == Ok::<
                Seq<TrapKindV>,
                ErrV,
            >(Seq::empty())
        }),
{
}

/// A negation and a narrowing can trap by their own range: exactly where the value cannot be given.
pub proof fn law_conversions_can_trap(e: Expr, t: IntTy, v: i128, source: Seq<char>)
    requires
        e.ty == Some(Ty::Int(t)),
        !(t is TParam),
    ensures
        e.kind matches ExprKind::Unary { op: UnOp::Neg, .. } ==> expr_trap_kinds(e) == Ok::<
            Seq<TrapKindV>,
            ErrV,
        >(seq![TrapKindV::NegOverflow(t)]),
        e.kind matches ExprKind::Unary { op: UnOp::Not, .. } ==> expr_trap_kinds(e) == Ok::<
            Seq<TrapKindV>,
            ErrV,
        >(Seq::empty()),
        e.kind matches ExprKind::Narrow { target, arg } ==> (arg.ty matches Some(Ty::Int(from)) ==> (
        !(from is TParam) ==> expr_trap_kinds(e) == Ok::<Seq<TrapKindV>, ErrV>(
            seq![TrapKindV::NarrowRange { source: from, target }],
        ))),
{
}

/// An assertion, a store, a deallocation and a mutable exposure can each trap in one way; a loop by
/// each of its invariants, in order, and by its measure in two.
pub proof fn law_statements_can_trap(p: PlanV, scope: ScopeId, s: Stmt, i: int)
    ensures
        s matches Stmt::Assert(clause) ==> stmt_traps(p, scope, s) == Ok::<Seq<TrapKeyV>, ErrV>(
            seq![
                TrapKeyV { scope, span: clause.span, kind: TrapKindV::InlineAssert(clause.text@) },
            ],
        ),
        s matches Stmt::While { invariants, variant, .. } ==> {
            &&& stmt_traps(p, scope, s) matches Ok(keys)
            &&& keys.len() == invariants@.len() + (if variant is Some {
                2int
            } else {
                0int
            })
            &&& 0 <= i < invariants@.len() ==> keys[i] == (TrapKeyV {
                scope,
                span: invariants@[i].span,
                kind: TrapKindV::LoopInvariant(invariants@[i].text@),
            })
            &&& variant matches Some(v) ==> {
                &&& keys[invariants@.len() as int].kind == TrapKindV::LoopVariantNegative(v.text@)
                &&& keys[invariants@.len() as int + 1].kind == TrapKindV::LoopVariantNonDecrease(
                    v.text@,
                )
                &&& keys.last().span == v.span
            }
        },
        s matches Stmt::SystemDealloc { kw_span, .. } ==> stmt_traps(p, scope, s) == Ok::<
            Seq<TrapKeyV>,
            ErrV,
        >(seq![TrapKeyV { scope, span: kw_span, kind: TrapKindV::SystemDealloc }]),
        s matches Stmt::Store { array, array_span, value, .. } ==> (value.ty matches Some(t)
            ==> stmt_traps(p, scope, s) == Ok::<Seq<TrapKeyV>, ErrV>(
            seq![
                TrapKeyV {
                    scope,
                    span: array_span,
                    kind: TrapKindV::ArrayStore { array: array@, element: t },
                },
            ],
        )),
        s is Decl || s is VarDecl || s is Assign || s is If || s is Return || s is ExprStmt || s
            is FieldAssign || s is Unsafe || s is StaticAlloc || s is SystemAlloc ==> stmt_traps(
            p,
            scope,
            s,
        ) == Ok::<Seq<TrapKeyV>, ErrV>(Seq::empty()),
{
    match s {
        Stmt::While { invariants, variant, .. } => {
            let a = invariant_traps(scope, invariants@);
            let b = variant_traps(scope, variant);
            let keys = a + b;
            if 0 <= i < invariants@.len() {
                assert(keys[i] == a[i]);
            }
            if variant is Some {
                assert(keys[a.len() as int] == b[0]);
                assert(keys[a.len() as int + 1] == b[1]);
            }
        },
        _ => {},
    }
}

/// The traps of an expression are planned in its scope, one by one and in order.
pub proof fn law_traps_are_planned_in_their_scope(scope: ScopeId, direct: Seq<DirectV>, i: int)
    ensures
        in_scope(scope, direct).len() == direct.len(),
        0 <= i < direct.len() ==> in_scope(scope, direct)[i] == (TrapKeyV {
            scope,
            span: direct[i].span,
            kind: direct[i].kind,
        }),
{
}

// ------------------------------------------------------------------------------------------
// Destruction
// ------------------------------------------------------------------------------------------

/// An object is destroyed by its own class, an array of plain elements is released with its own
/// element type, and an owning option destroys what it holds by the recipe of its payload.
pub proof fn law_owners_have_their_own_recipe(ty: Ty, span: Span)
    ensures
        ty matches Ty::Class(class) ==> (drop_action_of(ty, span) matches Ok(Some(a)) && (
        a.recipe matches RecipeV::DropClass(ca) && ca.class == class)),
        ty matches Ty::Array(element) ==> (!element.affine() ==> (drop_action_of(
            ty,
            span,
        ) matches Ok(Some(a)) && a.recipe == (RecipeV::ReleaseArray { element: *element }))),
        ty matches Ty::Array(element) ==> (element.affine() ==> drop_action_of(ty, span) is Err),
        ty matches Ty::Option(payload) ==> (*payload is Class ==> (drop_action_of(
            ty,
            span,
        ) matches Ok(Some(a)) && (a.recipe matches RecipeV::DropPresent(inner) && drop_action_of(
            *payload,
            span,
        ) == Ok::<Option<ActionV>, ErrV>(Some(*inner))))),
        ty is Slots ==> drop_action_of(ty, span) is Err,
        ty is Int || ty is Bool || ty is Unit || ty is Record ==> drop_action_of(ty, span) == Ok::<
            Option<ActionV>,
            ErrV,
        >(None),
{
}

// ------------------------------------------------------------------------------------------
// What the interpreter takes
// ------------------------------------------------------------------------------------------

proof fn lemma_fns(fns: Seq<FnDecl>, i: nat)
    requires
        i <= fns.len(),
    ensures
        fns_gate(fns, i) is Ok <==> (forall|k: int|
            i <= k < fns.len() ==> fn_gate(#[trigger] fns[k]) is Ok),
    decreases fns.len() - i,
{
    if i < fns.len() {
        lemma_fns(fns, i + 1);
        if fns_gate(fns, i) is Ok {
            assert forall|k: int| i <= k < fns.len() implies fn_gate(#[trigger] fns[k]) is Ok by {
                if k > i {
                    assert(i + 1 <= k);
                }
            }
        }
    }
}

proof fn lemma_methods(c: ClassDecl, i: nat)
    requires
        i <= c.methods@.len(),
    ensures
        methods_gate(c, i) is Ok <==> (forall|k: int|
            i <= k < c.methods@.len() ==> fn_gate((#[trigger] c.methods@[k]).f) is Ok),
    decreases c.methods@.len() - i,
{
    if i < c.methods@.len() {
        lemma_methods(c, i + 1);
        if methods_gate(c, i) is Ok {
            assert forall|k: int| i <= k < c.methods@.len() implies fn_gate(
                (#[trigger] c.methods@[k]).f,
            ) is Ok by {
                if k > i {
                    assert(i + 1 <= k);
                }
            }
        }
    }
}

/// The type of the field can be held in an object.
pub open spec fn holdable(c: ClassDecl, k: int) -> bool {
    class_field_ty_gate(
        c.fields@[k].ty,
        "field `"@ + c.name@ + "."@ + c.fields@[k].name@ + "`"@,
    ) is Ok
}

proof fn lemma_fields(c: ClassDecl, i: nat)
    requires
        i <= c.fields@.len(),
    ensures
        class_fields_gate(c, i) is Ok <==> (forall|k: int|
            i <= k < c.fields@.len() ==> #[trigger] holdable(c, k)),
    decreases c.fields@.len() - i,
{
    if i < c.fields@.len() {
        lemma_fields(c, i + 1);
        if class_fields_gate(c, i) is Ok {
            assert forall|k: int| i <= k < c.fields@.len() implies #[trigger] holdable(c, k) by {
                if k > i {
                    assert(i + 1 <= k);
                }
            }
        } else if forall|k: int| i <= k < c.fields@.len() ==> #[trigger] holdable(c, k) {
            assert(holdable(c, i as int));
            assert forall|k: int| i + 1 <= k < c.fields@.len() implies #[trigger] holdable(c, k) by {}
        }
    }
}

/// The class passes: its fields, initializers, methods and deinitializer all do.
pub proof fn law_classes_pass_with_all_members(c: ClassDecl)
    ensures
        class_gate(c) is Ok <==> {
            &&& forall|k: int| 0 <= k < c.fields@.len() ==> #[trigger] holdable(c, k)
            &&& forall|k: int| 0 <= k < c.inits@.len() ==> fn_gate(#[trigger] c.inits@[k]) is Ok
            &&& forall|k: int|
                0 <= k < c.methods@.len() ==> fn_gate((#[trigger] c.methods@[k]).f) is Ok
            &&& c.deinit matches Some(body) ==> stmts_gate(body@, 0, Seq::empty()).0 is Ok
        },
{
    lemma_fields(c, 0);
    lemma_fns(c.inits@, 0);
    lemma_methods(c, 0);
}

proof fn lemma_classes(classes: Seq<ClassDecl>, i: nat)
    requires
        i <= classes.len(),
    ensures
        classes_gate(classes, i) is Ok <==> (forall|k: int|
            i <= k < classes.len() ==> class_gate(#[trigger] classes[k]) is Ok),
    decreases classes.len() - i,
{
    if i < classes.len() {
        lemma_classes(classes, i + 1);
        if classes_gate(classes, i) is Ok {
            assert forall|k: int| i <= k < classes.len() implies class_gate(
                #[trigger] classes[k],
            ) is Ok by {
                if k > i {
                    assert(i + 1 <= k);
                }
            }
        }
    }
}

proof fn lemma_records(records: Seq<RecordDecl>, i: nat)
    requires
        i <= records.len(),
    ensures
        records_gate(records, i) is Ok <==> (forall|k: int|
            i <= k < records.len() ==> record_gate(#[trigger] records[k], 0) is Ok),
    decreases records.len() - i,
{
    if i < records.len() {
        lemma_records(records, i + 1);
        if records_gate(records, i) is Ok {
            assert forall|k: int| i <= k < records.len() implies record_gate(
                #[trigger] records[k],
                0,
            ) is Ok by {
                if k > i {
                    assert(i + 1 <= k);
                }
            }
        }
    }
}

/// The interpreter takes a program exactly where it takes every function, every class and every
/// record of it: one that it does not take is enough to refuse the whole.
pub proof fn law_programs_pass_with_all_parts(p: Program)
    ensures
        program_gate(p) is Ok <==> {
            &&& forall|k: int| 0 <= k < p.fns@.len() ==> fn_gate(#[trigger] p.fns@[k]) is Ok
            &&& forall|k: int| 0 <= k < p.classes@.len() ==> class_gate(#[trigger] p.classes@[k]) is Ok
            &&& forall|k: int|
                0 <= k < p.records@.len() ==> record_gate(#[trigger] p.records@[k], 0) is Ok
        },
{
    lemma_fns(p.fns@, 0);
    lemma_classes(p.classes@, 0);
    lemma_records(p.records@, 0);
}

/// A function passes where its parameters, its result and its body do.
pub proof fn law_functions_pass_with_all_parts(f: FnDecl)
    ensures
        fn_gate(f) is Ok <==> {
            &&& params_gate(f, 0, Seq::empty()) is Ok
            &&& return_ty_gate(f.ret, "return type of `"@ + f.name@ + "`"@) is Ok
            &&& stmts_gate(f.body@, 0, params_gate(f, 0, Seq::empty())->Ok_0).0 is Ok
        },
{
}

/// Which types pass where. Integers, truth values and the unit pass everywhere; a type parameter and
/// owner slots pass nowhere; a returned borrow, and an owning option outside a local, do not pass.
pub proof fn law_types_pass_by_position(ty: Ty, context: Seq<char>)
    ensures
        ty matches Ty::Int(t) ==> (!(t is TParam) ==> param_ty_gate(ty, context) is Ok
            && return_ty_gate(ty, context) is Ok && field_ty_gate(ty, context) is Ok
            && class_field_ty_gate(ty, context) is Ok),
        ty is Bool || ty is Unit ==> param_ty_gate(ty, context) is Ok && return_ty_gate(ty, context)
            is Ok && field_ty_gate(ty, context) is Ok && class_field_ty_gate(ty, context) is Ok,
        ty is Param || ty is Slots || (ty matches Ty::Int(t) && t is TParam) ==> param_ty_gate(
            ty,
            context,
        ) is Err && return_ty_gate(ty, context) is Err && field_ty_gate(ty, context) is Err
            && class_field_ty_gate(ty, context) is Err,
        ty is Borrow ==> return_ty_gate(ty, context) is Err,
        ty.affine_option() ==> param_ty_gate(ty, context) is Err && return_ty_gate(ty, context) is Err
            && field_ty_gate(ty, context) is Err && class_field_ty_gate(ty, context) is Err,
        ty is Option && !ty.affine_option() ==> field_ty_gate(ty, context) is Err,
        ty == Ty::Array(Box::new(Ty::Bool)) ==> class_field_ty_gate(ty, context) is Ok,
{
}

// ------------------------------------------------------------------------------------------
// Lookups
// ------------------------------------------------------------------------------------------

proof fn lemma_site(ids: Seq<SiteEntry>, key: SiteKey, i: nat)
    ensures
        site_from(ids, key, i) matches Some(index) ==> exists|k: int|
            i <= k < ids.len() && (#[trigger] ids[k]) == (SiteEntry { key, index }),
        site_from(ids, key, i) is None ==> forall|k: int|
            i <= k < ids.len() ==> (#[trigger] ids[k]).key != key,
    decreases ids.len() - i,
{
    if i < ids.len() {
        if ids[i as int].key == key {
            assert(ids[i as int] == (SiteEntry { key, index: ids[i as int].index }));
        } else {
            lemma_site(ids, key, i + 1);
        }
    }
}

/// What a plan gives for a branch, a loop, an exposure and an assignment is the one that it holds for
/// that scope and that place, and agrees with the source that asks for it.
pub proof fn law_plans_give_the_site_asked_for(
    p: PlanV,
    scope: ScopeId,
    span: Span,
    at: Span,
    has_else: bool,
    destination: PlaceV,
)
    ensures
        p.branch(scope, span, has_else) matches Ok(b) ==> {
            &&& exists|k: int|
                0 <= k < p.branch_ids.len() && (#[trigger] p.branch_ids[k]).key == (SiteKey {
                    scope,
                    span,
                }) && b == p.branches[p.branch_ids[k].index as int]
            &&& b.else_arm is Some <==> has_else
        },
        p.loop_plan(scope, span, at) matches Ok(l) ==> {
            &&& exists|k: int|
                0 <= k < p.loop_ids.len() && (#[trigger] p.loop_ids[k]).key == (SiteKey {
                    scope,
                    span,
                }) && l == p.loops[p.loop_ids[k].index as int]
            &&& l.condition_span == at
        },
        p.exposure_plan(scope, span) matches Ok(x) ==> exists|k: int|
            0 <= k < p.exposure_ids.len() && (#[trigger] p.exposure_ids[k]).key == (SiteKey {
                scope,
                span,
            }) && x == p.exposures[p.exposure_ids[k].index as int],
        p.assignment(scope, span, destination) matches Ok(a) ==> {
            &&& exists|k: int|
                0 <= k < p.assignment_ids.len() && (#[trigger] p.assignment_ids[k]).key == (SiteKey {
                    scope,
                    span,
                }) && a == p.assignments[p.assignment_ids[k].index as int]
            &&& a.destination == destination
        },
        p.explicit_return(span, scope) is Ok <==> p.return_sites.contains(SiteKey { scope, span }),
{
    let key = SiteKey { scope, span };
    lemma_site(p.branch_ids, key, 0);
    lemma_site(p.loop_ids, key, 0);
    lemma_site(p.exposure_ids, key, 0);
    lemma_site(p.assignment_ids, key, 0);
}

} // verus!
