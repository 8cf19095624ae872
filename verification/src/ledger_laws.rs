//! What the ledger of a body owes to the parameters: the frame's part of it begins with them, and
//! nothing else depends on them. A plan therefore accepts its own parameters and no others.
use vstd::prelude::*;

use crate::ast::{Expr, ExprKind, IntTy, Param, ResKind, Stmt, Ty};
use crate::builder::literal_elements;
use crate::drops::ErrV;
use crate::inventory::{
    inv_expr, inv_exprs, inv_from, inv_inner, inv_stmt, root_inventory, CollectedV, InventoryV,
    LedgerV,
};
use crate::lookup::{expr_trap_keys, scope_at, scope_from, stmt_traps};
use crate::outline::{BranchArm, OutlineV, ScopeId, ScopeKind};
use crate::place::local_place;
use crate::plan::{BindingV, CompilerTempKey, CompilerTempKind, PlanV, ScopeEntry, StagingV};
use crate::seal::sealed;
use crate::span::Span;

verus! {

/// Two beginnings of the ledger of a frame, in inventories with `n` ledgers.
pub ghost struct Fork {
    pub frame: int,
    pub n: nat,
    pub x: LedgerV,
    pub y: LedgerV,
}

/// The ledger `a` goes on from `x` as `b` goes on from `y`.
pub open spec fn goes_on(a: LedgerV, b: LedgerV, x: LedgerV, y: LedgerV) -> bool {
    exists|s: LedgerV|
        {
            &&& a.locals == x.locals + s.locals
            &&& b.locals == y.locals + s.locals
            &&& a.bindings == x.bindings + s.bindings
            &&& #[trigger] (y.bindings + s.bindings) == b.bindings
        }
}

/// The ledgers agree but for the two beginnings.
#[verifier::opaque]
pub open spec fn forked(a: Seq<LedgerV>, b: Seq<LedgerV>, f: Fork) -> bool {
    &&& a.len() == f.n
    &&& b.len() == f.n
    &&& 0 <= f.frame < f.n
    &&& forall|i: int| 0 <= i < f.n && i != f.frame ==> a[i] == #[trigger] b[i]
    &&& goes_on(a[f.frame], b[f.frame], f.x, f.y)
}

/// The inventories agree but for the two beginnings.
pub open spec fn twins(a: InventoryV, b: InventoryV, f: Fork) -> bool {
    &&& (InventoryV { ledgers: a.ledgers, ..b }) == a
    &&& forked(a.ledgers, b.ledgers, f)
}

/// Two collections end alike and leave twins.
pub open spec fn alike(a: CollectedV, b: CollectedV, f: Fork) -> bool {
    a.0 == b.0 && twins(a.1, b.1, f)
}

proof fn lemma_binding(
    a: InventoryV,
    b: InventoryV,
    f: Fork,
    scope: ScopeId,
    name: Seq<char>,
    ty: Ty,
    span: Span,
)
    requires
        twins(a, b, f),
        scope.0 < f.n,
    ensures
        twins(a.with_binding(scope, name, ty, span), b.with_binding(scope, name, ty, span), f),
{
    reveal(forked);
    let place = local_place(name);
    let entry = BindingV { place, ty, span };
    if scope.0 == f.frame {
        let (la, lb) = (a.ledgers[f.frame], b.ledgers[f.frame]);
        let s = choose|s: LedgerV|
            {
                &&& la.locals == f.x.locals + s.locals
                &&& lb.locals == f.y.locals + s.locals
                &&& la.bindings == f.x.bindings + s.bindings
                &&& #[trigger] (f.y.bindings + s.bindings) == lb.bindings
            };
        let t = LedgerV { locals: s.locals.push(place), bindings: s.bindings.push(entry) };
        assert(la.locals.push(place) =~= f.x.locals + t.locals);
        assert(lb.locals.push(place) =~= f.y.locals + t.locals);
        assert(la.bindings.push(entry) =~= f.x.bindings + t.bindings);
        assert(f.y.bindings + t.bindings =~= lb.bindings.push(entry));
    } else {
        assert(a.ledgers[scope.0 as int] == b.ledgers[scope.0 as int]);
    }
}

proof fn lemma_pair(
    a: InventoryV,
    b: InventoryV,
    f: Fork,
    scope: ScopeId,
    ptr: Seq<char>,
    ptr_span: Span,
    res: Seq<char>,
    res_span: Span,
)
    requires
        twins(a, b, f),
        scope.0 < f.n,
    ensures
        twins(
            a.with_raw_pair(scope, ptr, ptr_span, res, res_span),
            b.with_raw_pair(scope, ptr, ptr_span, res, res_span),
            f,
        ),
{
    let raw = Ty::Raw(IntTy::U8);
    lemma_binding(a, b, f, scope, ptr, raw, ptr_span);
    lemma_binding(
        a.with_binding(scope, ptr, raw, ptr_span),
        b.with_binding(scope, ptr, raw, ptr_span),
        f,
        scope,
        res,
        Ty::Res(ResKind::RawSpan),
        res_span,
    );
}

proof fn lemma_temp(
    p: PlanV,
    a: InventoryV,
    b: InventoryV,
    f: Fork,
    key: CompilerTempKey,
    clear_with_scope: bool,
)
    requires
        twins(a, b, f),
        key.scope.0 < f.n,
    ensures
        p.meet_temp(a, key, clear_with_scope).0 == p.meet_temp(b, key, clear_with_scope).0,
        twins(
            p.meet_temp(a, key, clear_with_scope).1,
            p.meet_temp(b, key, clear_with_scope).1,
            f,
        ),
{
    match p.compiler_temp(key.scope, key.anchor, key.kind) {
        Ok(place) => {
            if clear_with_scope {
                reveal(forked);
                if key.scope.0 == f.frame {
                    let (la, lb) = (a.ledgers[f.frame], b.ledgers[f.frame]);
                    let s = choose|s: LedgerV|
                        {
                            &&& la.locals == f.x.locals + s.locals
                            &&& lb.locals == f.y.locals + s.locals
                            &&& la.bindings == f.x.bindings + s.bindings
                            &&& #[trigger] (f.y.bindings + s.bindings) == lb.bindings
                        };
                    let t = LedgerV { locals: s.locals.push(place), bindings: s.bindings };
                    assert(la.locals.push(place) =~= f.x.locals + t.locals);
                    assert(lb.locals.push(place) =~= f.y.locals + t.locals);
                    assert(f.y.bindings + t.bindings =~= lb.bindings);
                } else {
                    assert(a.ledgers[key.scope.0 as int] == b.ledgers[key.scope.0 as int]);
                }
            }
        },
        Err(_) => {},
    }
}

proof fn lemma_literal(
    p: PlanV,
    a: InventoryV,
    b: InventoryV,
    f: Fork,
    scope: ScopeId,
    span: Span,
    i: nat,
    n: nat,
)
    requires
        twins(a, b, f),
        scope.0 < f.n,
    ensures
        alike(p.meet_literal(a, scope, span, i, n), p.meet_literal(b, scope, span, i, n), f),
    decreases n - i,
{
    if i < n {
        let key = CompilerTempKey {
            scope,
            anchor: span,
            kind: CompilerTempKind::BoolLiteralElement(i as usize),
        };
        lemma_temp(p, a, b, f, key, true);
        let (ra, rb) = (p.meet_temp(a, key, true), p.meet_temp(b, key, true));
        if ra.0 is Ok {
            lemma_literal(p, ra.1, rb.1, f, scope, span, i + 1, n);
        }
    }
}

proof fn lemma_initializer(
    p: PlanV,
    a: InventoryV,
    b: InventoryV,
    f: Fork,
    scope: ScopeId,
    ty: Ty,
    init: Option<Expr>,
)
    requires
        twins(a, b, f),
        scope.0 < f.n,
    ensures
        alike(p.meet_initializer(a, scope, ty, init), p.meet_initializer(b, scope, ty, init), f),
{
    match literal_elements(ty, init) {
        Some((span, n)) => lemma_literal(p, a, b, f, scope, span, 0, n),
        None => {},
    }
}

proof fn lemma_staging(
    p: PlanV,
    a: InventoryV,
    b: InventoryV,
    f: Fork,
    staging: StagingV,
    key: CompilerTempKey,
    refusal: Seq<char>,
)
    requires
        twins(a, b, f),
        key.scope.0 < f.n,
    ensures
        alike(
            p.meet_staging(a, staging, key, refusal),
            p.meet_staging(b, staging, key, refusal),
            f,
        ),
{
    lemma_temp(p, a, b, f, key, false);
}

proof fn lemma_assignment(
    p: PlanV,
    a: InventoryV,
    b: InventoryV,
    f: Fork,
    scope: ScopeId,
    name: Seq<char>,
    span: Span,
    value: Expr,
)
    requires
        twins(a, b, f),
        scope.0 < f.n,
    ensures
        alike(
            p.meet_assignment(a, scope, name, span, value),
            p.meet_assignment(b, scope, name, span, value),
            f,
        ),
{
    let key = crate::plan::SiteKey { scope, span };
    let a1 = InventoryV { assignments: a.assignments.push(key), ..a };
    let b1 = InventoryV { assignments: b.assignments.push(key), ..b };
    let temp = CompilerTempKey { scope, anchor: span, kind: CompilerTempKind::AssignmentValue };
    match p.assignment(scope, span, local_place(name)) {
        Ok(action) => lemma_staging(
            p,
            a1,
            b1,
            f,
            action.staging,
            temp,
            "assignment staging place no longer matches its compiler temporary"@,
        ),
        Err(_) => {},
    }
}

proof fn lemma_field_assignment(
    p: PlanV,
    a: InventoryV,
    b: InventoryV,
    f: Fork,
    scope: ScopeId,
    field: Seq<char>,
    span: Span,
    value: Expr,
)
    requires
        twins(a, b, f),
        scope.0 < f.n,
    ensures
        alike(
            p.meet_field_assignment(a, scope, field, span, value),
            p.meet_field_assignment(b, scope, field, span, value),
            f,
        ),
{
    let key = crate::plan::SiteKey { scope, span };
    let a1 = InventoryV { field_assignments: a.field_assignments.push(key), ..a };
    let b1 = InventoryV { field_assignments: b.field_assignments.push(key), ..b };
    let temp = CompilerTempKey {
        scope,
        anchor: span,
        kind: CompilerTempKind::FieldAssignmentValue,
    };
    let place = crate::place::field_place("self"@, field);
    match p.field_assignment(scope, span, place, value) {
        Ok(action) => lemma_staging(
            p,
            a1,
            b1,
            f,
            action.staging,
            temp,
            "field-assignment staging place no longer matches its compiler temporary"@,
        ),
        Err(_) => {},
    }
}

proof fn lemma_return(
    p: PlanV,
    a: InventoryV,
    b: InventoryV,
    f: Fork,
    scope: ScopeId,
    span: Span,
    has_value: bool,
)
    requires
        twins(a, b, f),
        scope.0 < f.n,
    ensures
        alike(
            p.meet_return(a, scope, span, has_value),
            p.meet_return(b, scope, span, has_value),
            f,
        ),
{
    let key = crate::plan::SiteKey { scope, span };
    let a1 = InventoryV { returns: a.returns.push(key), ..a };
    let b1 = InventoryV { returns: b.returns.push(key), ..b };
    let temp = CompilerTempKey { scope, anchor: span, kind: CompilerTempKind::ReturnValue };
    lemma_temp(p, a1, b1, f, temp, false);
}

proof fn lemma_discard(
    p: PlanV,
    a: InventoryV,
    b: InventoryV,
    f: Fork,
    scope: ScopeId,
    e: Expr,
)
    requires
        twins(a, b, f),
        scope.0 < f.n,
    ensures
        alike(p.meet_discard(a, scope, e), p.meet_discard(b, scope, e), f),
{
    let key = crate::plan::SiteKey { scope, span: e.span };
    let a1 = InventoryV { temporary_drops: a.temporary_drops.push(key), ..a };
    let b1 = InventoryV { temporary_drops: b.temporary_drops.push(key), ..b };
    let temp = CompilerTempKey {
        scope,
        anchor: e.span,
        kind: CompilerTempKind::DiscardedClassValue,
    };
    lemma_temp(p, a1, b1, f, temp, false);
}

proof fn lemma_exposure(
    p: PlanV,
    a: InventoryV,
    b: InventoryV,
    f: Fork,
    child: ScopeId,
    kw_span: Span,
    ptr: Seq<char>,
    ptr_span: Span,
    res: Seq<char>,
    res_span: Span,
)
    requires
        twins(a, b, f),
        child.0 < f.n,
    ensures
        alike(
            p.meet_exposure(a, child, kw_span, ptr, ptr_span, res, res_span),
            p.meet_exposure(b, child, kw_span, ptr, ptr_span, res, res_span),
            f,
        ),
{
    lemma_pair(a, b, f, child, ptr, ptr_span, res, res_span);
    let a1 = a.with_raw_pair(child, ptr, ptr_span, res, res_span);
    let b1 = b.with_raw_pair(child, ptr, ptr_span, res, res_span);
    let loan = CompilerTempKey {
        scope: child,
        anchor: kw_span,
        kind: CompilerTempKind::ExposureLoan,
    };
    lemma_temp(p, a1, b1, f, loan, false);
    let (a2, b2) = (p.meet_temp(a1, loan, false).1, p.meet_temp(b1, loan, false).1);
    let index = CompilerTempKey {
        scope: child,
        anchor: kw_span,
        kind: CompilerTempKind::ExposureIndex,
    };
    lemma_temp(p, a2, b2, f, index, false);
    let (a3, b3) = (p.meet_temp(a2, index, false).1, p.meet_temp(b2, index, false).1);
    let byte = CompilerTempKey {
        scope: child,
        anchor: kw_span,
        kind: CompilerTempKind::ExposureByte,
    };
    lemma_temp(p, a3, b3, f, byte, false);
}

proof fn lemma_expr(a: InventoryV, b: InventoryV, f: Fork, e: Expr, scope: ScopeId)
    requires
        twins(a, b, f),
    ensures
        alike(inv_expr(a, e, scope), inv_expr(b, e, scope), f),
    decreases e, 0nat,
{
    match expr_trap_keys(scope, e) {
        Err(_) => {},
        Ok(keys) => {
            let (a, b) = (a.with_traps(keys), b.with_traps(keys));
            assert(twins(a, b, f));
            match e.kind {
                ExprKind::Unary { operand, .. } => lemma_expr(a, b, f, *operand, scope),
                ExprKind::Widen { arg, .. } => lemma_expr(a, b, f, *arg, scope),
                ExprKind::Narrow { arg, .. } => lemma_expr(a, b, f, *arg, scope),
                ExprKind::IsSome { operand } => lemma_expr(a, b, f, *operand, scope),
                ExprKind::OptValue { operand } => lemma_expr(a, b, f, *operand, scope),
                ExprKind::SomeE(operand) => lemma_expr(a, b, f, *operand, scope),
                ExprKind::Binary { lhs, rhs, .. } => {
                    lemma_expr(a, b, f, *lhs, scope);
                    let (ra, rb) = (inv_expr(a, *lhs, scope), inv_expr(b, *lhs, scope));
                    lemma_expr(ra.1, rb.1, f, *rhs, scope);
                },
                ExprKind::Call { args, .. } => lemma_exprs(a, b, f, args@, 0, scope),
                ExprKind::RawOp { args, .. } => lemma_exprs(a, b, f, args@, 0, scope),
                ExprKind::DeviceOp { args, .. } => lemma_exprs(a, b, f, args@, 0, scope),
                ExprKind::ResOp { args, .. } => lemma_exprs(a, b, f, args@, 0, scope),
                ExprKind::CtorCall { args, .. } => lemma_exprs(a, b, f, args@, 0, scope),
                ExprKind::TraitCall { args, .. } => lemma_exprs(a, b, f, args@, 0, scope),
                ExprKind::MethodCall { args, .. } => lemma_exprs(a, b, f, args@, 0, scope),
                ExprKind::RecordLit { args, .. } => lemma_exprs(a, b, f, args@, 0, scope),
                ExprKind::ArrayLit(args) => lemma_exprs(a, b, f, args@, 0, scope),
                ExprKind::SlotOp { args, .. } => lemma_exprs(a, b, f, args@, 0, scope),
                ExprKind::Index { index, .. } => lemma_expr(a, b, f, *index, scope),
                ExprKind::SelfFieldIndex { index, .. } => lemma_expr(a, b, f, *index, scope),
                ExprKind::ClassFieldIndex { index, .. } => lemma_expr(a, b, f, *index, scope),
                ExprKind::AllocArray { len, init, .. } => {
                    lemma_expr(a, b, f, *len, scope);
                    let (ra, rb) = (inv_expr(a, *len, scope), inv_expr(b, *len, scope));
                    lemma_expr(ra.1, rb.1, f, *init, scope);
                },
                _ => {},
            }
        },
    }
}

proof fn lemma_exprs(
    a: InventoryV,
    b: InventoryV,
    f: Fork,
    s: Seq<Expr>,
    i: nat,
    scope: ScopeId,
)
    requires
        twins(a, b, f),
    ensures
        alike(inv_exprs(a, s, i, scope), inv_exprs(b, s, i, scope), f),
    decreases s, s.len() - i,
{
    if i < s.len() {
        lemma_expr(a, b, f, s[i as int], scope);
        let (ra, rb) = (inv_expr(a, s[i as int], scope), inv_expr(b, s[i as int], scope));
        if ra.0 is Ok {
            lemma_exprs(ra.1, rb.1, f, s, i + 1, scope);
        }
    }
}

proof fn lemma_after(ra: CollectedV, rb: CollectedV, f: Fork, e: Expr, scope: ScopeId)
    requires
        alike(ra, rb, f),
    ensures
        alike(
            crate::inventory::inv_after(ra, e, scope),
            crate::inventory::inv_after(rb, e, scope),
            f,
        ),
{
    lemma_expr(ra.1, rb.1, f, e, scope);
}

proof fn lemma_two(a: InventoryV, b: InventoryV, f: Fork, e1: Expr, e2: Expr, scope: ScopeId)
    requires
        twins(a, b, f),
    ensures
        alike(
            crate::inventory::inv_two(a, e1, e2, scope),
            crate::inventory::inv_two(b, e1, e2, scope),
            f,
        ),
{
    lemma_expr(a, b, f, e1, scope);
    lemma_expr(inv_expr(a, e1, scope).1, inv_expr(b, e1, scope).1, f, e2, scope);
}

proof fn lemma_entered(ids: Seq<ScopeEntry>, kind: ScopeKind, anchor: Span, i: nat, n: nat)
    requires
        forall|k: int| 0 <= k < ids.len() ==> (#[trigger] ids[k]).id.0 < n,
    ensures
        scope_from(ids, kind, anchor, i) matches Some(id) ==> id.0 < n,
    decreases ids.len() - i,
{
    if i < ids.len() {
        lemma_entered(ids, kind, anchor, i + 1, n);
    }
}

/// Collecting statements into twins leaves twins.
proof fn lemma_statements(
    p: PlanV,
    a: InventoryV,
    b: InventoryV,
    f: Fork,
    s: Seq<Stmt>,
    i: nat,
    scope: ScopeId,
)
    requires
        p.wf(),
        f.n == p.scopes.len(),
        twins(a, b, f),
        scope.0 < f.n,
    ensures
        alike(inv_from(p, a, s, i, scope), inv_from(p, b, s, i, scope), f),
    decreases s, s.len() - i,
{
    if i < s.len() {
        lemma_statement(p, a, b, f, s[i as int], scope);
        let (ra, rb) = (inv_stmt(p, a, s[i as int], scope), inv_stmt(p, b, s[i as int], scope));
        if ra.0 is Ok {
            lemma_statements(p, ra.1, rb.1, f, s, i + 1, scope);
        }
    }
}

proof fn lemma_statement(
    p: PlanV,
    a: InventoryV,
    b: InventoryV,
    f: Fork,
    s: Stmt,
    scope: ScopeId,
)
    requires
        p.wf(),
        f.n == p.scopes.len(),
        twins(a, b, f),
        scope.0 < f.n,
    ensures
        alike(inv_stmt(p, a, s, scope), inv_stmt(p, b, s, scope), f),
    decreases s, 2nat,
{
    match stmt_traps(p, scope, s) {
        Err(_) => {},
        Ok(traps) => lemma_inner(p, a.with_traps(traps), b.with_traps(traps), f, s, scope),
    }
}

proof fn lemma_inner(p: PlanV, a: InventoryV, b: InventoryV, f: Fork, s: Stmt, scope: ScopeId)
    requires
        p.wf(),
        f.n == p.scopes.len(),
        twins(a, b, f),
        scope.0 < f.n,
    ensures
        alike(inv_inner(p, a, s, scope), inv_inner(p, b, s, scope), f),
    decreases s, 1nat,
{
    match s {
        Stmt::Decl { ty, name, name_span, init, .. } => {
            lemma_binding(a, b, f, scope, name@, ty, name_span);
            let a1 = a.with_binding(scope, name@, ty, name_span);
            let b1 = b.with_binding(scope, name@, ty, name_span);
            lemma_initializer(p, a1, b1, f, scope, ty, init);
            if let Some(e) = init {
                lemma_after(
                    p.meet_initializer(a1, scope, ty, init),
                    p.meet_initializer(b1, scope, ty, init),
                    f,
                    e,
                    scope,
                );
            }
        },
        Stmt::VarDecl { ty, name, name_span, init, .. } => {
            if let Some(t) = ty {
                lemma_binding(a, b, f, scope, name@, t, name_span);
                let a1 = a.with_binding(scope, name@, t, name_span);
                let b1 = b.with_binding(scope, name@, t, name_span);
                lemma_initializer(p, a1, b1, f, scope, t, Some(init));
                lemma_after(
                    p.meet_initializer(a1, scope, t, Some(init)),
                    p.meet_initializer(b1, scope, t, Some(init)),
                    f,
                    init,
                    scope,
                );
            }
        },
        Stmt::Assign { name, name_span, value } => {
            lemma_assignment(p, a, b, f, scope, name@, name_span, value);
            lemma_after(
                p.meet_assignment(a, scope, name@, name_span, value),
                p.meet_assignment(b, scope, name@, name_span, value),
                f,
                value,
                scope,
            );
        },
        Stmt::FieldAssign { field, field_span, value } => {
            lemma_field_assignment(p, a, b, f, scope, field@, field_span, value);
            lemma_after(
                p.meet_field_assignment(a, scope, field@, field_span, value),
                p.meet_field_assignment(b, scope, field@, field_span, value),
                f,
                value,
                scope,
            );
        },
        Stmt::Return { value, span } => {
            lemma_return(p, a, b, f, scope, span, value is Some);
            if let Some(e) = value {
                lemma_after(
                    p.meet_return(a, scope, span, true),
                    p.meet_return(b, scope, span, true),
                    f,
                    e,
                    scope,
                );
            }
        },
        Stmt::ExprStmt(e) => {
            lemma_discard(p, a, b, f, scope, e);
            lemma_after(p.meet_discard(a, scope, e), p.meet_discard(b, scope, e), f, e, scope);
        },
        Stmt::Assert(_) => {},
        Stmt::FieldStore { index, value, .. } => lemma_two(a, b, f, index, value, scope),
        Stmt::Store { index, value, .. } => lemma_two(a, b, f, index, value, scope),
        Stmt::StaticAlloc { size, ptr, ptr_span, res, res_span, .. } => {
            lemma_pair(a, b, f, scope, ptr@, ptr_span, res@, res_span);
            lemma_expr(
                a.with_raw_pair(scope, ptr@, ptr_span, res@, res_span),
                b.with_raw_pair(scope, ptr@, ptr_span, res@, res_span),
                f,
                size,
                scope,
            );
        },
        Stmt::SystemAlloc { size, ptr, ptr_span, res, res_span, release, release_span, .. } => {
            lemma_pair(a, b, f, scope, ptr@, ptr_span, res@, res_span);
            let a1 = a.with_raw_pair(scope, ptr@, ptr_span, res@, res_span);
            let b1 = b.with_raw_pair(scope, ptr@, ptr_span, res@, res_span);
            let ty = Ty::Res(ResKind::SystemDealloc);
            lemma_binding(a1, b1, f, scope, release@, ty, release_span);
            lemma_expr(
                a1.with_binding(scope, release@, ty, release_span),
                b1.with_binding(scope, release@, ty, release_span),
                f,
                size,
                scope,
            );
        },
        Stmt::SystemDealloc { ptr, res, release, .. } => {
            lemma_two(a, b, f, ptr, res, scope);
            lemma_after(
                crate::inventory::inv_two(a, ptr, res, scope),
                crate::inventory::inv_two(b, ptr, res, scope),
                f,
                release,
                scope,
            );
        },
        Stmt::Unsafe { body, .. } => lemma_statements(p, a, b, f, body@, 0, scope),
        Stmt::While { cond, kw_span, body, .. } => {
            lemma_expr(a, b, f, cond, scope);
            let (a1, b1) = (inv_expr(a, cond, scope).1, inv_expr(b, cond, scope).1);
            lemma_entered(p.scope_ids, ScopeKind::LoopBody, kw_span, 0, f.n);
            match (
                p.enter_scope(a1, ScopeKind::LoopBody, kw_span, scope),
                p.enter_scope(b1, ScopeKind::LoopBody, kw_span, scope),
            ) {
                ((Ok(child), a2), (_, b2)) => lemma_statements(p, a2, b2, f, body@, 0, child),
                _ => {},
            }
        },
        Stmt::Expose { kw_span, ptr, ptr_span, res, res_span, body, .. } => {
            lemma_entered(p.scope_ids, ScopeKind::Exposure, kw_span, 0, f.n);
            match (
                p.enter_scope(a, ScopeKind::Exposure, kw_span, scope),
                p.enter_scope(b, ScopeKind::Exposure, kw_span, scope),
            ) {
                ((Ok(child), a1), (_, b1)) => {
                    lemma_exposure(p, a1, b1, f, child, kw_span, ptr@, ptr_span, res@, res_span);
                    match (
                        p.meet_exposure(a1, child, kw_span, ptr@, ptr_span, res@, res_span),
                        p.meet_exposure(b1, child, kw_span, ptr@, ptr_span, res@, res_span),
                    ) {
                        ((Ok(_), a2), (_, b2)) => lemma_statements(
                            p,
                            a2,
                            b2,
                            f,
                            body@,
                            0,
                            child,
                        ),
                        _ => {},
                    }
                },
                _ => {},
            }
        },
        Stmt::If { .. } => lemma_branch(p, a, b, f, s, scope),
    }
}

proof fn lemma_branch(p: PlanV, a: InventoryV, b: InventoryV, f: Fork, s: Stmt, scope: ScopeId)
    requires
        s is If,
        p.wf(),
        f.n == p.scopes.len(),
        twins(a, b, f),
        scope.0 < f.n,
    ensures
        alike(inv_inner(p, a, s, scope), inv_inner(p, b, s, scope), f),
    decreases s, 0nat,
{
    match s {
        Stmt::If { cond, then_block, else_block } => {
            let then_kind = ScopeKind::BranchArm(BranchArm::Then);
            let else_kind = ScopeKind::BranchArm(BranchArm::Else);
            lemma_expr(a, b, f, cond, scope);
            let (a1, b1) = (inv_expr(a, cond, scope).1, inv_expr(b, cond, scope).1);
            lemma_entered(p.scope_ids, then_kind, cond.span, 0, f.n);
            lemma_entered(p.scope_ids, else_kind, cond.span, 0, f.n);
            match (
                p.enter_scope(a1, then_kind, cond.span, scope),
                p.enter_scope(b1, then_kind, cond.span, scope),
            ) {
                ((Ok(child), a2), (_, b2)) => {
                    lemma_statements(p, a2, b2, f, then_block@, 0, child);
                    let ra = inv_from(p, a2, then_block@, 0, child);
                    let rb = inv_from(p, b2, then_block@, 0, child);
                    match (else_block, scope_at(p.scope_ids, else_kind, cond.span)) {
                        (Some(block), Some(else_scope)) => match (
                            p.record_scope(ra.1, else_scope, else_kind, cond.span),
                            p.record_scope(rb.1, else_scope, else_kind, cond.span),
                        ) {
                            ((Ok(_), a3), (_, b3)) => lemma_statements(
                                p,
                                a3,
                                b3,
                                f,
                                block@,
                                0,
                                else_scope,
                            ),
                            _ => {},
                        },
                        _ => {},
                    }
                },
                _ => {},
            }
        },
        _ => {},
    }
}

// ------------------------------------------------------------------------------------------
// The parameters
// ------------------------------------------------------------------------------------------

/// What the parameters from `i` on enter into the ledger of the frame.
pub open spec fn ledger_of_params(params: Seq<Param>, i: nat) -> LedgerV
    decreases params.len() - i,
{
    if i >= params.len() {
        LedgerV { locals: Seq::empty(), bindings: Seq::empty() }
    } else {
        let p = params[i as int];
        let place = local_place(p.name@);
        let rest = ledger_of_params(params, i + 1);
        LedgerV {
            locals: seq![place] + rest.locals,
            bindings: seq![BindingV { place, ty: p.ty, span: p.span }] + rest.bindings,
        }
    }
}

proof fn lemma_params_entered(inv: InventoryV, frame: ScopeId, params: Seq<Param>, i: nat)
    requires
        frame.0 < inv.ledgers.len(),
    ensures
        ({
            let l = inv.ledgers[frame.0 as int];
            let more = ledger_of_params(params, i);
            inv.with_params(frame, params, i) == inv.with_ledger(
                frame,
                LedgerV {
                    locals: l.locals + more.locals,
                    bindings: l.bindings + more.bindings,
                },
            )
        }),
    decreases params.len() - i,
{
    let l = inv.ledgers[frame.0 as int];
    let more = ledger_of_params(params, i);
    if i < params.len() {
        let p = params[i as int];
        let next = inv.with_binding(frame, p.name@, p.ty, p.span);
        lemma_params_entered(next, frame, params, i + 1);
        let rest = ledger_of_params(params, i + 1);
        let m = next.ledgers[frame.0 as int];
        assert(m.locals + rest.locals =~= l.locals + more.locals);
        assert(m.bindings + rest.bindings =~= l.bindings + more.bindings);
        assert(inv.with_params(frame, params, i).ledgers =~= inv.with_ledger(
            frame,
            LedgerV { locals: l.locals + more.locals, bindings: l.bindings + more.bindings },
        ).ledgers);
    } else {
        assert(l.locals + more.locals =~= l.locals);
        assert(l.bindings + more.bindings =~= l.bindings);
        assert(inv.ledgers =~= inv.ledgers.update(frame.0 as int, l));
    }
}

/// The ledger before the body, with parameters or without.
pub open spec fn entry_ledger(p: PlanV, params: Option<Seq<Param>>) -> InventoryV {
    match params {
        Some(params) => root_inventory(p).with_params(p.frame_scope, params, 0),
        None => root_inventory(p),
    }
}

pub open spec fn entry_of(params: Option<Seq<Param>>) -> LedgerV {
    match params {
        Some(params) => ledger_of_params(params, 0),
        None => LedgerV { locals: Seq::empty(), bindings: Seq::empty() },
    }
}

/// The ledgers of one body under two lists of parameters are twins.
proof fn lemma_entries_fork(
    p: PlanV,
    a: Option<Seq<Param>>,
    b: Option<Seq<Param>>,
    body: Seq<Stmt>,
) -> (f: Fork)
    requires
        p.wf(),
    ensures
        f.frame == p.frame_scope.0,
        f.n == p.scopes.len(),
        f.x == entry_of(a),
        f.y == entry_of(b),
        alike(
            inv_from(p, entry_ledger(p, a), body, 0, p.body_scope),
            inv_from(p, entry_ledger(p, b), body, 0, p.body_scope),
            f,
        ),
{
    let f = Fork {
        frame: p.frame_scope.0 as int,
        n: p.scopes.len(),
        x: entry_of(a),
        y: entry_of(b),
    };
    let root = root_inventory(p);
    if let Some(params) = a {
        lemma_params_entered(root, p.frame_scope, params, 0);
    }
    if let Some(params) = b {
        lemma_params_entered(root, p.frame_scope, params, 0);
    }
    let none = LedgerV { locals: Seq::empty(), bindings: Seq::empty() };
    let (ia, ib) = (entry_ledger(p, a), entry_ledger(p, b));
    assert(root.ledgers[f.frame] == none);
    assert(twins(ia, ib, f)) by {
        reveal(forked);
        let (la, lb) = (ia.ledgers[f.frame], ib.ledgers[f.frame]);
        assert(la.locals =~= f.x.locals + none.locals);
        assert(lb.locals =~= f.y.locals + none.locals);
        assert(la.bindings =~= f.x.bindings + none.bindings);
        assert(f.y.bindings + none.bindings =~= lb.bindings);
        assert(goes_on(la, lb, f.x, f.y));
    }
    lemma_statements(p, ia, ib, f, body, 0, p.body_scope);
    f
}

/// A scope that was looked at agrees with its ledger.
proof fn lemma_scope_checked(p: PlanV, inv: InventoryV, i: nat, k: nat)
    requires
        p.check_scopes(inv, i, true) is Ok,
        i <= k < p.scopes.len(),
    ensures
        p.check_scope(inv, k as int) is Ok,
    decreases p.scopes.len() - i,
{
    if i < k {
        lemma_scope_checked(p, inv, i + 1, k);
    }
}

proof fn lemma_without_frame(p: PlanV, a: InventoryV, b: InventoryV, f: Fork, i: nat)
    requires
        twins(a, b, f),
        f.frame == p.frame_scope.0,
        f.n == p.scopes.len(),
        p.check_scopes(a, i, true) is Ok,
    ensures
        p.check_scopes(b, i, false) is Ok,
    decreases p.scopes.len() - i,
{
    if i < p.scopes.len() {
        lemma_without_frame(p, a, b, f, i + 1);
        if ScopeId(i as usize) != p.frame_scope {
            reveal(forked);
            assert(i != f.frame);
            assert(a.ledgers[i as int] == b.ledgers[i as int]);
        }
    }
}

/// Two lists of parameters have the same names, types and declaration spans, in order.
pub open spec fn same_params(a: Seq<Param>, b: Seq<Param>) -> bool {
    &&& a.len() == b.len()
    &&& forall|i: int|
        0 <= i < a.len() ==> (#[trigger] a[i]).name@ == b[i].name@ && a[i].ty == b[i].ty
            && a[i].span == b[i].span
}

proof fn lemma_entry_at(params: Seq<Param>, i: nat, k: nat)
    requires
        i <= k,
    ensures
        ledger_of_params(params, i).bindings.len() == if i <= params.len() {
            params.len() - i
        } else {
            0
        },
        k < params.len() ==> ledger_of_params(params, i).bindings[k - i] == (BindingV {
            place: local_place(params[k as int].name@),
            ty: params[k as int].ty,
            span: params[k as int].span,
        }),
    decreases params.len() - i,
{
    if i < params.len() {
        if i < k {
            lemma_entry_at(params, i + 1, k);
        } else {
            lemma_entry_at(params, i + 1, i + 1);
        }
    }
}

// ------------------------------------------------------------------------------------------
// Laws
// ------------------------------------------------------------------------------------------

/// A plan that a callable passes, its body passes alone.
pub proof fn law_callable_includes_its_body(p: PlanV, params: Seq<Param>, body: Seq<Stmt>)
    requires
        p.wf(),
        p.check_shape(Some(params), body) is Ok,
    ensures
        p.check_shape(None, body) is Ok,
{
    let f = lemma_entries_fork(p, Some(params), None, body);
    let a = inv_from(p, entry_ledger(p, Some(params)), body, 0, p.body_scope).1;
    let b = inv_from(p, entry_ledger(p, None), body, 0, p.body_scope).1;
    assert(p.ledger_of(Some(params), body) == Ok::<InventoryV, ErrV>(a));
    assert(p.ledger_of(None, body) == Ok::<InventoryV, ErrV>(b));
    lemma_without_frame(p, a, b, f, 0);
}

/// A sealed plan accepts the parameters and the body that it was sealed for, and the body alone.
pub proof fn law_sealed_plan_accepts_its_callable(
    o: OutlineV,
    params: Seq<Param>,
    body: Seq<Stmt>,
    p: PlanV,
)
    requires
        p.wf(),
        sealed(o, params, body) == Ok::<PlanV, ErrV>(p),
    ensures
        p.check_shape(Some(params), body) is Ok,
        p.check_shape(None, body) is Ok,
{
    law_callable_includes_its_body(p, params, body);
}

/// A plan that accepts one list of parameters refuses every list with another number, order, name,
/// type or declaration span.
pub proof fn law_other_parameters_are_refused(
    p: PlanV,
    params: Seq<Param>,
    others: Seq<Param>,
    body: Seq<Stmt>,
)
    requires
        p.wf(),
        p.check_shape(Some(params), body) is Ok,
        !same_params(params, others),
    ensures
        p.check_shape(Some(others), body) is Err,
{
    if p.check_shape(Some(others), body) is Ok {
        let f = lemma_entries_fork(p, Some(params), Some(others), body);
        let a = inv_from(p, entry_ledger(p, Some(params)), body, 0, p.body_scope).1;
        let b = inv_from(p, entry_ledger(p, Some(others)), body, 0, p.body_scope).1;
        assert(p.ledger_of(Some(params), body) == Ok::<InventoryV, ErrV>(a));
        assert(p.ledger_of(Some(others), body) == Ok::<InventoryV, ErrV>(b));
        let frame = p.frame_scope.0 as nat;
        lemma_scope_checked(p, a, 0, frame);
        lemma_scope_checked(p, b, 0, frame);
        reveal(forked);
        let (la, lb) = (a.ledgers[f.frame], b.ledgers[f.frame]);
        assert(la.bindings == lb.bindings);
        let s = choose|s: LedgerV|
            {
                &&& la.locals == f.x.locals + s.locals
                &&& lb.locals == f.y.locals + s.locals
                &&& la.bindings == f.x.bindings + s.bindings
                &&& #[trigger] (f.y.bindings + s.bindings) == lb.bindings
            };
        lemma_entry_at(params, 0, 0);
        lemma_entry_at(others, 0, 0);
        assert(params.len() == others.len());
        assert forall|i: int| 0 <= i < params.len() implies (#[trigger] params[i]).name@
            == others[i].name@ && params[i].ty == others[i].ty && params[i].span
            == others[i].span by {
            lemma_entry_at(params, 0, i as nat);
            lemma_entry_at(others, 0, i as nat);
            assert(f.x.bindings[i] == la.bindings[i]);
            assert(f.y.bindings[i] == lb.bindings[i]);
        }
    }
}

} // verus!
