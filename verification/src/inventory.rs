//! The ledger of a body: what its statements declare, replace, return and trap on, looked up in a
//! retained plan as it is collected.
use vstd::prelude::*;

use crate::ast::{Expr, ExprKind, IntTy, ResKind, Stmt, Ty};
use crate::builder::literal_elements;
use crate::drops::{plan_err, ErrV, PlanError};
use crate::lookup::{
    direct_statement_traps, expr_trap_keys, expression_trap_keys, find_scope, has_site, scope_at,
    stmt_traps,
};
use crate::outline::{BranchArm, ScopeId, ScopeKind};
use crate::place::{
    field_place, local_place, Place, PlaceV, SinkV, TransferV, ValueTransferKey, ValueTransferSink,
};
use crate::plan::{
    scope_kind_tag, scope_kind_text, temp_kind_tag, temp_kind_text, AssignmentStaging, BindingV,
    BodyPlan, CompilerTempKey, CompilerTempKind, PlanV, SiteKey, SourceBinding, StagingV,
};
use crate::repr::{group_views, views, Repr};
use crate::span::Span;
use crate::text::cat3;
use crate::traps::{checked_expression_ty, checked_ty, TrapKeyV, TrapSiteKey};

verus! {

broadcast use group_views;

/// What one scope declares, in order.
#[derive(Debug)]
pub struct ScopeLedger {
    pub locals: Vec<Place>,
    pub bindings: Vec<SourceBinding>,
}

pub ghost struct LedgerV {
    pub locals: Seq<PlaceV>,
    pub bindings: Seq<BindingV>,
}

impl View for ScopeLedger {
    type V = LedgerV;

    open spec fn view(&self) -> LedgerV {
        LedgerV { locals: views(self.locals@), bindings: views(self.bindings@) }
    }
}

impl View for CompilerTempKey {
    type V = CompilerTempKey;

    open spec fn view(&self) -> CompilerTempKey {
        *self
    }
}

/// What a body contains.
#[derive(Debug)]
pub struct BodyInventory {
    pub scopes: Vec<ScopeId>,
    pub ledgers: Vec<ScopeLedger>,
    pub assignments: Vec<SiteKey>,
    pub field_assignments: Vec<SiteKey>,
    pub temporary_drops: Vec<SiteKey>,
    pub returns: Vec<SiteKey>,
    pub compiler_temps: Vec<CompilerTempKey>,
    pub traps: Vec<TrapSiteKey>,
}

pub ghost struct InventoryV {
    pub scopes: Seq<ScopeId>,
    pub ledgers: Seq<LedgerV>,
    pub assignments: Seq<SiteKey>,
    pub field_assignments: Seq<SiteKey>,
    pub temporary_drops: Seq<SiteKey>,
    pub returns: Seq<SiteKey>,
    pub compiler_temps: Seq<CompilerTempKey>,
    pub traps: Seq<TrapKeyV>,
}

impl View for BodyInventory {
    type V = InventoryV;

    open spec fn view(&self) -> InventoryV {
        InventoryV {
            scopes: views(self.scopes@),
            ledgers: views(self.ledgers@),
            assignments: views(self.assignments@),
            field_assignments: views(self.field_assignments@),
            temporary_drops: views(self.temporary_drops@),
            returns: views(self.returns@),
            compiler_temps: views(self.compiler_temps@),
            traps: views(self.traps@),
        }
    }
}

/// Whether a list of scopes holds one.
pub fn has_scope(scopes: &Vec<ScopeId>, id: ScopeId) -> (r: bool)
    ensures
        r == views(scopes@).contains(id),
{
    let n: usize = scopes.len();
    let mut i: usize = 0;
    while i < n
        invariant
            n == scopes@.len(),
            i <= n,
            forall|k: int| 0 <= k < i ==> scopes@[k] != id,
        decreases n - i,
    {
        if scopes[i] == id {
            assert(views(scopes@)[i as int] == id);
            return true;
        }
        i = i + 1;
    }
    false
}

/// Whether a list of temporaries holds one.
pub fn has_temp(temps: &Vec<CompilerTempKey>, key: CompilerTempKey) -> (r: bool)
    ensures
        r == views(temps@).contains(key),
{
    let n: usize = temps.len();
    let mut i: usize = 0;
    while i < n
        invariant
            n == temps@.len(),
            i <= n,
            forall|k: int| 0 <= k < i ==> temps@[k] != key,
        decreases n - i,
    {
        if temps[i] == key {
            assert(views(temps@)[i as int] == key);
            return true;
        }
        i = i + 1;
    }
    false
}

/// A ledger with nothing in it, for a plan with `n` scopes.
pub open spec fn empty_inventory(n: nat) -> InventoryV {
    InventoryV {
        scopes: Seq::empty(),
        ledgers: Seq::new(n, |i: int| LedgerV { locals: Seq::empty(), bindings: Seq::empty() }),
        assignments: Seq::empty(),
        field_assignments: Seq::empty(),
        temporary_drops: Seq::empty(),
        returns: Seq::empty(),
        compiler_temps: Seq::empty(),
        traps: Seq::empty(),
    }
}

/// The ledger before the body: the frame and the body scope are there.
pub open spec fn root_inventory(p: PlanV) -> InventoryV {
    empty_inventory(p.scopes.len()).with_root(p.frame_scope).with_root(p.body_scope)
}

impl InventoryV {
    pub open spec fn with_root(self, id: ScopeId) -> InventoryV {
        if self.scopes.contains(id) {
            self
        } else {
            InventoryV { scopes: self.scopes.push(id), ..self }
        }
    }

    pub open spec fn with_ledger(self, scope: ScopeId, l: LedgerV) -> InventoryV {
        InventoryV { ledgers: self.ledgers.update(scope.0 as int, l), ..self }
    }

    pub open spec fn with_binding(
        self,
        scope: ScopeId,
        name: Seq<char>,
        ty: Ty,
        span: Span,
    ) -> InventoryV {
        let l = self.ledgers[scope.0 as int];
        let place = local_place(name);
        self.with_ledger(
            scope,
            LedgerV {
                locals: l.locals.push(place),
                bindings: l.bindings.push(BindingV { place, ty, span }),
            },
        )
    }

    pub open spec fn with_raw_pair(
        self,
        scope: ScopeId,
        ptr: Seq<char>,
        ptr_span: Span,
        res: Seq<char>,
        res_span: Span,
    ) -> InventoryV {
        self.with_binding(scope, ptr, Ty::Raw(IntTy::U8), ptr_span).with_binding(
            scope,
            res,
            Ty::Res(ResKind::RawSpan),
            res_span,
        )
    }

    pub open spec fn with_temp(
        self,
        key: CompilerTempKey,
        place: PlaceV,
        clear_with_scope: bool,
    ) -> InventoryV {
        let l = self.ledgers[key.scope.0 as int];
        let i = if clear_with_scope {
            self.with_ledger(key.scope, LedgerV { locals: l.locals.push(place), ..l })
        } else {
            self
        };
        InventoryV { compiler_temps: i.compiler_temps.push(key), ..i }
    }

    pub open spec fn with_traps(self, traps: Seq<TrapKeyV>) -> InventoryV {
        InventoryV { traps: self.traps + traps, ..self }
    }
}

// ------------------------------------------------------------------------------------------
// What a body contains
// ------------------------------------------------------------------------------------------

/// What a step of collection says, and what is collected after it: on a refusal, everything that
/// stands before the refused site.
pub type CollectedV = (Result<(), ErrV>, InventoryV);

impl PlanV {
    pub open spec fn child_scope(self, kind: ScopeKind, anchor: Span, parent: ScopeId) -> Result<
        ScopeId,
        ErrV,
    > {
        match self.scope_for(kind, anchor) {
            Err(e) => Err(e),
            Ok(child) => if self.scopes[child.0 as int].parent != Some(parent) {
                Err(
                    plan_err(
                        anchor,
                        "checked "@ + scope_kind_text(kind)
                            + " scope moved under a different lexical parent"@,
                    ),
                )
            } else {
                Ok(child)
            },
        }
    }

    pub open spec fn record_scope(
        self,
        inv: InventoryV,
        scope: ScopeId,
        kind: ScopeKind,
        anchor: Span,
    ) -> CollectedV {
        if inv.scopes.contains(scope) {
            (Err(
                plan_err(
                    anchor,
                    "two retained "@ + scope_kind_text(kind)
                        + " blocks reuse one checked structural identity"@,
                ),
            ), inv)
        } else {
            (Ok(()), InventoryV { scopes: inv.scopes.push(scope), ..inv })
        }
    }

    /// The child scope of a block statement, entered once.
    pub open spec fn enter_scope(
        self,
        inv: InventoryV,
        kind: ScopeKind,
        anchor: Span,
        parent: ScopeId,
    ) -> (Result<ScopeId, ErrV>, InventoryV) {
        match self.child_scope(kind, anchor, parent) {
            Err(e) => (Err(e), inv),
            Ok(child) => match self.record_scope(inv, child, kind, anchor) {
                (Err(e), inv) => (Err(e), inv),
                (Ok(_), inv) => (Ok(child), inv),
            },
        }
    }

    /// A planned temporary, met once.
    pub open spec fn meet_temp(
        self,
        inv: InventoryV,
        key: CompilerTempKey,
        clear_with_scope: bool,
    ) -> (Result<PlaceV, ErrV>, InventoryV) {
        if inv.compiler_temps.contains(key) {
            (Err(
                plan_err(
                    key.anchor,
                    "two source operations reuse one "@ + temp_kind_text(key.kind)
                        + " compiler-temporary identity"@,
                ),
            ), inv)
        } else {
            match self.compiler_temp(key.scope, key.anchor, key.kind) {
                Err(e) => (Err(e), inv),
                Ok(place) => (Ok(place), inv.with_temp(key, place, clear_with_scope)),
            }
        }
    }

    /// The temporaries of the elements `i..n` of a Boolean array literal.
    pub open spec fn meet_literal(
        self,
        inv: InventoryV,
        scope: ScopeId,
        span: Span,
        i: nat,
        n: nat,
    ) -> CollectedV
        decreases n - i,
    {
        if i >= n {
            (Ok(()), inv)
        } else {
            match self.meet_temp(
                inv,
                CompilerTempKey {
                    scope,
                    anchor: span,
                    kind: CompilerTempKind::BoolLiteralElement(i as usize),
                },
                true,
            ) {
                (Err(e), inv) => (Err(e), inv),
                (Ok(_), inv) => self.meet_literal(inv, scope, span, i + 1, n),
            }
        }
    }

    pub open spec fn meet_initializer(
        self,
        inv: InventoryV,
        scope: ScopeId,
        ty: Ty,
        init: Option<Expr>,
    ) -> CollectedV {
        match literal_elements(ty, init) {
            Some((span, n)) => self.meet_literal(inv, scope, span, 0, n),
            None => (Ok(()), inv),
        }
    }

    /// The staging of a planned assignment, whose temporary is met where it has one.
    pub open spec fn meet_staging(
        self,
        inv: InventoryV,
        staging: StagingV,
        key: CompilerTempKey,
        refusal: Seq<char>,
    ) -> CollectedV {
        match staging {
            StagingV::Direct => (Ok(()), inv),
            StagingV::Temporary(place) => match self.meet_temp(inv, key, false) {
                (Err(e), inv) => (Err(e), inv),
                (Ok(expected), inv) => if place != expected {
                    (Err(plan_err(key.anchor, refusal)), inv)
                } else {
                    (Ok(()), inv)
                },
            },
        }
    }

    pub open spec fn meet_assignment(
        self,
        inv: InventoryV,
        scope: ScopeId,
        name: Seq<char>,
        span: Span,
        value: Expr,
    ) -> CollectedV {
        let key = SiteKey { scope, span };
        if inv.assignments.contains(key) {
            (Err(plan_err(span, "two assignments reuse one checked structural identity"@)), inv)
        } else {
            let inv = InventoryV { assignments: inv.assignments.push(key), ..inv };
            match self.assignment(scope, span, local_place(name)) {
                Err(e) => (Err(e), inv),
                Ok(action) => {
                    let transfer = TransferV {
                        owner: self.owner,
                        span: value.span,
                        sink: SinkV::Assignment(local_place(name)),
                    };
                    let changed = plan_err(
                        span,
                        "assignment action no longer matches its checked RHS type, span, or transfer identity"@,
                    );
                    if action.transfer_key != transfer {
                        (Err(changed), inv)
                    } else {
                        match checked_ty(value, "assignment value"@) {
                            Err(e) => (Err(e), inv),
                            Ok(ty) => if action.ty != ty {
                                (Err(changed), inv)
                            } else {
                                self.meet_staging(
                                    inv,
                                    action.staging,
                                    CompilerTempKey {
                                        scope,
                                        anchor: span,
                                        kind: CompilerTempKind::AssignmentValue,
                                    },
                                    "assignment staging place no longer matches its compiler temporary"@,
                                )
                            },
                        }
                    }
                },
            }
        }
    }

    pub open spec fn meet_field_assignment(
        self,
        inv: InventoryV,
        scope: ScopeId,
        field: Seq<char>,
        span: Span,
        value: Expr,
    ) -> CollectedV {
        let key = SiteKey { scope, span };
        if inv.field_assignments.contains(key) {
            (Err(plan_err(span, "two field assignments reuse one checked structural identity"@)), inv)
        } else {
            let inv = InventoryV { field_assignments: inv.field_assignments.push(key), ..inv };
            match self.field_assignment(scope, span, field_place("self"@, field), value) {
                Err(e) => (Err(e), inv),
                Ok(action) => self.meet_staging(
                    inv,
                    action.staging,
                    CompilerTempKey {
                        scope,
                        anchor: span,
                        kind: CompilerTempKind::FieldAssignmentValue,
                    },
                    "field-assignment staging place no longer matches its compiler temporary"@,
                ),
            }
        }
    }

    pub open spec fn meet_return(
        self,
        inv: InventoryV,
        scope: ScopeId,
        span: Span,
        has_value: bool,
    ) -> CollectedV {
        let key = SiteKey { scope, span };
        if inv.returns.contains(key) {
            (Err(plan_err(span, "two returns reuse one checked structural identity"@)), inv)
        } else {
            let inv = InventoryV { returns: inv.returns.push(key), ..inv };
            match self.explicit_return(span, scope) {
                Err(e) => (Err(e), inv),
                Ok(routes) => if (routes.result_slot is Some) != has_value {
                    (Err(
                        plan_err(
                            span,
                            "checked return value shape no longer matches its planned result slot"@,
                        ),
                    ), inv)
                } else if has_value {
                    match self.meet_temp(
                        inv,
                        CompilerTempKey {
                            scope,
                            anchor: span,
                            kind: CompilerTempKind::ReturnValue,
                        },
                        false,
                    ) {
                        (Err(e), inv) => (Err(e), inv),
                        (Ok(expected), inv) => if routes.result_slot != Some(expected) {
                            (Err(
                                plan_err(
                                    span,
                                    "return result slot no longer matches its compiler temporary"@,
                                ),
                            ), inv)
                        } else {
                            (Ok(()), inv)
                        },
                    }
                } else {
                    (Ok(()), inv)
                },
            }
        }
    }

    pub open spec fn meet_discard(self, inv: InventoryV, scope: ScopeId, e: Expr) -> CollectedV {
        match checked_ty(e, "discarded expression"@) {
            Err(err) => (Err(err), inv),
            Ok(ty) => if !(ty is Class) {
                (Ok(()), inv)
            } else {
                let key = SiteKey { scope, span: e.span };
                if inv.temporary_drops.contains(key) {
                    (Err(
                        plan_err(
                            e.span,
                            "two discarded class temporaries reuse one checked structural identity"@,
                        ),
                    ), inv)
                } else {
                    let inv = InventoryV {
                        temporary_drops: inv.temporary_drops.push(key),
                        ..inv
                    };
                    match self.temporary_drop(scope, e) {
                        Err(err) => (Err(err), inv),
                        Ok(action) => match self.meet_temp(
                            inv,
                            CompilerTempKey {
                                scope,
                                anchor: e.span,
                                kind: CompilerTempKind::DiscardedClassValue,
                            },
                            false,
                        ) {
                            (Err(err), inv) => (Err(err), inv),
                            (Ok(expected), inv) => if action.temporary != expected {
                                (Err(
                                    plan_err(
                                        e.span,
                                        "discarded class action no longer uses its exact compiler temporary"@,
                                    ),
                                ), inv)
                            } else {
                                (Ok(()), inv)
                            },
                        },
                    }
                }
            },
        }
    }

    pub open spec fn meet_exposure(
        self,
        inv: InventoryV,
        child: ScopeId,
        kw_span: Span,
        ptr: Seq<char>,
        ptr_span: Span,
        res: Seq<char>,
        res_span: Span,
    ) -> CollectedV {
        let inv = inv.with_raw_pair(child, ptr, ptr_span, res, res_span);
        match self.meet_temp(
            inv,
            CompilerTempKey {
                scope: child,
                anchor: kw_span,
                kind: CompilerTempKind::ExposureLoan,
            },
            false,
        ) {
            (Err(e), inv) => (Err(e), inv),
            (Ok(_), inv) => match self.meet_temp(
                inv,
                CompilerTempKey {
                    scope: child,
                    anchor: kw_span,
                    kind: CompilerTempKind::ExposureIndex,
                },
                false,
            ) {
                (Err(e), inv) => (Err(e), inv),
                (Ok(_), inv) => match self.meet_temp(
                    inv,
                    CompilerTempKey {
                        scope: child,
                        anchor: kw_span,
                        kind: CompilerTempKind::ExposureByte,
                    },
                    false,
                ) {
                    (Err(e), inv) => (Err(e), inv),
                    (Ok(_), inv) => (Ok(()), inv),
                },
            },
        }
    }
}

/// The traps of an expression and of everything inside it, outermost first.
pub open spec fn inv_expr(inv: InventoryV, e: Expr, scope: ScopeId) -> CollectedV
    decreases e, 0nat,
{
    match expr_trap_keys(scope, e) {
        Err(err) => (Err(err), inv),
        Ok(keys) => {
            let inv = inv.with_traps(keys);
            match e.kind {
                ExprKind::Unary { operand, .. } => inv_expr(inv, *operand, scope),
                ExprKind::Widen { arg, .. } => inv_expr(inv, *arg, scope),
                ExprKind::Narrow { arg, .. } => inv_expr(inv, *arg, scope),
                ExprKind::IsSome { operand } => inv_expr(inv, *operand, scope),
                ExprKind::OptValue { operand } => inv_expr(inv, *operand, scope),
                ExprKind::SomeE(operand) => inv_expr(inv, *operand, scope),
                ExprKind::Binary { lhs, rhs, .. } => match inv_expr(inv, *lhs, scope) {
                    (Err(err), inv) => (Err(err), inv),
                    (Ok(_), inv) => inv_expr(inv, *rhs, scope),
                },
                ExprKind::Call { args, .. } => inv_exprs(inv, args@, 0, scope),
                ExprKind::RawOp { args, .. } => inv_exprs(inv, args@, 0, scope),
                ExprKind::DeviceOp { args, .. } => inv_exprs(inv, args@, 0, scope),
                ExprKind::ResOp { args, .. } => inv_exprs(inv, args@, 0, scope),
                ExprKind::CtorCall { args, .. } => inv_exprs(inv, args@, 0, scope),
                ExprKind::TraitCall { args, .. } => inv_exprs(inv, args@, 0, scope),
                ExprKind::MethodCall { args, .. } => inv_exprs(inv, args@, 0, scope),
                ExprKind::RecordLit { args, .. } => inv_exprs(inv, args@, 0, scope),
                ExprKind::ArrayLit(args) => inv_exprs(inv, args@, 0, scope),
                ExprKind::SlotOp { args, .. } => inv_exprs(inv, args@, 0, scope),
                ExprKind::Index { index, .. } => inv_expr(inv, *index, scope),
                ExprKind::SelfFieldIndex { index, .. } => inv_expr(inv, *index, scope),
                ExprKind::ClassFieldIndex { index, .. } => inv_expr(inv, *index, scope),
                ExprKind::AllocArray { len, init, .. } => match inv_expr(inv, *len, scope) {
                    (Err(err), inv) => (Err(err), inv),
                    (Ok(_), inv) => inv_expr(inv, *init, scope),
                },
                _ => (Ok(()), inv),
            }
        },
    }
}

/// The traps of the expressions from `i` on.
pub open spec fn inv_exprs(inv: InventoryV, s: Seq<Expr>, i: nat, scope: ScopeId) -> CollectedV
    decreases s, s.len() - i,
{
    if i >= s.len() {
        (Ok(()), inv)
    } else {
        match inv_expr(inv, s[i as int], scope) {
            (Err(e), inv) => (Err(e), inv),
            (Ok(_), inv) => inv_exprs(inv, s, i + 1, scope),
        }
    }
}

pub open spec fn inv_two(inv: InventoryV, a: Expr, b: Expr, scope: ScopeId) -> CollectedV {
    match inv_expr(inv, a, scope) {
        (Err(e), inv) => (Err(e), inv),
        (Ok(_), inv) => inv_expr(inv, b, scope),
    }
}

pub open spec fn inv_after(r: CollectedV, e: Expr, scope: ScopeId) -> CollectedV {
    match r {
        (Err(err), inv) => (Err(err), inv),
        (Ok(_), inv) => inv_expr(inv, e, scope),
    }
}

/// What the statements from `i` on contain.
pub open spec fn inv_from(p: PlanV, inv: InventoryV, s: Seq<Stmt>, i: nat, scope: ScopeId) -> CollectedV
    decreases s, s.len() - i,
{
    if i >= s.len() {
        (Ok(()), inv)
    } else {
        match inv_stmt(p, inv, s[i as int], scope) {
            (Err(e), inv) => (Err(e), inv),
            (Ok(_), inv) => inv_from(p, inv, s, i + 1, scope),
        }
    }
}

/// What one statement contains: its own traps first, then what it declares or replaces, then its
/// expressions and blocks.
pub open spec fn inv_stmt(p: PlanV, inv: InventoryV, s: Stmt, scope: ScopeId) -> CollectedV
    decreases s, 1nat,
{
    match stmt_traps(p, scope, s) {
        Err(e) => (Err(e), inv),
        Ok(traps) => inv_inner(p, inv.with_traps(traps), s, scope),
    }
}

/// What one statement contains apart from its own traps.
pub open spec fn inv_inner(p: PlanV, inv: InventoryV, s: Stmt, scope: ScopeId) -> CollectedV
    decreases s, 0nat,
{
    match s {
        Stmt::Decl { ty, name, name_span, init, .. } => match p.meet_initializer(
            inv.with_binding(scope, name@, ty, name_span),
            scope,
            ty,
            init,
        ) {
            (Err(e), inv) => (Err(e), inv),
            (Ok(_), inv) => match init {
                Some(e) => inv_expr(inv, e, scope),
                None => (Ok(()), inv),
            },
        },
        Stmt::VarDecl { ty, name, name_span, init, .. } => match ty {
            None => (Err(
                plan_err(
                    name_span,
                    "inferred local `"@ + name@
                        + "` has no checked type for control reconciliation"@,
                ),
            ), inv),
            Some(ty) => inv_after(
                p.meet_initializer(
                    inv.with_binding(scope, name@, ty, name_span),
                    scope,
                    ty,
                    Some(init),
                ),
                init,
                scope,
            ),
        },
        Stmt::Assign { name, name_span, value } => inv_after(
            p.meet_assignment(inv, scope, name@, name_span, value),
            value,
            scope,
        ),
        Stmt::FieldAssign { field, field_span, value } => inv_after(
            p.meet_field_assignment(inv, scope, field@, field_span, value),
            value,
            scope,
        ),
        Stmt::Return { value, span } => match p.meet_return(inv, scope, span, value is Some) {
            (Err(e), inv) => (Err(e), inv),
            (Ok(_), inv) => match value {
                Some(e) => inv_expr(inv, e, scope),
                None => (Ok(()), inv),
            },
        },
        Stmt::ExprStmt(e) => inv_after(p.meet_discard(inv, scope, e), e, scope),
        Stmt::Assert(_) => (Ok(()), inv),
        Stmt::FieldStore { index, value, .. } => inv_two(inv, index, value, scope),
        Stmt::Store { index, value, .. } => inv_two(inv, index, value, scope),
        Stmt::StaticAlloc { size, ptr, ptr_span, res, res_span, .. } => inv_expr(
            inv.with_raw_pair(scope, ptr@, ptr_span, res@, res_span),
            size,
            scope,
        ),
        Stmt::SystemAlloc { size, ptr, ptr_span, res, res_span, release, release_span, .. } =>
            inv_expr(
            inv.with_raw_pair(scope, ptr@, ptr_span, res@, res_span).with_binding(
                scope,
                release@,
                Ty::Res(ResKind::SystemDealloc),
                release_span,
            ),
            size,
            scope,
        ),
        Stmt::SystemDealloc { ptr, res, release, .. } => inv_after(
            inv_two(inv, ptr, res, scope),
            release,
            scope,
        ),
        Stmt::Unsafe { body, .. } => inv_from(p, inv, body@, 0, scope),
        Stmt::While { cond, kw_span, body, .. } => match inv_expr(inv, cond, scope) {
            (Err(e), inv) => (Err(e), inv),
            (Ok(_), inv) => match p.enter_scope(inv, ScopeKind::LoopBody, kw_span, scope) {
                (Err(e), inv) => (Err(e), inv),
                (Ok(child), inv) => inv_from(p, inv, body@, 0, child),
            },
        },
        Stmt::Expose { kw_span, ptr, ptr_span, res, res_span, body, .. } => match p.enter_scope(
            inv,
            ScopeKind::Exposure,
            kw_span,
            scope,
        ) {
            (Err(e), inv) => (Err(e), inv),
            (Ok(child), inv) => match p.meet_exposure(
                inv,
                child,
                kw_span,
                ptr@,
                ptr_span,
                res@,
                res_span,
            ) {
                (Err(e), inv) => (Err(e), inv),
                (Ok(_), inv) => inv_from(p, inv, body@, 0, child),
            },
        },
        Stmt::If { cond, then_block, else_block } => match inv_expr(inv, cond, scope) {
            (Err(e), inv) => (Err(e), inv),
            (Ok(_), inv) => match p.enter_scope(
                inv,
                ScopeKind::BranchArm(BranchArm::Then),
                cond.span,
                scope,
            ) {
                (Err(e), inv) => (Err(e), inv),
                (Ok(then_scope), inv) => match inv_from(p, inv, then_block@, 0, then_scope) {
                    (Err(e), inv) => (Err(e), inv),
                    (Ok(_), inv) => match (
                        else_block,
                        scope_at(
                            p.scope_ids,
                            ScopeKind::BranchArm(BranchArm::Else),
                            cond.span,
                        ),
                    ) {
                        (None, None) => (Ok(()), inv),
                        (Some(_), None) => (Err(
                            plan_err(cond.span, "checked body gained an unplanned else scope"@),
                        ), inv),
                        (None, Some(_)) => (Err(
                            plan_err(
                                cond.span,
                                "checked body no longer contains its planned else scope"@,
                            ),
                        ), inv),
                        (Some(block), Some(else_scope)) => if p.scopes[else_scope.0 as int].parent
                            != Some(scope) {
                            (Err(
                                plan_err(
                                    cond.span,
                                    "checked else scope moved under a different lexical parent"@,
                                ),
                            ), inv)
                        } else {
                            match p.record_scope(
                                inv,
                                else_scope,
                                ScopeKind::BranchArm(BranchArm::Else),
                                cond.span,
                            ) {
                                (Err(e), inv) => (Err(e), inv),
                                (Ok(_), inv) => inv_from(p, inv, block@, 0, else_scope),
                            }
                        },
                    },
                },
            },
        },
    }
}

/// A step of collection did what is stated.
pub open spec fn collects(
    r: Result<(), PlanError>,
    after: InventoryV,
    s: CollectedV,
) -> bool {
    &&& after == s.1
    &&& match s.0 {
        Ok(_) => r is Ok,
        Err(e) => r matches Err(x) && x@ == e,
    }
}

proof fn lemma_collection_of_head(
    p: PlanV,
    inv: InventoryV,
    a: Seq<Stmt>,
    b: Seq<Stmt>,
    i: nat,
    scope: ScopeId,
)
    requires
        i <= a.len(),
    ensures
        inv_from(p, inv, a + b, i, scope) == {
            let first = inv_from(p, inv, a, i, scope);
            if first.0 is Err {
                first
            } else {
                inv_from(p, first.1, a + b, a.len(), scope)
            }
        },
    decreases a.len() - i,
{
    if i < a.len() {
        assert((a + b)[i as int] == a[i as int]);
        let first = inv_stmt(p, inv, a[i as int], scope);
        if first.0 is Ok {
            lemma_collection_of_head(p, first.1, a, b, i + 1, scope);
        }
    }
}

proof fn lemma_collection_of_tail(
    p: PlanV,
    inv: InventoryV,
    a: Seq<Stmt>,
    b: Seq<Stmt>,
    i: nat,
    scope: ScopeId,
)
    requires
        i <= b.len(),
    ensures
        inv_from(p, inv, a + b, a.len() + i, scope) == inv_from(p, inv, b, i, scope),
    decreases b.len() - i,
{
    if i < b.len() {
        assert((a + b)[(a.len() + i) as int] == b[i as int]);
        let first = inv_stmt(p, inv, b[i as int], scope);
        if first.0 is Ok {
            lemma_collection_of_tail(p, first.1, a, b, i + 1, scope);
        }
    }
}

/// Statements in sequence are collected in sequence: the second part after what the first left,
/// and not at all where the first is refused.
pub proof fn law_collection_of_concatenation(
    p: PlanV,
    inv: InventoryV,
    a: Seq<Stmt>,
    b: Seq<Stmt>,
    scope: ScopeId,
)
    ensures
        inv_from(p, inv, a + b, 0, scope) == {
            let first = inv_from(p, inv, a, 0, scope);
            if first.0 is Err {
                first
            } else {
                inv_from(p, first.1, b, 0, scope)
            }
        },
{
    lemma_collection_of_head(p, inv, a, b, 0, scope);
    let first = inv_from(p, inv, a, 0, scope);
    if first.0 is Ok {
        lemma_collection_of_tail(p, first.1, a, b, 0, scope);
    }
}

/// An unsafe block is collected as its statements in its place.
pub proof fn law_unsafe_is_collected_as_its_body(
    p: PlanV,
    inv: InventoryV,
    kw_span: Span,
    body: Vec<Stmt>,
    scope: ScopeId,
)
    ensures
        inv_from(p, inv, seq![Stmt::Unsafe { kw_span, body }], 0, scope) == inv_from(
            p,
            inv,
            body@,
            0,
            scope,
        ),
{
    let s = Stmt::Unsafe { kw_span, body };
    let one = seq![s];
    assert(one[0] == s && one.len() == 1);
    let inside = inv_from(p, inv, body@, 0, scope);
    assert(stmt_traps(p, scope, s) == Ok::<Seq<TrapKeyV>, ErrV>(Seq::empty()));
    assert(inv.traps + Seq::<TrapKeyV>::empty() =~= inv.traps);
    assert(inv.with_traps(Seq::empty()) == inv);
    let first = inv_stmt(p, inv, s, scope);
    assert(first == inside);
    let end = inv_from(p, first.1, one, 1, scope);
    assert(end.0 is Ok && end.1 == first.1);
    if first.0 is Ok {
        assert(first.0->Ok_0 == end.0->Ok_0);
    }
}

impl BodyInventory {
    /// One ledger for each of the plan's scopes.
    pub open spec fn fits(self, p: PlanV) -> bool {
        self.ledgers@.len() == p.scopes.len()
    }

    pub fn new(scopes: usize) -> (r: Self)
        ensures
            r@ == empty_inventory(scopes as nat),
            r.ledgers@.len() == scopes,
    {
        let mut ledgers: Vec<ScopeLedger> = Vec::new();
        let mut i: usize = 0;
        while i < scopes
            invariant
                i <= scopes,
                ledgers@.len() == i,
                views(ledgers@) == empty_inventory(i as nat).ledgers,
            decreases scopes - i,
        {
            ledgers.push(ScopeLedger { locals: Vec::new(), bindings: Vec::new() });
            assert(views(ledgers@) =~= empty_inventory((i + 1) as nat).ledgers);
            i = i + 1;
        }
        BodyInventory {
            scopes: Vec::new(),
            ledgers,
            assignments: Vec::new(),
            field_assignments: Vec::new(),
            temporary_drops: Vec::new(),
            returns: Vec::new(),
            compiler_temps: Vec::new(),
            traps: Vec::new(),
        }
    }

    /// The ledger before the body.
    pub fn root(plan: &BodyPlan) -> (r: Self)
        requires
            plan@.wf(),
        ensures
            r@ == root_inventory(plan@),
            r.fits(plan@),
    {
        let mut inventory = BodyInventory::new(plan.scopes.len());
        inventory.scopes.push(plan.frame_scope);
        assert(!empty_inventory(plan@.scopes.len()).scopes.contains(plan@.frame_scope));
        if !has_scope(&inventory.scopes, plan.body_scope) {
            inventory.scopes.push(plan.body_scope);
        }
        inventory
    }

    pub fn source_binding(&mut self, scope: ScopeId, name: &String, ty: Ty, span: Span)
        requires
            scope.0 < old(self).ledgers@.len(),
        ensures
            final(self)@ == old(self)@.with_binding(scope, name@, ty, span),
            final(self).ledgers@.len() == old(self).ledgers@.len(),
    {
        let place = Place::local(name.as_str());
        let ledger = &mut self.ledgers[scope.0];
        ledger.locals.push(place.copy());
        ledger.bindings.push(SourceBinding { place, ty, span });
    }

    fn raw_pair(
        &mut self,
        scope: ScopeId,
        ptr: &String,
        ptr_span: Span,
        res: &String,
        res_span: Span,
    )
        requires
            scope.0 < old(self).ledgers@.len(),
        ensures
            final(self)@ == old(self)@.with_raw_pair(scope, ptr@, ptr_span, res@, res_span),
            final(self).ledgers@.len() == old(self).ledgers@.len(),
    {
        self.source_binding(scope, ptr, Ty::Raw(IntTy::U8), ptr_span);
        self.source_binding(scope, res, Ty::Res(ResKind::RawSpan), res_span);
    }

    fn compiler_temp(&mut self, key: CompilerTempKey, place: Place, clear_with_scope: bool)
        requires
            key.scope.0 < old(self).ledgers@.len(),
        ensures
            final(self)@ == old(self)@.with_temp(key, place@, clear_with_scope),
            final(self).ledgers@.len() == old(self).ledgers@.len(),
    {
        if clear_with_scope {
            let ledger = &mut self.ledgers[key.scope.0];
            ledger.locals.push(place);
        }
        self.compiler_temps.push(key);
    }

    fn extend_traps(&mut self, traps: Vec<TrapSiteKey>)
        ensures
            final(self)@ == old(self)@.with_traps(views(traps@)),
            final(self).ledgers@.len() == old(self).ledgers@.len(),
    {
        let mut traps = traps;
        self.traps.append(&mut traps);
    }
}

impl BodyPlan {
    fn checked_child_scope(&self, kind: ScopeKind, anchor: Span, parent: ScopeId) -> (r: Result<
        ScopeId,
        PlanError,
    >)
        requires
            self@.wf(),
        ensures
            match self@.child_scope(kind, anchor, parent) {
                Ok(id) => r == Ok::<ScopeId, PlanError>(id) && id.0 < self@.scopes.len(),
                Err(e) => r matches Err(x) && x@ == e,
            },
    {
        let child = match self.scope_for(kind, anchor) {
            Err(e) => {
                return Err(e);
            },
            Ok(child) => child,
        };
        let moved = match self.scope_parent(child) {
            Some(p) => p != parent,
            None => true,
        };
        if moved {
            return Err(
                PlanError {
                    span: anchor,
                    message: cat3(
                        "checked ",
                        scope_kind_tag(kind),
                        " scope moved under a different lexical parent",
                    ),
                },
            );
        }
        Ok(child)
    }

    fn record_inventory_scope(
        &self,
        inventory: &mut BodyInventory,
        scope: ScopeId,
        kind: ScopeKind,
        anchor: Span,
    ) -> (r: Result<(), PlanError>)
        ensures
            collects(
                r,
                final(inventory)@,
                self@.record_scope(old(inventory)@, scope, kind, anchor),
            ),
            final(inventory).ledgers@.len() == old(inventory).ledgers@.len(),
    {
        if has_scope(&inventory.scopes, scope) {
            return Err(
                PlanError {
                    span: anchor,
                    message: cat3(
                        "two retained ",
                        scope_kind_tag(kind),
                        " blocks reuse one checked structural identity",
                    ),
                },
            );
        }
        inventory.scopes.push(scope);
        Ok(())
    }

    fn enter_inventory_scope(
        &self,
        inventory: &mut BodyInventory,
        kind: ScopeKind,
        anchor: Span,
        parent: ScopeId,
    ) -> (r: Result<ScopeId, PlanError>)
        requires
            self@.wf(),
        ensures
            final(inventory)@ == self@.enter_scope(old(inventory)@, kind, anchor, parent).1,
            match self@.enter_scope(old(inventory)@, kind, anchor, parent).0 {
                Ok(id) => r == Ok::<ScopeId, PlanError>(id) && id.0 < self@.scopes.len(),
                Err(e) => r matches Err(x) && x@ == e,
            },
            final(inventory).ledgers@.len() == old(inventory).ledgers@.len(),
    {
        let child = match self.checked_child_scope(kind, anchor, parent) {
            Err(e) => {
                return Err(e);
            },
            Ok(child) => child,
        };
        match self.record_inventory_scope(inventory, child, kind, anchor) {
            Err(e) => Err(e),
            Ok(_) => Ok(child),
        }
    }

    fn inventory_compiler_temp(
        &self,
        key: CompilerTempKey,
        clear_with_scope: bool,
        inventory: &mut BodyInventory,
    ) -> (r: Result<Place, PlanError>)
        requires
            key.scope.0 < old(inventory).ledgers@.len(),
        ensures
            final(inventory)@ == self@.meet_temp(old(inventory)@, key, clear_with_scope).1,
            match self@.meet_temp(old(inventory)@, key, clear_with_scope).0 {
                Ok(place) => r matches Ok(p) && p@ == place,
                Err(e) => r matches Err(x) && x@ == e,
            },
            final(inventory).ledgers@.len() == old(inventory).ledgers@.len(),
    {
        if has_temp(&inventory.compiler_temps, key) {
            return Err(
                PlanError {
                    span: key.anchor,
                    message: cat3(
                        "two source operations reuse one ",
                        temp_kind_tag(key.kind).as_str(),
                        " compiler-temporary identity",
                    ),
                },
            );
        }
        let place = match self.compiler_temp(key.scope, key.anchor, key.kind) {
            Err(e) => {
                return Err(e);
            },
            Ok(place) => place.copy(),
        };
        inventory.compiler_temp(key, place.copy(), clear_with_scope);
        Ok(place)
    }

    fn inventory_array_literal_temps(
        &self,
        scope: ScopeId,
        ty: &Ty,
        initializer: Option<&Expr>,
        inventory: &mut BodyInventory,
    ) -> (r: Result<(), PlanError>)
        requires
            scope.0 < old(inventory).ledgers@.len(),
        ensures
            collects(
                r,
                final(inventory)@,
                self@.meet_initializer(
                    old(inventory)@,
                    scope,
                    *ty,
                    match initializer {
                        Some(e) => Some(*e),
                        None => None,
                    },
                ),
            ),
            final(inventory).ledgers@.len() == old(inventory).ledgers@.len(),
    {
        if !ty.is_array_of(&Ty::Bool) {
            return Ok(());
        }
        let e = match initializer {
            Some(e) => e,
            None => {
                return Ok(());
            },
        };
        if let ExprKind::ArrayLit(elements) = &e.kind {
            let n: usize = elements.len();
            let mut i: usize = 0;
            while i < n
                invariant
                    n == elements@.len(),
                    e.kind == ExprKind::ArrayLit(*elements),
                    ty.array_of(Ty::Bool),
                    initializer == Some(e),
                    scope.0 < inventory.ledgers@.len(),
                    inventory.ledgers@.len() == old(inventory).ledgers@.len(),
                    i <= n,
                    self@.meet_literal(old(inventory)@, scope, e.span, 0, n as nat)
                        == self@.meet_literal(inventory@, scope, e.span, i as nat, n as nat),
                decreases n - i,
            {
                match self.inventory_compiler_temp(
                    CompilerTempKey {
                        scope,
                        anchor: e.span,
                        kind: CompilerTempKind::BoolLiteralElement(i),
                    },
                    true,
                    inventory,
                ) {
                    Err(e) => {
                        return Err(e);
                    },
                    Ok(_) => {},
                }
                i = i + 1;
            }
        }
        Ok(())
    }

    fn inventory_staging(
        &self,
        staging: &AssignmentStaging,
        key: CompilerTempKey,
        refusal: &str,
        inventory: &mut BodyInventory,
    ) -> (r: Result<(), PlanError>)
        requires
            key.scope.0 < old(inventory).ledgers@.len(),
        ensures
            collects(
                r,
                final(inventory)@,
                self@.meet_staging(old(inventory)@, staging@, key, refusal@),
            ),
            final(inventory).ledgers@.len() == old(inventory).ledgers@.len(),
    {
        match staging {
            AssignmentStaging::Direct => Ok(()),
            AssignmentStaging::Temporary(place) => {
                let expected = match self.inventory_compiler_temp(key, false, inventory) {
                    Err(e) => {
                        return Err(e);
                    },
                    Ok(expected) => expected,
                };
                if !place.same(&expected) {
                    return Err(PlanError::new(key.anchor, refusal));
                }
                Ok(())
            },
        }
    }

    fn inventory_assignment(
        &self,
        scope: ScopeId,
        name: &String,
        span: Span,
        value: &Expr,
        inventory: &mut BodyInventory,
    ) -> (r: Result<(), PlanError>)
        requires
            self@.wf(),
            scope.0 < old(inventory).ledgers@.len(),
        ensures
            collects(
                r,
                final(inventory)@,
                self@.meet_assignment(old(inventory)@, scope, name@, span, *value),
            ),
            final(inventory).ledgers@.len() == old(inventory).ledgers@.len(),
    {
        let key = SiteKey { scope, span };
        if has_site(&inventory.assignments, key) {
            return Err(
                PlanError::new(span, "two assignments reuse one checked structural identity"),
            );
        }
        inventory.assignments.push(key);
        let destination = Place::local(name.as_str());
        let action = match self.assignment(scope, span, &destination) {
            Err(e) => {
                return Err(e);
            },
            Ok(action) => action,
        };
        let transfer = ValueTransferKey {
            owner: self.owner.copy(),
            span: value.span,
            sink: ValueTransferSink::Assignment(destination),
        };
        if !action.transfer_key.same(&transfer) {
            return Err(
                PlanError::new(
                    span,
                    "assignment action no longer matches its checked RHS type, span, or transfer identity",
                ),
            );
        }
        let ty = match checked_expression_ty(value, "assignment value") {
            Err(e) => {
                return Err(e);
            },
            Ok(ty) => ty,
        };
        if !action.ty.same_ty(&ty) {
            return Err(
                PlanError::new(
                    span,
                    "assignment action no longer matches its checked RHS type, span, or transfer identity",
                ),
            );
        }
        self.inventory_staging(
            &action.staging,
            CompilerTempKey { scope, anchor: span, kind: CompilerTempKind::AssignmentValue },
            "assignment staging place no longer matches its compiler temporary",
            inventory,
        )
    }

    fn inventory_field_assignment(
        &self,
        scope: ScopeId,
        field: &String,
        span: Span,
        value: &Expr,
        inventory: &mut BodyInventory,
    ) -> (r: Result<(), PlanError>)
        requires
            scope.0 < old(inventory).ledgers@.len(),
        ensures
            collects(
                r,
                final(inventory)@,
                self@.meet_field_assignment(old(inventory)@, scope, field@, span, *value),
            ),
            final(inventory).ledgers@.len() == old(inventory).ledgers@.len(),
    {
        let key = SiteKey { scope, span };
        if has_site(&inventory.field_assignments, key) {
            return Err(
                PlanError::new(span, "two field assignments reuse one checked structural identity"),
            );
        }
        inventory.field_assignments.push(key);
        let destination = Place::field("self", field.as_str());
        let action = match self.field_assignment(scope, span, &destination, value) {
            Err(e) => {
                return Err(e);
            },
            Ok(action) => action,
        };
        self.inventory_staging(
            &action.staging,
            CompilerTempKey { scope, anchor: span, kind: CompilerTempKind::FieldAssignmentValue },
            "field-assignment staging place no longer matches its compiler temporary",
            inventory,
        )
    }

    fn inventory_return(
        &self,
        scope: ScopeId,
        span: Span,
        has_value: bool,
        inventory: &mut BodyInventory,
    ) -> (r: Result<(), PlanError>)
        requires
            self@.wf(),
            scope.0 < self@.scopes.len(),
            old(inventory).fits(self@),
        ensures
            collects(
                r,
                final(inventory)@,
                self@.meet_return(old(inventory)@, scope, span, has_value),
            ),
            final(inventory).ledgers@.len() == old(inventory).ledgers@.len(),
    {
        let key = SiteKey { scope, span };
        if has_site(&inventory.returns, key) {
            return Err(PlanError::new(span, "two returns reuse one checked structural identity"));
        }
        inventory.returns.push(key);
        let routes = match self.explicit_return(span, scope) {
            Err(e) => {
                return Err(e);
            },
            Ok(routes) => routes,
        };
        if routes.result_slot.is_some() != has_value {
            return Err(
                PlanError::new(
                    span,
                    "checked return value shape no longer matches its planned result slot",
                ),
            );
        }
        if has_value {
            let expected = match self.inventory_compiler_temp(
                CompilerTempKey { scope, anchor: span, kind: CompilerTempKind::ReturnValue },
                false,
                inventory,
            ) {
                Err(e) => {
                    return Err(e);
                },
                Ok(expected) => expected,
            };
            let matched = match &routes.result_slot {
                Some(slot) => slot.same(&expected),
                None => false,
            };
            if !matched {
                return Err(
                    PlanError::new(
                        span,
                        "return result slot no longer matches its compiler temporary",
                    ),
                );
            }
        }
        Ok(())
    }

    fn inventory_discard(
        &self,
        scope: ScopeId,
        expression: &Expr,
        inventory: &mut BodyInventory,
    ) -> (r: Result<(), PlanError>)
        requires
            scope.0 < old(inventory).ledgers@.len(),
        ensures
            collects(
                r,
                final(inventory)@,
                self@.meet_discard(old(inventory)@, scope, *expression),
            ),
            final(inventory).ledgers@.len() == old(inventory).ledgers@.len(),
    {
        let span = expression.span;
        let ty = match checked_expression_ty(expression, "discarded expression") {
            Err(e) => {
                return Err(e);
            },
            Ok(ty) => ty,
        };
        if !matches!(ty, Ty::Class(_)) {
            return Ok(());
        }
        let key = SiteKey { scope, span };
        if has_site(&inventory.temporary_drops, key) {
            return Err(
                PlanError::new(
                    span,
                    "two discarded class temporaries reuse one checked structural identity",
                ),
            );
        }
        inventory.temporary_drops.push(key);
        let action = match self.temporary_drop(scope, expression) {
            Err(e) => {
                return Err(e);
            },
            Ok(action) => action,
        };
        let expected = match self.inventory_compiler_temp(
            CompilerTempKey { scope, anchor: span, kind: CompilerTempKind::DiscardedClassValue },
            false,
            inventory,
        ) {
            Err(e) => {
                return Err(e);
            },
            Ok(expected) => expected,
        };
        if !action.temporary.same(&expected) {
            return Err(
                PlanError::new(
                    span,
                    "discarded class action no longer uses its exact compiler temporary",
                ),
            );
        }
        Ok(())
    }

    fn inventory_exposure(
        &self,
        child: ScopeId,
        kw_span: Span,
        ptr: &String,
        ptr_span: Span,
        res: &String,
        res_span: Span,
        inventory: &mut BodyInventory,
    ) -> (r: Result<(), PlanError>)
        requires
            child.0 < old(inventory).ledgers@.len(),
        ensures
            collects(
                r,
                final(inventory)@,
                self@.meet_exposure(
                    old(inventory)@,
                    child,
                    kw_span,
                    ptr@,
                    ptr_span,
                    res@,
                    res_span,
                ),
            ),
            final(inventory).ledgers@.len() == old(inventory).ledgers@.len(),
    {
        inventory.raw_pair(child, ptr, ptr_span, res, res_span);
        match self.inventory_compiler_temp(
            CompilerTempKey { scope: child, anchor: kw_span, kind: CompilerTempKind::ExposureLoan },
            false,
            inventory,
        ) {
            Err(e) => {
                return Err(e);
            },
            Ok(_) => {},
        }
        match self.inventory_compiler_temp(
            CompilerTempKey {
                scope: child,
                anchor: kw_span,
                kind: CompilerTempKind::ExposureIndex,
            },
            false,
            inventory,
        ) {
            Err(e) => {
                return Err(e);
            },
            Ok(_) => {},
        }
        match self.inventory_compiler_temp(
            CompilerTempKey { scope: child, anchor: kw_span, kind: CompilerTempKind::ExposureByte },
            false,
            inventory,
        ) {
            Err(e) => {
                return Err(e);
            },
            Ok(_) => {},
        }
        Ok(())
    }

    /// Collects the traps of an expression and of everything inside it.
    pub fn inventory_expression(
        &self,
        expression: &Expr,
        scope: ScopeId,
        inventory: &mut BodyInventory,
    ) -> (r: Result<(), PlanError>)
        ensures
            collects(r, final(inventory)@, inv_expr(old(inventory)@, *expression, scope)),
            final(inventory).ledgers@.len() == old(inventory).ledgers@.len(),
        decreases expression, 0nat,
    {
        match expression_trap_keys(scope, expression) {
            Err(e) => {
                return Err(e);
            },
            Ok(keys) => inventory.extend_traps(keys),
        }
        match &expression.kind {
            ExprKind::Unary { operand, .. } => self.inventory_expression(operand, scope, inventory),
            ExprKind::Widen { arg, .. } => self.inventory_expression(arg, scope, inventory),
            ExprKind::Narrow { arg, .. } => self.inventory_expression(arg, scope, inventory),
            ExprKind::IsSome { operand } => self.inventory_expression(operand, scope, inventory),
            ExprKind::OptValue { operand } => self.inventory_expression(operand, scope, inventory),
            ExprKind::SomeE(operand) => self.inventory_expression(operand, scope, inventory),
            ExprKind::Binary { lhs, rhs, .. } => {
                match self.inventory_expression(lhs, scope, inventory) {
                    Err(e) => {
                        return Err(e);
                    },
                    Ok(_) => {},
                }
                self.inventory_expression(rhs, scope, inventory)
            },
            ExprKind::Call { args, .. } => self.inventory_arguments(args, scope, inventory),
            ExprKind::RawOp { args, .. } => self.inventory_arguments(args, scope, inventory),
            ExprKind::DeviceOp { args, .. } => self.inventory_arguments(args, scope, inventory),
            ExprKind::ResOp { args, .. } => self.inventory_arguments(args, scope, inventory),
            ExprKind::CtorCall { args, .. } => self.inventory_arguments(args, scope, inventory),
            ExprKind::TraitCall { args, .. } => self.inventory_arguments(args, scope, inventory),
            ExprKind::MethodCall { args, .. } => self.inventory_arguments(args, scope, inventory),
            ExprKind::RecordLit { args, .. } => self.inventory_arguments(args, scope, inventory),
            ExprKind::ArrayLit(args) => self.inventory_arguments(args, scope, inventory),
            ExprKind::SlotOp { args, .. } => self.inventory_arguments(args, scope, inventory),
            ExprKind::Index { index, .. } => self.inventory_expression(index, scope, inventory),
            ExprKind::SelfFieldIndex { index, .. } => self.inventory_expression(
                index,
                scope,
                inventory,
            ),
            ExprKind::ClassFieldIndex { index, .. } => self.inventory_expression(
                index,
                scope,
                inventory,
            ),
            ExprKind::AllocArray { len, init, .. } => {
                match self.inventory_expression(len, scope, inventory) {
                    Err(e) => {
                        return Err(e);
                    },
                    Ok(_) => {},
                }
                self.inventory_expression(init, scope, inventory)
            },
            _ => Ok(()),
        }
    }

    fn inventory_arguments(
        &self,
        args: &Vec<Expr>,
        scope: ScopeId,
        inventory: &mut BodyInventory,
    ) -> (r: Result<(), PlanError>)
        ensures
            collects(r, final(inventory)@, inv_exprs(old(inventory)@, args@, 0, scope)),
            final(inventory).ledgers@.len() == old(inventory).ledgers@.len(),
        decreases args@, args@.len() + 1,
    {
        let n: usize = args.len();
        let mut i: usize = 0;
        while i < n
            invariant
                n == args@.len(),
                i <= n,
                inventory.ledgers@.len() == old(inventory).ledgers@.len(),
                inv_exprs(old(inventory)@, args@, 0, scope) == inv_exprs(
                    inventory@,
                    args@,
                    i as nat,
                    scope,
                ),
            decreases n - i,
        {
            match self.inventory_expression(&args[i], scope, inventory) {
                Err(e) => {
                    return Err(e);
                },
                Ok(_) => {},
            }
            i = i + 1;
        }
        Ok(())
    }

    /// Collects what the statements of a block contain, looking each fact up in the plan.
    pub fn inventory_block(
        &self,
        statements: &[Stmt],
        scope: ScopeId,
        inventory: &mut BodyInventory,
    ) -> (r: Result<(), PlanError>)
        requires
            self@.wf(),
            scope.0 < self@.scopes.len(),
            old(inventory).fits(self@),
        ensures
            collects(
                r,
                final(inventory)@,
                inv_from(self@, old(inventory)@, statements@, 0, scope),
            ),
            final(inventory).ledgers@.len() == old(inventory).ledgers@.len(),
        decreases statements@, statements@.len() + 1,
    {
        let n: usize = statements.len();
        let mut i: usize = 0;
        while i < n
            invariant
                self@.wf(),
                scope.0 < self@.scopes.len(),
                inventory.fits(self@),
                inventory.ledgers@.len() == old(inventory).ledgers@.len(),
                n == statements@.len(),
                i <= n,
                inv_from(self@, old(inventory)@, statements@, 0, scope) == inv_from(
                    self@,
                    inventory@,
                    statements@,
                    i as nat,
                    scope,
                ),
            decreases n - i,
        {
            match self.inventory_statement(&statements[i], scope, inventory) {
                Err(e) => {
                    return Err(e);
                },
                Ok(_) => {},
            }
            i = i + 1;
        }
        Ok(())
    }

    fn inventory_statement(
        &self,
        statement: &Stmt,
        scope: ScopeId,
        inventory: &mut BodyInventory,
    ) -> (r: Result<(), PlanError>)
        requires
            self@.wf(),
            scope.0 < self@.scopes.len(),
            old(inventory).fits(self@),
        ensures
            collects(r, final(inventory)@, inv_stmt(self@, old(inventory)@, *statement, scope)),
            final(inventory).ledgers@.len() == old(inventory).ledgers@.len(),
        decreases statement, 1nat,
    {
        match direct_statement_traps(self, scope, statement) {
            Err(e) => {
                return Err(e);
            },
            Ok(traps) => inventory.extend_traps(traps),
        }
        self.inventory_inner(statement, scope, inventory)
    }

    fn inventory_inner(
        &self,
        statement: &Stmt,
        scope: ScopeId,
        inventory: &mut BodyInventory,
    ) -> (r: Result<(), PlanError>)
        requires
            self@.wf(),
            scope.0 < self@.scopes.len(),
            old(inventory).fits(self@),
        ensures
            collects(r, final(inventory)@, inv_inner(self@, old(inventory)@, *statement, scope)),
            final(inventory).ledgers@.len() == old(inventory).ledgers@.len(),
        decreases statement, 0nat,
    {
        match statement {
            Stmt::Decl { ty, name, name_span, init, .. } => {
                inventory.source_binding(scope, name, ty.clone(), *name_span);
                match self.inventory_array_literal_temps(scope, ty, init.as_ref(), inventory) {
                    Err(e) => {
                        return Err(e);
                    },
                    Ok(_) => {},
                }
                match init {
                    Some(e) => self.inventory_expression(e, scope, inventory),
                    None => Ok(()),
                }
            },
            Stmt::VarDecl { ty, name, name_span, init, .. } => {
                let ty = match ty {
                    None => {
                        return Err(
                            PlanError {
                                span: *name_span,
                                message: cat3(
                                    "inferred local `",
                                    name.as_str(),
                                    "` has no checked type for control reconciliation",
                                ),
                            },
                        );
                    },
                    Some(ty) => ty,
                };
                inventory.source_binding(scope, name, ty.clone(), *name_span);
                match self.inventory_array_literal_temps(scope, ty, Some(init), inventory) {
                    Err(e) => {
                        return Err(e);
                    },
                    Ok(_) => {},
                }
                self.inventory_expression(init, scope, inventory)
            },
            Stmt::Assign { name, name_span, value } => {
                match self.inventory_assignment(scope, name, *name_span, value, inventory) {
                    Err(e) => {
                        return Err(e);
                    },
                    Ok(_) => {},
                }
                self.inventory_expression(value, scope, inventory)
            },
            Stmt::FieldAssign { field, field_span, value } => {
                match self.inventory_field_assignment(scope, field, *field_span, value, inventory) {
                    Err(e) => {
                        return Err(e);
                    },
                    Ok(_) => {},
                }
                self.inventory_expression(value, scope, inventory)
            },
            Stmt::Return { value, span } => {
                match self.inventory_return(scope, *span, value.is_some(), inventory) {
                    Err(e) => {
                        return Err(e);
                    },
                    Ok(_) => {},
                }
                match value {
                    Some(e) => self.inventory_expression(e, scope, inventory),
                    None => Ok(()),
                }
            },
            Stmt::ExprStmt(e) => {
                match self.inventory_discard(scope, e, inventory) {
                    Err(e) => {
                        return Err(e);
                    },
                    Ok(_) => {},
                }
                self.inventory_expression(e, scope, inventory)
            },
            Stmt::Assert(_) => Ok(()),
            Stmt::FieldStore { index, value, .. } => {
                match self.inventory_expression(index, scope, inventory) {
                    Err(e) => {
                        return Err(e);
                    },
                    Ok(_) => {},
                }
                self.inventory_expression(value, scope, inventory)
            },
            Stmt::Store { index, value, .. } => {
                match self.inventory_expression(index, scope, inventory) {
                    Err(e) => {
                        return Err(e);
                    },
                    Ok(_) => {},
                }
                self.inventory_expression(value, scope, inventory)
            },
            Stmt::StaticAlloc { size, ptr, ptr_span, res, res_span, .. } => {
                inventory.raw_pair(scope, ptr, *ptr_span, res, *res_span);
                self.inventory_expression(size, scope, inventory)
            },
            Stmt::SystemAlloc { size, ptr, ptr_span, res, res_span, release, release_span, .. } => {
                inventory.raw_pair(scope, ptr, *ptr_span, res, *res_span);
                inventory.source_binding(
                    scope,
                    release,
                    Ty::Res(ResKind::SystemDealloc),
                    *release_span,
                );
                self.inventory_expression(size, scope, inventory)
            },
            Stmt::SystemDealloc { ptr, res, release, .. } => {
                match self.inventory_expression(ptr, scope, inventory) {
                    Err(e) => {
                        return Err(e);
                    },
                    Ok(_) => {},
                }
                match self.inventory_expression(res, scope, inventory) {
                    Err(e) => {
                        return Err(e);
                    },
                    Ok(_) => {},
                }
                self.inventory_expression(release, scope, inventory)
            },
            Stmt::Unsafe { body, .. } => self.inventory_block(body.as_slice(), scope, inventory),
            Stmt::While { cond, kw_span, body, .. } => {
                match self.inventory_expression(cond, scope, inventory) {
                    Err(e) => {
                        return Err(e);
                    },
                    Ok(_) => {},
                }
                let child = match self.enter_inventory_scope(
                    inventory,
                    ScopeKind::LoopBody,
                    *kw_span,
                    scope,
                ) {
                    Err(e) => {
                        return Err(e);
                    },
                    Ok(child) => child,
                };
                self.inventory_block(body.as_slice(), child, inventory)
            },
            Stmt::Expose { kw_span, ptr, ptr_span, res, res_span, body, .. } => {
                let child = match self.enter_inventory_scope(
                    inventory,
                    ScopeKind::Exposure,
                    *kw_span,
                    scope,
                ) {
                    Err(e) => {
                        return Err(e);
                    },
                    Ok(child) => child,
                };
                match self.inventory_exposure(
                    child,
                    *kw_span,
                    ptr,
                    *ptr_span,
                    res,
                    *res_span,
                    inventory,
                ) {
                    Err(e) => {
                        return Err(e);
                    },
                    Ok(_) => {},
                }
                self.inventory_block(body.as_slice(), child, inventory)
            },
            Stmt::If { cond, then_block, else_block } => {
                match self.inventory_expression(cond, scope, inventory) {
                    Err(e) => {
                        return Err(e);
                    },
                    Ok(_) => {},
                }
                let then_scope = match self.enter_inventory_scope(
                    inventory,
                    ScopeKind::BranchArm(BranchArm::Then),
                    cond.span,
                    scope,
                ) {
                    Err(e) => {
                        return Err(e);
                    },
                    Ok(child) => child,
                };
                match self.inventory_block(then_block.as_slice(), then_scope, inventory) {
                    Err(e) => {
                        return Err(e);
                    },
                    Ok(_) => {},
                }
                let planned = find_scope(
                    &self.scope_ids,
                    ScopeKind::BranchArm(BranchArm::Else),
                    cond.span,
                );
                match (else_block, planned) {
                    (None, None) => Ok(()),
                    (Some(_), None) => Err(
                        PlanError::new(cond.span, "checked body gained an unplanned else scope"),
                    ),
                    (None, Some(_)) => Err(
                        PlanError::new(
                            cond.span,
                            "checked body no longer contains its planned else scope",
                        ),
                    ),
                    (Some(block), Some(else_scope)) => {
                        proof {
                            let k = choose|k: int|
                                0 <= k < self.scope_ids@.len() && (#[trigger] self.scope_ids@[k]).id
                                    == else_scope;
                            assert(self@.scope_ids[k].id == else_scope);
                        }
                        let moved = match self.scope_parent(else_scope) {
                            Some(p) => p != scope,
                            None => true,
                        };
                        if moved {
                            return Err(
                                PlanError::new(
                                    cond.span,
                                    "checked else scope moved under a different lexical parent",
                                ),
                            );
                        }
                        match self.record_inventory_scope(
                            inventory,
                            else_scope,
                            ScopeKind::BranchArm(BranchArm::Else),
                            cond.span,
                        ) {
                            Err(e) => {
                                return Err(e);
                            },
                            Ok(_) => {},
                        }
                        self.inventory_block(block.as_slice(), else_scope, inventory)
                    },
                }
            },
        }
    }
}

} // verus!
