//! What a statement is held to before it runs, and the steps of a statement that run no code of
//! the program.
use vstd::prelude::*;

use crate::ast::{ty_name, ClassDecl, Expr, IntTy, Mutability, Stmt, Ty};
use crate::bindings::{find, value_of};
use crate::drops::{
    plan_err, ActionV, ExitKind, PlanError, RecipeV, ValueDropAction, ValueDropRecipe,
};
use crate::machine::{with_var, Frame, FrameV, Interp, MachV, Machine};
use crate::outline::{BlockKind, ScopeId, StatementPlanKind};
use crate::place::{field_place, local_place, Place, PlaceV};
use crate::plan::{
    AssignmentAction, AssignmentStaging, AssignV, BodyPlan, ExposureNormalPlan, ExposurePlan,
    ExposureV, FieldAssignV, FieldAssignmentAction, NormalV, PlanV, StagingV, TempDropV,
    TemporaryDropAction,
};
use crate::program::ProgramV;
use crate::rawheap::{alloc_of, fresh_alloc, AllocV};
use crate::repr::{group_views, opt_view, views, Repr};
use crate::span::Span;
use crate::text::{cat3, cat4, cat5, int_text, nat_text, owned, same_text, signed_decimal, usize_decimal};
use crate::value::{
    control_plan_trap, plan_trap, stuck, trap, undefined, yields, ArrV, RtVal, Trap, TrapV, ValV,
};

verus! {

broadcast use group_views;

/// Where a statement is, for a trap that belongs to none of its parts.
pub open spec fn span_of(s: Stmt) -> Span {
    match s {
        Stmt::Unsafe { kw_span, .. }
        | Stmt::StaticAlloc { kw_span, .. }
        | Stmt::SystemAlloc { kw_span, .. }
        | Stmt::SystemDealloc { kw_span, .. }
        | Stmt::Expose { kw_span, .. }
        | Stmt::While { kw_span, .. } => kw_span,
        Stmt::Decl { name_span, .. }
        | Stmt::Assign { name_span, .. }
        | Stmt::VarDecl { name_span, .. } => name_span,
        Stmt::Assert(c) => c.line_span,
        Stmt::If { cond, .. } => cond.span,
        Stmt::Return { span, .. } => span,
        Stmt::Store { array_span, .. } => array_span,
        Stmt::ExprStmt(e) => e.span,
        Stmt::FieldAssign { field_span, .. } | Stmt::FieldStore { field_span, .. } => field_span,
    }
}

pub fn stmt_span(s: &Stmt) -> (r: Span)
    ensures
        r == span_of(*s),
{
    match s {
        Stmt::Unsafe { kw_span, .. }
        | Stmt::StaticAlloc { kw_span, .. }
        | Stmt::SystemAlloc { kw_span, .. }
        | Stmt::SystemDealloc { kw_span, .. }
        | Stmt::Expose { kw_span, .. }
        | Stmt::While { kw_span, .. } => *kw_span,
        Stmt::Decl { name_span, .. }
        | Stmt::Assign { name_span, .. }
        | Stmt::VarDecl { name_span, .. } => *name_span,
        Stmt::Assert(c) => c.line_span,
        Stmt::If { cond, .. } => cond.span,
        Stmt::Return { span, .. } => *span,
        Stmt::Store { array_span, .. } => *array_span,
        Stmt::ExprStmt(e) => e.span,
        Stmt::FieldAssign { field_span, .. } | Stmt::FieldStore { field_span, .. } => *field_span,
    }
}

/// A refusal that the plan gives at run time.
pub open spec fn refuse(span: Span, message: Seq<char>) -> TrapV {
    plan_trap(plan_err(span, message))
}

pub fn refusal(span: Span, message: String) -> (r: Trap)
    ensures
        r@ == refuse(span, message@),
{
    control_plan_trap(PlanError { span, message })
}

// ------------------------------------------------------------------------------------------
// Before a statement
// ------------------------------------------------------------------------------------------

/// The statement has the role that the plan retained for it.
pub open spec fn role_matches(s: Stmt, kind: StatementPlanKind) -> bool {
    match s {
        Stmt::Return { .. } => kind is Return,
        Stmt::If { .. } => kind is Branch,
        Stmt::While { .. } => kind is Loop,
        Stmt::Unsafe { .. } => kind is Unsafe,
        Stmt::Expose { .. } => kind is Exposure,
        _ => kind is Linear,
    }
}

fn has_role(s: &Stmt, kind: StatementPlanKind) -> (r: bool)
    ensures
        r == role_matches(*s, kind),
{
    match s {
        Stmt::Return { .. } => matches!(kind, StatementPlanKind::Return),
        Stmt::If { .. } => matches!(kind, StatementPlanKind::Branch(_)),
        Stmt::While { .. } => matches!(kind, StatementPlanKind::Loop(_)),
        Stmt::Unsafe { .. } => matches!(kind, StatementPlanKind::Unsafe(_)),
        Stmt::Expose { .. } => matches!(kind, StatementPlanKind::Exposure(_)),
        _ => matches!(kind, StatementPlanKind::Linear(_)),
    }
}

/// The retained exposure belongs to its retained body and epilogue.
pub open spec fn exposure_attached(
    plan: PlanV,
    x: ExposureV,
    n: NormalV,
    scope: ScopeId,
    kw: Span,
) -> bool {
    let body = plan.blocks[x.body.0 as int];
    &&& x.parent_scope == scope
    &&& x.keyword_span == kw
    &&& body.kind == BlockKind::Exposure
    &&& body.anchor == kw
    &&& body.scope == x.body_scope
    &&& body.flow == x.body_flow
    &&& x.flow == x.body_flow
    &&& !x.body_flow.contains_return
    &&& n.parent_scope == scope
    &&& n.body_exit.kind == ExitKind::Fallthrough
    &&& n.body_exit.scopes == seq![x.body_scope]
    &&& n.close.kind == ExitKind::ExposureClose
    &&& n.close.scopes.len() == 0
    &&& n.close.clears.contains(n.release_loan)
    &&& n.capture == n.rebuild.resource
    &&& n.release_loan != n.rebuild.pointer
    &&& x.effect_key.owner == plan.owner
    &&& x.effect_key.span == kw
}

/// The source names, owner type and mutability are the retained ones.
pub open spec fn exposure_bound(
    n: NormalV,
    array: Seq<char>,
    mutable: bool,
    ptr: Seq<char>,
    res: Seq<char>,
    kw: Span,
) -> bool {
    &&& n.rebuild.owner == local_place(array)
    &&& n.rebuild.pointer == local_place(ptr)
    &&& n.rebuild.resource == local_place(res)
    &&& n.rebuild.mutability == (if mutable {
        Mutability::Mut
    } else {
        Mutability::Shared
    })
    &&& n.rebuild.keyword_span == kw
    &&& n.rebuild.owner_ty.spec_as_array() matches Some((Ty::Int(IntTy::U8), _))
}

/// The exposure of a statement, authenticated before its loan is opened.
pub open spec fn exposure_site(
    plan: PlanV,
    scope: ScopeId,
    kw: Span,
    array: Seq<char>,
    mutable: bool,
    ptr: Seq<char>,
    res: Seq<char>,
) -> Result<(ExposureV, NormalV), TrapV> {
    match plan.exposure_plan(scope, kw) {
        Err(e) => Err(plan_trap(e)),
        Ok(x) => if x.body.0 >= plan.blocks.len() {
            Err(stuck(kw, "exposure block"@))
        } else {
            match x.normal {
                None => Err(
                    refuse(kw, "interpreter exposure has no admitted normal close plan"@),
                ),
                Some(n) => if !exposure_attached(plan, x, n, scope, kw) {
                    Err(
                        refuse(
                            kw,
                            "exposure plan is detached from its retained body or normal epilogue"@,
                        ),
                    )
                } else if !exposure_bound(n, array, mutable, ptr, res, kw) {
                    Err(
                        refuse(
                            kw,
                            "exposure source bindings, owner type, or mutability disagree with the retained rebuild action"@,
                        ),
                    )
                } else {
                    Ok((x, n))
                },
            }
        },
    }
}

/// The action of a field assignment, authenticated before its value is computed.
pub open spec fn field_site(
    control: ProgramV,
    classes: Seq<ClassDecl>,
    plan: PlanV,
    scope: ScopeId,
    field: Seq<char>,
    span: Span,
    value: Expr,
) -> Result<FieldAssignV, TrapV> {
    let destination = field_place("self"@, field);
    match plan.field_assignment(scope, span, destination, value) {
        Err(e) => Err(plan_trap(e)),
        Ok(a) => if a.scope != scope || a.span != span || a.destination != destination {
            Err(refuse(span, "field assignment is detached from its retained action"@))
        } else if !match a.staging {
            StagingV::Temporary(temp) => a.drop_action is Some && temp.field is None,
            StagingV::Direct => a.drop_action is None,
        } {
            Err(refuse(span, "field assignment has inconsistent retained staging"@))
        } else {
            match a.drop_action {
                None => Ok(a),
                Some(action) => match control.check_action(action, classes, span) {
                    Err(e) => Err(plan_trap(e)),
                    Ok(_) => Ok(a),
                },
            }
        },
    }
}

/// The action of a discarded class result, authenticated before the result is computed.
pub open spec fn temporary_site(
    control: ProgramV,
    classes: Seq<ClassDecl>,
    plan: PlanV,
    scope: ScopeId,
    e: Expr,
) -> Result<TempDropV, TrapV> {
    match plan.temporary_drop(scope, e) {
        Err(err) => Err(plan_trap(err)),
        Ok(a) => if a.scope != scope || a.span != e.span || a.temporary.field is Some {
            Err(
                refuse(
                    e.span,
                    "discarded class result is detached from its retained temporary action"@,
                ),
            )
        } else {
            match control.check_action(a.drop_action, classes, e.span) {
                Err(err) => Err(plan_trap(err)),
                Ok(_) => Ok(a),
            }
        },
    }
}

/// What was authenticated for one statement.
pub ghost struct ReadyV {
    pub exposure: Option<(ExposureV, NormalV)>,
    pub field: Option<FieldAssignV>,
    pub temporary: Option<TempDropV>,
}

/// What a statement is held to before it spends a step or changes anything: the run decides
/// whether a retained destination is present, never which recipe belongs to it.
#[verifier::opaque]
pub open spec fn preflight(
    control: ProgramV,
    classes: Seq<ClassDecl>,
    plan: PlanV,
    s: Stmt,
    kind: StatementPlanKind,
    scope: ScopeId,
) -> Result<ReadyV, TrapV> {
    let none = ReadyV { exposure: None, field: None, temporary: None };
    if !role_matches(s, kind) {
        Err(
            refuse(span_of(s), "runtime statement disagrees with its retained structural role"@),
        )
    } else {
        match s {
            Stmt::Expose { kw_span, array, mutable, ptr, res, .. } => match exposure_site(
                plan,
                scope,
                kw_span,
                array@,
                mutable,
                ptr@,
                res@,
            ) {
                Err(t) => Err(t),
                Ok(x) => Ok(ReadyV { exposure: Some(x), ..none }),
            },
            Stmt::FieldAssign { field, field_span, value } => match field_site(
                control,
                classes,
                plan,
                scope,
                field@,
                field_span,
                value,
            ) {
                Err(t) => Err(t),
                Ok(a) => Ok(ReadyV { field: Some(a), ..none }),
            },
            Stmt::ExprStmt(e) => if e.ty matches Some(Ty::Class(_)) {
                match temporary_site(control, classes, plan, scope, e) {
                    Err(t) => Err(t),
                    Ok(a) => Ok(ReadyV { temporary: Some(a), ..none }),
                }
            } else {
                Ok(none)
            },
            _ => Ok(none),
        }
    }
}

/// What was authenticated for one statement.
pub struct Ready<'p> {
    pub exposure: Option<(&'p ExposurePlan, &'p ExposureNormalPlan)>,
    pub field: Option<&'p FieldAssignmentAction>,
    pub temporary: Option<&'p TemporaryDropAction>,
}

impl<'p> Ready<'p> {
    pub open spec fn view(&self) -> ReadyV {
        ReadyV {
            exposure: match self.exposure {
                Some((x, n)) => Some((x@, n@)),
                None => None,
            },
            field: opt_view(self.field),
            temporary: opt_view(self.temporary),
        }
    }

    fn none() -> (r: Self)
        ensures
            r@ == (ReadyV { exposure: None, field: None, temporary: None }),
    {
        Ready { exposure: None, field: None, temporary: None }
    }
}

fn contains_place(places: &Vec<Place>, p: &Place) -> (r: bool)
    ensures
        r == views(places@).contains(p@),
{
    let n: usize = places.len();
    let mut i: usize = 0;
    while i < n
        invariant
            n == places@.len(),
            i <= n,
            forall|k: int| 0 <= k < i ==> views(places@)[k] != p@,
        decreases n - i,
    {
        if places[i].same(p) {
            assert(views(places@)[i as int] == p@);
            return true;
        }
        i = i + 1;
    }
    false
}

fn is_attached(
    plan: &BodyPlan,
    x: &ExposurePlan,
    n: &ExposureNormalPlan,
    scope: ScopeId,
    kw: Span,
) -> (r: bool)
    requires
        x@.body.0 < plan@.blocks.len(),
    ensures
        r == exposure_attached(plan@, x@, n@, scope, kw),
{
    let body = plan.block(x.body);
    let here = x.parent_scope == scope && x.keyword_span == kw;
    let same_body = matches!(body.kind, BlockKind::Exposure) && body.anchor == kw && body.scope
        == x.body_scope && body.flow == x.body_flow && x.flow == x.body_flow
        && !x.body_flow.contains_return;
    let one_scope = n.body_exit.scopes.len() == 1 && n.body_exit.scopes[0] == x.body_scope;
    proof {
        let scopes = n@.body_exit.scopes;
        assert(scopes == views(n.body_exit.scopes@));
        if one_scope {
            assert(scopes =~= seq![x@.body_scope]);
        }
        if scopes == seq![x@.body_scope] {
            assert(scopes.len() == 1);
            assert(scopes[0] == n.body_exit.scopes@[0]);
        }
    }
    let exits = n.parent_scope == scope && matches!(n.body_exit.kind, ExitKind::Fallthrough)
        && one_scope && matches!(n.close.kind, ExitKind::ExposureClose)
        && n.close.scopes.len() == 0 && contains_place(&n.close.clears, &n.release_loan);
    assert(n@.close.scopes.len() == n.close.scopes@.len());
    let names = n.capture.same(&n.rebuild.resource) && !n.release_loan.same(&n.rebuild.pointer);
    let effect = x.effect_key.owner.same(&plan.owner) && x.effect_key.span == kw;
    here && same_body && exits && names && effect
}

fn is_bound(n: &ExposureNormalPlan, array: &str, mutable: bool, ptr: &str, res: &str, kw: Span) -> (r:
    bool)
    ensures
        r == exposure_bound(n@, array@, mutable, ptr@, res@, kw),
{
    let expected = if mutable {
        Mutability::Mut
    } else {
        Mutability::Shared
    };
    let bytes = match n.rebuild.owner_ty.as_array() {
        Some((Ty::Int(IntTy::U8), _)) => true,
        _ => false,
    };
    n.rebuild.owner.same(&Place::local(array)) && n.rebuild.pointer.same(&Place::local(ptr))
        && n.rebuild.resource.same(&Place::local(res)) && n.rebuild.mutability == expected
        && n.rebuild.keyword_span == kw && bytes
}

fn authenticate_exposure<'p>(
    plan: &'p BodyPlan,
    scope: ScopeId,
    kw: Span,
    array: &str,
    mutable: bool,
    ptr: &str,
    res: &str,
) -> (r: Result<(&'p ExposurePlan, &'p ExposureNormalPlan), Trap>)
    requires
        plan@.wf(),
    ensures
        match exposure_site(plan@, scope, kw, array@, mutable, ptr@, res@) {
            Ok((x, n)) => r matches Ok((a, b)) && a@ == x && b@ == n,
            Err(t) => r matches Err(e) && e@ == t,
        },
{
    let x = match plan.exposure_plan(scope, kw) {
        Err(e) => {
            return Err(control_plan_trap(e));
        },
        Ok(x) => x,
    };
    if x.body.0 >= plan.blocks.len() {
        return Err(Trap::stuck(kw, "exposure block"));
    }
    let n = match &x.normal {
        None => {
            return Err(
                refusal(kw, owned("interpreter exposure has no admitted normal close plan")),
            );
        },
        Some(n) => n,
    };
    if !is_attached(plan, x, n, scope, kw) {
        return Err(
            refusal(
                kw,
                owned("exposure plan is detached from its retained body or normal epilogue"),
            ),
        );
    }
    if !is_bound(n, array, mutable, ptr, res, kw) {
        return Err(
            refusal(
                kw,
                owned(
                    "exposure source bindings, owner type, or mutability disagree with the retained rebuild action",
                ),
            ),
        );
    }
    Ok((x, n))
}

impl<'a> Interp<'a> {
    fn authenticate_field<'p>(
        &self,
        plan: &'p BodyPlan,
        scope: ScopeId,
        field: &str,
        span: Span,
        value: &Expr,
    ) -> (r: Result<&'p FieldAssignmentAction, Trap>)
        ensures
            yields(
                r,
                field_site(
                    self@.control,
                    self@.classes,
                    plan@,
                    scope,
                    field@,
                    span,
                    *value,
                ),
            ),
    {
        let destination = Place::field("self", field);
        let a = match plan.field_assignment(scope, span, &destination, value) {
            Err(e) => {
                return Err(control_plan_trap(e));
            },
            Ok(a) => a,
        };
        if a.scope != scope || a.span != span || !a.destination.same(&destination) {
            return Err(
                refusal(span, owned("field assignment is detached from its retained action")),
            );
        }
        let consistent = match &a.staging {
            AssignmentStaging::Temporary(temp) => a.drop_action.is_some() && temp.is_root(),
            AssignmentStaging::Direct => a.drop_action.is_none(),
        };
        if !consistent {
            return Err(
                refusal(span, owned("field assignment has inconsistent retained staging")),
            );
        }
        match &a.drop_action {
            None => {},
            Some(action) => match self.control.validate_value_drop_action(
                action,
                self.classes.as_slice(),
                span,
            ) {
                Err(e) => {
                    return Err(control_plan_trap(e));
                },
                Ok(_) => {},
            },
        }
        Ok(a)
    }

    fn authenticate_temporary<'p>(&self, plan: &'p BodyPlan, scope: ScopeId, e: &Expr) -> (r: Result<
        &'p TemporaryDropAction,
        Trap,
    >)
        ensures
            yields(r, temporary_site(self@.control, self@.classes, plan@, scope, *e)),
    {
        let a = match plan.temporary_drop(scope, e) {
            Err(err) => {
                return Err(control_plan_trap(err));
            },
            Ok(a) => a,
        };
        if a.scope != scope || a.span != e.span || !a.temporary.is_root() {
            return Err(
                refusal(
                    e.span,
                    owned("discarded class result is detached from its retained temporary action"),
                ),
            );
        }
        match self.control.validate_value_drop_action(
            &a.drop_action,
            self.classes.as_slice(),
            e.span,
        ) {
            Err(err) => Err(control_plan_trap(err)),
            Ok(_) => Ok(a),
        }
    }

    pub fn preflight<'p>(
        &self,
        plan: &'p BodyPlan,
        s: &Stmt,
        kind: StatementPlanKind,
        scope: ScopeId,
    ) -> (r: Result<Ready<'p>, Trap>)
        requires
            plan@.wf(),
        ensures
            match preflight(self@.control, self@.classes, plan@, *s, kind, scope) {
                Ok(x) => r matches Ok(y) && y@ == x,
                Err(t) => r matches Err(e) && e@ == t,
            },
    {
        proof {
            reveal(preflight);
        }
        if !has_role(s, kind) {
            return Err(
                refusal(
                    stmt_span(s),
                    owned("runtime statement disagrees with its retained structural role"),
                ),
            );
        }
        match s {
            Stmt::Expose { kw_span, array, mutable, ptr, res, .. } => {
                match authenticate_exposure(
                    plan,
                    scope,
                    *kw_span,
                    array.as_str(),
                    *mutable,
                    ptr.as_str(),
                    res.as_str(),
                ) {
                    Err(t) => Err(t),
                    Ok(x) => Ok(Ready { exposure: Some(x), field: None, temporary: None }),
                }
            },
            Stmt::FieldAssign { field, field_span, value } => {
                match self.authenticate_field(plan, scope, field.as_str(), *field_span, value) {
                    Err(t) => Err(t),
                    Ok(a) => Ok(Ready { exposure: None, field: Some(a), temporary: None }),
                }
            },
            Stmt::ExprStmt(e) => {
                if matches!(&e.ty, Some(Ty::Class(_))) {
                    match self.authenticate_temporary(plan, scope, e) {
                        Err(t) => Err(t),
                        Ok(a) => Ok(Ready { exposure: None, field: None, temporary: Some(a) }),
                    }
                } else {
                    Ok(Ready::none())
                }
            },
            _ => Ok(Ready::none()),
        }
    }
}

// ------------------------------------------------------------------------------------------
// Assignments
// ------------------------------------------------------------------------------------------

/// The action of an assignment: its scope and staging are consistent.
#[verifier::opaque]
pub open spec fn assignment_site(plan: PlanV, scope: ScopeId, name: Seq<char>, span: Span) -> Result<
    AssignV,
    TrapV,
> {
    match plan.assignment(scope, span, local_place(name)) {
        Err(e) => Err(plan_trap(e)),
        Ok(a) => if a.scope != scope {
            Err(
                undefined(
                    a.span,
                    "internal control assignment has a mismatched lexical scope"@,
                ),
            )
        } else if !match a.staging {
            StagingV::Temporary(temp) => a.previous is Some && temp.field is None,
            StagingV::Direct => a.previous is None,
        } {
            Err(undefined(a.span, "internal control assignment has inconsistent staging"@))
        } else {
            Ok(a)
        },
    }
}

/// The recipe for what an assignment replaces, once its value is at hand.
#[verifier::opaque]
pub open spec fn replaced_recipe(plan: PlanV, f: FrameV, a: AssignV) -> Result<
    Option<ActionV>,
    TrapV,
> {
    match a.previous {
        None => Ok(None),
        Some(drop) => if !f.reached.contains(drop) {
            Err(
                undefined(
                    a.span,
                    "internal control assignment reached `"@ + a.destination.text()
                        + "` before its binding"@,
                ),
            )
        } else if drop.0 >= plan.candidates.len() {
            Err(stuck(a.span, "drop candidate"@))
        } else {
            let c = plan.candidates[drop.0 as int];
            if c.place != a.destination || c.drop_action.ty != a.ty {
                Err(
                    undefined(
                        a.span,
                        "internal control assignment names a mismatched drop candidate"@,
                    ),
                )
            } else {
                Ok(Some(c.drop_action))
            }
        },
    }
}

pub fn find_assignment<'p>(plan: &'p BodyPlan, scope: ScopeId, name: &str, span: Span) -> (r: Result<
    &'p AssignmentAction,
    Trap,
>)
    requires
        plan@.wf(),
    ensures
        yields(r, assignment_site(plan@, scope, name@, span)),
{
    proof {
        reveal(assignment_site);
    }
    let a = match plan.assignment(scope, span, &Place::local(name)) {
        Err(e) => {
            return Err(control_plan_trap(e));
        },
        Ok(a) => a,
    };
    if a.scope != scope {
        return Err(
            Trap::undefined(
                a.span,
                owned("internal control assignment has a mismatched lexical scope"),
            ),
        );
    }
    let consistent = match &a.staging {
        AssignmentStaging::Temporary(temp) => a.previous.is_some() && temp.is_root(),
        AssignmentStaging::Direct => a.previous.is_none(),
    };
    if !consistent {
        return Err(
            Trap::undefined(
                a.span,
                owned("internal control assignment has inconsistent staging"),
            ),
        );
    }
    Ok(a)
}

pub fn find_replaced<'p>(plan: &'p BodyPlan, frame: &Frame, a: &AssignmentAction) -> (r: Result<
    Option<&'p ValueDropAction>,
    Trap,
>)
    ensures
        match replaced_recipe(plan@, frame@, a@) {
            Ok(x) => r matches Ok(y) && opt_view(y) == x,
            Err(t) => r matches Err(e) && e@ == t,
        },
{
    proof {
        reveal(replaced_recipe);
    }
    let drop = match a.previous {
        None => {
            return Ok(None);
        },
        Some(drop) => drop,
    };
    if !crate::machine::has_drop(&frame.reached, drop) {
        return Err(
            Trap::undefined(
                a.span,
                cat3(
                    "internal control assignment reached `",
                    a.destination.render().as_str(),
                    "` before its binding",
                ),
            ),
        );
    }
    if drop.0 >= plan.candidates.len() {
        return Err(Trap::stuck(a.span, "drop candidate"));
    }
    let c = plan.candidate(drop);
    if !c.place.same(&a.destination) || !c.drop_action.ty.same_ty(&a.ty) {
        return Err(
            Trap::undefined(
                a.span,
                owned("internal control assignment names a mismatched drop candidate"),
            ),
        );
    }
    Ok(Some(&c.drop_action))
}

// ------------------------------------------------------------------------------------------
// Values and recipes
// ------------------------------------------------------------------------------------------

pub open spec fn payload_differs(what: Seq<char>, actual: Ty, element: Ty, span: Span) -> TrapV {
    refuse(
        span,
        "runtime array `"@ + what + "` has payload `"@ + ty_name(actual)
            + "`, not retained payload `"@ + ty_name(element) + "`"@,
    )
}

pub fn payload_refusal(what: &str, actual: &Ty, element: &Ty, span: Span) -> (r: Trap)
    ensures
        r@ == payload_differs(what@, *actual, *element, span),
{
    refusal(
        span,
        cat3(
            cat5(
                "runtime array `",
                what,
                "` has payload `",
                actual.name().as_str(),
                "`, not retained payload `",
            ).as_str(),
            element.name().as_str(),
            "`",
        ),
    )
}

/// The value has the shape of a recipe.
#[verifier::opaque]
pub open spec fn shape_fits(
    control: ProgramV,
    classes: Seq<ClassDecl>,
    m: MachV,
    v: ValV,
    a: ActionV,
    what: Seq<char>,
    span: Span,
) -> bool
    decreases a, 0nat,
{
    match a.recipe {
        RecipeV::DropClass(c) => v matches ValV::Obj { class, .. } && class == c.class,
        RecipeV::ReleaseArray { element } => v is Arr,
        RecipeV::DropPresent(payload) => match v {
            ValV::AffineOptBoolArray(value) => (payload.recipe matches RecipeV::ReleaseArray {
                element,
            } && element == Ty::Bool) && (value matches Some(id) ==> value_fits(
                control,
                classes,
                m,
                ValV::Arr(id),
                *payload,
                what,
                span,
            ) is Ok),
            ValV::AffineOptClass { class, value } => (payload.recipe matches RecipeV::DropClass(
                c,
            ) && c.class == class) && (value matches Some(fields) ==> value_fits(
                control,
                classes,
                m,
                ValV::Obj { class, fields },
                *payload,
                what,
                span,
            ) is Ok),
            _ => false,
        },
    }
}

/// The value is one that the retained recipe can later destroy.
#[verifier::opaque]
pub open spec fn value_fits(
    control: ProgramV,
    classes: Seq<ClassDecl>,
    m: MachV,
    v: ValV,
    a: ActionV,
    what: Seq<char>,
    span: Span,
) -> Result<(), TrapV>
    decreases a, 1nat,
{
    match control.check_action(a, classes, span) {
        Err(e) => Err(plan_trap(e)),
        Ok(_) => match array_conflict(m, v, a, what, span) {
            Some(t) => Err(t),
            None => if shape_fits(control, classes, m, v, a, what, span) {
                Ok(())
            } else {
                Err(
                    refuse(
                        span,
                        "runtime value `"@ + what + "` does not match retained cleanup type `"@
                            + ty_name(a.ty) + "`"@,
                    ),
                )
            },
        },
    }
}

/// Where an array's payload is not the one its recipe releases.
pub open spec fn array_conflict(m: MachV, v: ValV, a: ActionV, what: Seq<char>, span: Span) -> Option<
    TrapV,
> {
    match (a.recipe, v) {
        (RecipeV::ReleaseArray { element }, ValV::Arr(id)) => match m.heap.array(id) {
            None => Some(stuck(span, "array"@)),
            Some(array) => if array.payload != element {
                Some(payload_differs(what, array.payload, element, span))
            } else {
                None
            },
        },
        _ => None,
    }
}

impl<'a> Interp<'a> {
    fn shape_fits(
        &self,
        m: &Machine,
        v: &RtVal,
        a: &ValueDropAction,
        what: &str,
        span: Span,
    ) -> (r: bool)
        ensures
            r == shape_fits(self@.control, self@.classes, m@, v@, a@, what@, span),
        decreases a, 0nat,
    {
        proof {
            reveal(shape_fits);
            reveal(value_fits);
        }
        match &a.recipe {
            ValueDropRecipe::DropClass(c) => match v {
                RtVal::Obj { class, fields: _ } => *class == c.class,
                _ => false,
            },
            ValueDropRecipe::ReleaseArray { element: _ } => matches!(v, RtVal::Arr(_)),
            ValueDropRecipe::DropPresent(payload) => match v {
                RtVal::AffineOptBoolArray(value) => {
                    let owns_bools = match &payload.recipe {
                        ValueDropRecipe::ReleaseArray { element } => element.same_ty(&Ty::Bool),
                        _ => false,
                    };
                    owns_bools && match value {
                        None => true,
                        Some(id) => self.validate_runtime_value_for_action(
                            m,
                            &RtVal::Arr(*id),
                            payload,
                            what,
                            span,
                        ).is_ok(),
                    }
                },
                RtVal::AffineOptClass { class, value } => {
                    let same_class = match &payload.recipe {
                        ValueDropRecipe::DropClass(c) => c.class == *class,
                        _ => false,
                    };
                    same_class && match value {
                        None => true,
                        Some(fields) => self.validate_runtime_value_for_action(
                            m,
                            &RtVal::Obj { class: *class, fields: *fields },
                            payload,
                            what,
                            span,
                        ).is_ok(),
                    }
                },
                _ => false,
            },
        }
    }

    pub fn validate_runtime_value_for_action(
        &self,
        m: &Machine,
        held: &RtVal,
        action: &ValueDropAction,
        what: &str,
        use_span: Span,
    ) -> (r: Result<(), Trap>)
        ensures
            yields(
                r,
                value_fits(
                    self@.control,
                    self@.classes,
                    m@,
                    held@,
                    action@,
                    what@,
                    use_span,
                ),
            ),
        decreases action, 1nat,
    {
        proof {
            reveal(value_fits);
            reveal(shape_fits);
        }
        match self.control.validate_value_drop_action(
            action,
            self.classes.as_slice(),
            use_span,
        ) {
            Err(e) => {
                return Err(control_plan_trap(e));
            },
            Ok(_) => {},
        }
        match (&action.recipe, held) {
            (ValueDropRecipe::ReleaseArray { element }, RtVal::Arr(id)) => {
                match m.heap.array(*id) {
                    None => {
                        return Err(Trap::stuck(use_span, "array"));
                    },
                    Some(array) => {
                        if !array.payload.same_ty(element) {
                            return Err(
                                payload_refusal(what, &array.payload, element, use_span),
                            );
                        }
                    },
                }
            },
            _ => {},
        }
        if self.shape_fits(m, held, action, what, use_span) {
            return Ok(());
        }
        Err(
            refusal(
                use_span,
                cat5(
                    "runtime value `",
                    what,
                    "` does not match retained cleanup type `",
                    action.ty.name().as_str(),
                    "`",
                ),
            ),
        )
    }
}

// ------------------------------------------------------------------------------------------
// Raw storage
// ------------------------------------------------------------------------------------------

/// New raw storage of `n` uninitialized bytes.
pub open spec fn raw_alloc(m: MachV, n: i128, span: Span) -> (Result<i128, TrapV>, MachV) {
    if n < 0 || n > usize::MAX {
        (Err(stuck(span, "allocation size"@)), m)
    } else {
        (
            Ok(m.raw.len() as i128),
            MachV { raw: m.raw.push(fresh_alloc(Seq::new(n as nat, |i: int| None))), ..m },
        )
    }
}

/// Raw storage is given back through the pointer to its start, once.
pub open spec fn raw_free(m: MachV, a: i128, off: i128, span: Span) -> (Result<(), TrapV>, MachV) {
    match alloc_of(m.raw, a as int) {
        None => (
            Err(
                undefined(span, "system_dealloc names absent allocation "@ + int_text(a as int)),
            ),
            m,
        ),
        Some(al) => if off != 0 || !al.live {
            (
                Err(
                    undefined(
                        span,
                        "system_dealloc needs a live base pointer: "@ + int_text(a as int) + "+"@
                            + int_text(off as int),
                    ),
                ),
                m,
            )
        } else {
            (
                Ok(()),
                MachV { raw: m.raw.update(a as int, AllocV { live: false, ..al }), ..m },
            )
        },
    }
}

impl Machine {
    pub fn raw_alloc(&mut self, n: i128, span: Span) -> (r: Result<i128, Trap>)
        ensures
            match raw_alloc(old(self)@, n, span).0 {
                Ok(a) => r matches Ok(x) && x == a,
                Err(t) => r matches Err(e) && e@ == t,
            },
            final(self)@ == raw_alloc(old(self)@, n, span).1,
    {
        if n < 0 || n > usize::MAX as i128 {
            return Err(Trap::stuck(span, "allocation size"));
        }
        let len: usize = n as usize;
        let mut bytes: Vec<Option<i128>> = Vec::new();
        let mut i: usize = 0;
        while i < len
            invariant
                i <= len,
                bytes@ == Seq::new(i as nat, |k: int| None::<i128>),
            decreases len - i,
        {
            bytes.push(None);
            assert(bytes@ =~= Seq::new((i + 1) as nat, |k: int| None::<i128>));
            i = i + 1;
        }
        Ok(self.raw.fresh(bytes))
    }

    /// Marks an allocation dead.
    fn retire(&mut self, i: usize)
        requires
            i < old(self).raw.allocs@.len(),
        ensures
            final(self)@ == (MachV {
                raw: old(self)@.raw.update(
                    i as int,
                    AllocV { live: false, ..old(self)@.raw[i as int] },
                ),
                ..old(self)@
            }),
    {
        let ghost before = self.raw.allocs@;
        assert(self@.raw[i as int] == before[i as int]@);
        self.raw.allocs[i].live = false;
        assert(self.raw.allocs@ =~= before.update(i as int, self.raw.allocs@[i as int]));
    }

    pub fn raw_free(&mut self, a: i128, off: i128, span: Span) -> (r: Result<(), Trap>)
        ensures
            yields(r, raw_free(old(self)@, a, off, span).0),
            final(self)@ == raw_free(old(self)@, a, off, span).1,
    {
        match self.raw.index_of(a) {
            None => Err(
                Trap::undefined(
                    span,
                    crate::text::cat2(
                        "system_dealloc names absent allocation ",
                        signed_decimal(a).as_str(),
                    ),
                ),
            ),
            Some(i) => {
                if off != 0 || !self.raw.allocs[i].live {
                    return Err(
                        Trap::undefined(
                            span,
                            cat4(
                                "system_dealloc needs a live base pointer: ",
                                signed_decimal(a).as_str(),
                                "+",
                                signed_decimal(off).as_str(),
                            ),
                        ),
                    );
                }
                self.retire(i);
                Ok(())
            },
        }
    }
}

// ------------------------------------------------------------------------------------------
// Exposures
// ------------------------------------------------------------------------------------------

/// An open loan: the array it was copied from, and the raw storage of the copy.
pub struct Loan {
    pub owner: String,
    pub capture: String,
    pub release: String,
    pub array: usize,
    pub alloc: i128,
    pub len: usize,
}

pub ghost struct LoanV {
    pub owner: Seq<char>,
    pub capture: Seq<char>,
    pub release: Seq<char>,
    pub array: usize,
    pub alloc: i128,
    pub len: usize,
}

impl View for Loan {
    type V = LoanV;

    open spec fn view(&self) -> LoanV {
        LoanV {
            owner: self.owner@,
            capture: self.capture@,
            release: self.release@,
            array: self.array,
            alloc: self.alloc,
            len: self.len,
        }
    }
}

/// A place of an exposure, which is a local.
pub open spec fn exposure_root(p: PlaceV, role: Seq<char>, kw: Span) -> Result<Seq<char>, TrapV> {
    if p.field is Some {
        Err(
            refuse(
                kw,
                "interpreter exposure "@ + role + " `"@ + p.text() + "` is not a local"@,
            ),
        )
    } else {
        Ok(p.root)
    }
}

/// The places of an exposure, in order.
pub open spec fn exposure_roots(n: NormalV, kw: Span) -> Result<
    (Seq<char>, Seq<char>, Seq<char>, Seq<char>, Seq<char>),
    TrapV,
> {
    match exposure_root(n.rebuild.owner, "owner"@, kw) {
        Err(t) => Err(t),
        Ok(owner) => match exposure_root(n.rebuild.pointer, "pointer"@, kw) {
            Err(t) => Err(t),
            Ok(pointer) => match exposure_root(n.rebuild.resource, "resource"@, kw) {
                Err(t) => Err(t),
                Ok(resource) => match exposure_root(n.capture, "capture"@, kw) {
                    Err(t) => Err(t),
                    Ok(capture) => match exposure_root(n.release_loan, "release"@, kw) {
                        Err(t) => Err(t),
                        Ok(release) => Ok((owner, pointer, resource, capture, release)),
                    },
                },
            },
        },
    }
}

/// The bytes of an array.
pub open spec fn byte_values(values: Seq<ValV>) -> bool {
    forall|i: int| 0 <= i < values.len() ==> (#[trigger] values[i]) is Int
}

/// Copies the array into new raw storage, and binds the names of the exposure.
#[verifier::opaque]
pub open spec fn open_loan(n: NormalV, kw: Span, m: MachV, f: FrameV) -> (
    Result<LoanV, TrapV>,
    MachV,
    FrameV,
) {
    match exposure_roots(n, kw) {
        Err(t) => (Err(t), m, f),
        Ok((owner, pointer, resource, capture, release)) => if capture != resource
            || n.rebuild.keyword_span != kw {
            (
                Err(
                    refuse(
                        kw,
                        "exposure capture/rebuild identities disagree with the retained site"@,
                    ),
                ),
                m,
                f,
            )
        } else {
            match value_of(f.vars, owner) {
                Some(ValV::Arr(id)) => match (m.heap.array(id), n.rebuild.owner_ty.spec_as_array()) {
                    (Some(a), Some((payload, _))) => if a.payload != payload {
                        (
                            Err(
                                refuse(
                                    kw,
                                    "exposure runtime owner payload disagrees with its retained owner type"@,
                                ),
                            ),
                            m,
                            f,
                        )
                    } else if !byte_values(a.values) {
                        (Err(stuck(kw, "byte element"@)), m, f)
                    } else {
                        let alloc = m.raw.len() as i128;
                        let bytes = Seq::new(a.values.len(), |i: int| Some(a.values[i]->Int_0));
                        let p = ValV::Ptr(alloc, 0);
                        (
                            Ok(
                                LoanV {
                                    owner,
                                    capture,
                                    release,
                                    array: id,
                                    alloc,
                                    len: a.values.len() as usize,
                                },
                            ),
                            MachV { raw: m.raw.push(fresh_alloc(bytes)), ..m },
                            with_var(
                                with_var(with_var(f, pointer, p), resource, ValV::Unit),
                                release,
                                p,
                            ),
                        )
                    },
                    _ => (Err(stuck(kw, "exposed array"@)), m, f),
                },
                _ => (
                    Err(
                        refuse(
                            kw,
                            "interpreter exposure owner `"@ + owner
                                + "` is absent or not an array"@,
                        ),
                    ),
                    m,
                    f,
                ),
            }
        },
    }
}

/// The final bytes of the loan, while its resource is still bound and its storage live.
#[verifier::opaque]
pub open spec fn capture_loan(loan: LoanV, kw: Span, m: MachV, f: FrameV) -> Result<
    Seq<Option<i128>>,
    TrapV,
> {
    if value_of(f.vars, loan.capture) is None {
        Err(refuse(kw, "exposure capture action reached an absent resource binding"@))
    } else {
        match alloc_of(m.raw, loan.alloc as int) {
            None => Err(refuse(kw, "exposure capture action names an absent raw loan"@)),
            Some(al) => if !al.live {
                Err(refuse(kw, "exposure capture action names a released raw loan"@))
            } else {
                Ok(al.bytes)
            },
        }
    }
}

/// Copies the captured bytes from `i` on back into the array.
pub open spec fn copy_back(m: MachV, loan: LoanV, bytes: Seq<Option<i128>>, kw: Span, i: nat) -> (
    Result<(), TrapV>,
    MachV,
)
    decreases bytes.len() - i,
{
    if i >= bytes.len() || i >= loan.len {
        (Ok(()), m)
    } else {
        match bytes[i as int] {
            None => (
                Err(
                    trap(
                        kw,
                        "exposure of `"@ + loan.owner + "` ends with byte "@ + nat_text(i)
                            + " uninitialized"@,
                    ),
                ),
                m,
            ),
            Some(v) => match m.heap.array(loan.array) {
                None => (Err(stuck(kw, "exposed array"@)), m),
                Some(a) => if i >= a.values.len() {
                    (Err(stuck(kw, "exposed array"@)), m)
                } else {
                    copy_back(
                        MachV {
                            heap: m.heap.set_array(
                                loan.array,
                                ArrV { values: a.values.update(i as int, ValV::Int(v)), ..a },
                            ),
                            ..m
                        },
                        loan,
                        bytes,
                        kw,
                        i + 1,
                    )
                },
            },
        }
    }
}

/// Retires the storage of the loan.
#[verifier::opaque]
pub open spec fn release_loan(loan: LoanV, kw: Span, m: MachV, f: FrameV) -> (
    Result<(), TrapV>,
    MachV,
) {
    match value_of(f.vars, loan.release) {
        Some(ValV::Ptr(a, 0)) => if a != loan.alloc {
            (Err(refuse(kw, "exposure release action names a different raw loan"@)), m)
        } else {
            match alloc_of(m.raw, a as int) {
                None => (
                    Err(refuse(kw, "exposure release action names an absent raw loan"@)),
                    m,
                ),
                Some(al) => (
                    Ok(()),
                    MachV { raw: m.raw.update(a as int, AllocV { live: false, ..al }), ..m },
                ),
            }
        },
        _ => (Err(refuse(kw, "exposure release action has no live retained loan"@)), m),
    }
}

fn root_of(p: &Place, role: &str, kw: Span) -> (r: Result<String, Trap>)
    ensures
        yields(r, exposure_root(p@, role@, kw)),
{
    if !p.is_root() {
        return Err(
            refusal(
                kw,
                cat5(
                    "interpreter exposure ",
                    role,
                    " `",
                    p.render().as_str(),
                    "` is not a local",
                ),
            ),
        );
    }
    Ok(owned(p.root()))
}

fn roots_of(n: &ExposureNormalPlan, kw: Span) -> (r: Result<
    (String, String, String, String, String),
    Trap,
>)
    ensures
        match exposure_roots(n@, kw) {
            Ok((a, b, c, d, e)) => r matches Ok(x) && x.0@ == a && x.1@ == b && x.2@ == c && x.3@
                == d && x.4@ == e,
            Err(t) => r matches Err(x) && x@ == t,
        },
{
    let owner = match root_of(&n.rebuild.owner, "owner", kw) {
        Err(t) => {
            return Err(t);
        },
        Ok(s) => s,
    };
    let pointer = match root_of(&n.rebuild.pointer, "pointer", kw) {
        Err(t) => {
            return Err(t);
        },
        Ok(s) => s,
    };
    let resource = match root_of(&n.rebuild.resource, "resource", kw) {
        Err(t) => {
            return Err(t);
        },
        Ok(s) => s,
    };
    let capture = match root_of(&n.capture, "capture", kw) {
        Err(t) => {
            return Err(t);
        },
        Ok(s) => s,
    };
    let release = match root_of(&n.release_loan, "release", kw) {
        Err(t) => {
            return Err(t);
        },
        Ok(s) => s,
    };
    Ok((owner, pointer, resource, capture, release))
}

fn bytes_of(values: &Vec<RtVal>) -> (r: Option<Vec<Option<i128>>>)
    ensures
        match r {
            Some(b) => byte_values(views(values@)) && b@ == Seq::new(
                values@.len(),
                |i: int| Some(views(values@)[i]->Int_0),
            ),
            None => !byte_values(views(values@)),
        },
{
    let mut out: Vec<Option<i128>> = Vec::new();
    let n: usize = values.len();
    let mut i: usize = 0;
    while i < n
        invariant
            n == values@.len(),
            i <= n,
            forall|k: int| 0 <= k < i ==> (#[trigger] views(values@)[k]) is Int,
            out@ == Seq::new(i as nat, |k: int| Some(views(values@)[k]->Int_0)),
        decreases n - i,
    {
        assert(views(values@)[i as int] == values@[i as int]@);
        match &values[i] {
            RtVal::Int(v) => {
                out.push(Some(*v));
                assert(out@ =~= Seq::new((i + 1) as nat, |k: int| Some(views(values@)[k]->Int_0)));
            },
            _ => {
                assert(!(views(values@)[i as int] is Int));
                return None;
            },
        }
        i = i + 1;
    }
    Some(out)
}

impl Machine {
    pub fn open_loan(&mut self, n: &ExposureNormalPlan, kw: Span, f: &mut Frame) -> (r: Result<
        Loan,
        Trap,
    >)
        ensures
            yields(r, open_loan(n@, kw, old(self)@, old(f)@).0),
            final(self)@ == open_loan(n@, kw, old(self)@, old(f)@).1,
            final(f)@ == open_loan(n@, kw, old(self)@, old(f)@).2,
            final(self)@.fuel == old(self)@.fuel,
            final(self)@.uart == old(self)@.uart,
    {
        proof {
            reveal(open_loan);
        }
        let (owner, pointer, resource, capture, release) = match roots_of(n, kw) {
            Err(t) => {
                return Err(t);
            },
            Ok(x) => x,
        };
        if !same_text(capture.as_str(), resource.as_str()) || n.rebuild.keyword_span != kw {
            return Err(
                refusal(
                    kw,
                    owned("exposure capture/rebuild identities disagree with the retained site"),
                ),
            );
        }
        let id: usize = match find(&f.vars, owner.as_str()) {
            Some(RtVal::Arr(id)) => *id,
            _ => {
                return Err(
                    refusal(
                        kw,
                        cat3(
                            "interpreter exposure owner `",
                            owner.as_str(),
                            "` is absent or not an array",
                        ),
                    ),
                );
            },
        };
        let payload = match n.rebuild.owner_ty.as_array() {
            Some((payload, _)) => payload,
            None => {
                return Err(Trap::stuck(kw, "exposed array"));
            },
        };
        if id >= self.heap.arrays.len() {
            return Err(Trap::stuck(kw, "exposed array"));
        }
        assert(self@.heap.arrays[id as int] == self.heap.arrays@[id as int]@);
        if !self.heap.arrays[id].payload.same_ty(&payload) {
            return Err(
                refusal(
                    kw,
                    owned("exposure runtime owner payload disagrees with its retained owner type"),
                ),
            );
        }
        let len: usize = self.heap.arrays[id].len();
        let bytes = match bytes_of(&self.heap.arrays[id].values) {
            None => {
                return Err(Trap::stuck(kw, "byte element"));
            },
            Some(bytes) => bytes,
        };
        let alloc: i128 = self.raw.fresh(bytes);
        f.set_var(pointer.as_str(), RtVal::Ptr(alloc, 0));
        f.set_var(resource.as_str(), RtVal::Unit);
        f.set_var(release.as_str(), RtVal::Ptr(alloc, 0));
        Ok(Loan { owner, capture, release, array: id, alloc, len })
    }

    pub fn capture_loan(&self, loan: &Loan, kw: Span, f: &Frame) -> (r: Result<
        Vec<Option<i128>>,
        Trap,
    >)
        ensures
            yields(r, capture_loan(loan@, kw, self@, f@)),
    {
        proof {
            reveal(capture_loan);
        }
        match find(&f.vars, loan.capture.as_str()) {
            None => {
                return Err(
                    refusal(
                        kw,
                        owned("exposure capture action reached an absent resource binding"),
                    ),
                );
            },
            Some(_) => {},
        }
        match self.raw.index_of(loan.alloc) {
            None => Err(
                refusal(kw, owned("exposure capture action names an absent raw loan")),
            ),
            Some(i) => {
                if !self.raw.allocs[i].live {
                    return Err(
                        refusal(kw, owned("exposure capture action names a released raw loan")),
                    );
                }
                let source = &self.raw.allocs[i].bytes;
                let n: usize = source.len();
                let mut out: Vec<Option<i128>> = Vec::new();
                let mut k: usize = 0;
                while k < n
                    invariant
                        n == source@.len(),
                        k <= n,
                        out@ == source@.take(k as int),
                    decreases n - k,
                {
                    out.push(source[k]);
                    assert(out@ =~= source@.take(k + 1));
                    k = k + 1;
                }
                assert(out@ =~= source@);
                Ok(out)
            },
        }
    }

    pub fn copy_back(&mut self, loan: &Loan, bytes: &Vec<Option<i128>>, kw: Span) -> (r: Result<
        (),
        Trap,
    >)
        ensures
            yields(r, copy_back(old(self)@, loan@, bytes@, kw, 0).0),
            final(self)@ == copy_back(old(self)@, loan@, bytes@, kw, 0).1,
            final(self)@.fuel == old(self)@.fuel,
            final(self)@.uart == old(self)@.uart,
            final(self)@.heap.objects == old(self)@.heap.objects,
    {
        let n: usize = bytes.len();
        let mut i: usize = 0;
        while i < n && i < loan.len
            invariant
                n == bytes@.len(),
                i <= n,
                self@.fuel == old(self)@.fuel,
                self@.uart == old(self)@.uart,
                self@.heap.objects == old(self)@.heap.objects,
                copy_back(old(self)@, loan@, bytes@, kw, 0) == copy_back(
                    self@,
                    loan@,
                    bytes@,
                    kw,
                    i as nat,
                ),
            decreases n - i,
        {
            let v: i128 = match bytes[i] {
                None => {
                    return Err(
                        Trap::defined(
                            kw,
                            cat5(
                                "exposure of `",
                                loan.owner.as_str(),
                                "` ends with byte ",
                                usize_decimal(i).as_str(),
                                " uninitialized",
                            ),
                        ),
                    );
                },
                Some(v) => v,
            };
            let id: usize = loan.array;
            if id >= self.heap.arrays.len() {
                return Err(Trap::stuck(kw, "exposed array"));
            }
            let ghost before = self.heap.arrays@;
            assert(self@.heap.arrays[id as int] == before[id as int]@);
            if i >= self.heap.arrays[id].values.len() {
                return Err(Trap::stuck(kw, "exposed array"));
            }
            self.heap.arrays[id].values.set(i, RtVal::Int(v));
            assert(self.heap.arrays@ =~= before.update(id as int, self.heap.arrays@[id as int]));
            i = i + 1;
        }
        Ok(())
    }

    pub fn release_loan(&mut self, loan: &Loan, kw: Span, f: &Frame) -> (r: Result<(), Trap>)
        ensures
            yields(r, release_loan(loan@, kw, old(self)@, f@).0),
            final(self)@ == release_loan(loan@, kw, old(self)@, f@).1,
            final(self)@.fuel == old(self)@.fuel,
            final(self)@.uart == old(self)@.uart,
    {
        proof {
            reveal(release_loan);
        }
        let a: i128 = match find(&f.vars, loan.release.as_str()) {
            Some(RtVal::Ptr(a, off)) => {
                if *off != 0 {
                    return Err(
                        refusal(kw, owned("exposure release action has no live retained loan")),
                    );
                }
                *a
            },
            _ => {
                return Err(
                    refusal(kw, owned("exposure release action has no live retained loan")),
                );
            },
        };
        if a != loan.alloc {
            return Err(refusal(kw, owned("exposure release action names a different raw loan")));
        }
        match self.raw.index_of(a) {
            None => Err(
                refusal(kw, owned("exposure release action names an absent raw loan")),
            ),
            Some(i) => {
                self.retire(i);
                Ok(())
            },
        }
    }
}

} // verus!
