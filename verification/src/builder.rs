//! Filling a control plan from the statements of a checked body.
use vstd::prelude::*;

use crate::ast::{Expr, ExprKind, IntTy, ResKind, Stmt, Ty};
use crate::drops::{drop_action_of, plan_err, ErrV, PlanError, ValueDropAction};
use crate::lookup::{
    candidate_at, find_candidate, find_scope, find_site, find_temp, has_site, scope_at, site_index,
    temp_at,
};
use crate::outline::{BranchArm, DropId, ScopeId, ScopeKind};
use crate::place::{
    field_place, local_place, named_place, Place, PlaceV, SinkV, TransferV, ValueTransferKey,
    ValueTransferSink,
};
use crate::plan::{
    scope_kind_tag, scope_kind_text, temp_kind_tag, temp_kind_text, AssignV, AssignmentAction,
    AssignmentStaging, BindingV, BodyPlan, CandidateEntry, CandidateEntryV, CandidateV,
    CompilerTempKey, CompilerTempKind, DropCandidate, FieldAssignV, FieldAssignmentAction, PlanV,
    ScopeV, SiteEntry, SiteKey, SourceBinding, StagingV, TempDropV, TempEntry, TempV,
    TemporaryDropAction,
};
use crate::repr::{group_views, opt_view, views, Repr};
use crate::span::Span;
use crate::text::{cat2, cat3, cat5, cat7, nat_text, usize_decimal};
use crate::traps::{checked_expression_ty, checked_ty};

verus! {

broadcast use group_views;

/// A source name that is already bound, with the scope and type of its binding.
#[derive(Debug)]
pub struct PlannedBinding {
    pub name: String,
    pub scope: ScopeId,
    pub ty: Ty,
}

pub ghost struct PlannedV {
    pub name: Seq<char>,
    pub scope: ScopeId,
    pub ty: Ty,
}

impl View for PlannedBinding {
    type V = PlannedV;

    open spec fn view(&self) -> PlannedV {
        PlannedV { name: self.name@, scope: self.scope, ty: self.ty }
    }
}

/// A plan under construction. Names are unique in one callable.
#[derive(Debug)]
pub struct PlanBuilder {
    pub plan: BodyPlan,
    pub bindings: Vec<PlannedBinding>,
}

pub ghost struct BuilderV {
    pub plan: PlanV,
    pub bindings: Seq<PlannedV>,
}

impl View for PlanBuilder {
    type V = BuilderV;

    open spec fn view(&self) -> BuilderV {
        BuilderV { plan: self.plan@, bindings: views(self.bindings@) }
    }
}

/// What a step of construction says, and the state after it: on a refusal, what was built before.
pub type BuiltV = (Result<(), ErrV>, BuilderV);

/// A step of construction did what is stated, and left the stated state.
pub open spec fn steps(r: Result<(), PlanError>, after: BuilderV, s: BuiltV) -> bool {
    &&& after == s.1
    &&& match s.0 {
        Ok(_) => r is Ok,
        Err(e) => r matches Err(x) && x@ == e,
    }
}

/// The binding of a name, searching from binding `i`.
pub open spec fn binding_from(bindings: Seq<PlannedV>, name: Seq<char>, i: nat) -> Option<PlannedV>
    decreases bindings.len() - i,
{
    if i >= bindings.len() {
        None
    } else if bindings[i as int].name == name {
        Some(bindings[i as int])
    } else {
        binding_from(bindings, name, i + 1)
    }
}

/// The binding of a name.
pub open spec fn binding_of(bindings: Seq<PlannedV>, name: Seq<char>) -> Option<PlannedV> {
    binding_from(bindings, name, 0)
}

fn find_binding<'a>(bindings: &'a Vec<PlannedBinding>, name: &String) -> (r: Option<
    &'a PlannedBinding,
>)
    ensures
        opt_view(r) == binding_of(views(bindings@), name@),
        r matches Some(b) ==> exists|k: int| 0 <= k < bindings@.len() && *b == #[trigger] bindings@[k],
{
    let n: usize = bindings.len();
    let mut i: usize = 0;
    while i < n
        invariant
            n == bindings@.len(),
            i <= n,
            binding_of(views(bindings@), name@) == binding_from(
                views(bindings@),
                name@,
                i as nat,
            ),
        decreases n - i,
    {
        if bindings[i].name == *name {
            return Some(&bindings[i]);
        }
        i = i + 1;
    }
    None
}

impl PlanV {
    pub open spec fn with_scope_at(self, scope: ScopeId, s: ScopeV) -> PlanV {
        PlanV { scopes: self.scopes.update(scope.0 as int, s), ..self }
    }

    /// The plan with one more place that dies with `scope`.
    pub open spec fn with_local(self, scope: ScopeId, place: PlaceV) -> PlanV {
        let s = self.scopes[scope.0 as int];
        self.with_scope_at(scope, ScopeV { locals: s.locals.push(place), ..s })
    }

    /// Whether `scope` is `ancestor` or lies inside it.
    pub open spec fn inside(self, ancestor: ScopeId, scope: ScopeId) -> bool
        decreases scope.0,
    {
        scope == ancestor || match self.scopes[scope.0 as int].parent {
            Some(p) => p.0 < scope.0 && self.inside(ancestor, p),
            None => false,
        }
    }
}

/// The role of a temporary in its name.
pub open spec fn temp_role(kind: CompilerTempKind) -> Seq<char> {
    match kind {
        CompilerTempKind::ReturnValue => "return"@,
        CompilerTempKind::AssignmentValue => "assignment"@,
        CompilerTempKind::FieldAssignmentValue => "field_assignment"@,
        CompilerTempKind::DiscardedClassValue => "discarded_class"@,
        CompilerTempKind::ExposureLoan => "exposure_loan"@,
        CompilerTempKind::ExposureIndex => "exposure_index"@,
        CompilerTempKind::ExposureByte => "exposure_byte"@,
        CompilerTempKind::BoolLiteralElement(_) => "bool_element"@,
    }
}

pub open spec fn temp_ordinal(kind: CompilerTempKind) -> nat {
    match kind {
        CompilerTempKind::BoolLiteralElement(n) => n as nat,
        _ => 0,
    }
}

/// The name of a temporary. No source name begins with `$`.
pub open spec fn temp_name(key: CompilerTempKey) -> Seq<char> {
    "$sable$"@ + temp_role(key.kind) + "$"@ + nat_text(key.anchor.start as nat) + "$"@ + nat_text(
        key.anchor.end as nat,
    ) + ("$"@ + nat_text(key.scope.0 as nat) + "$"@ + nat_text(temp_ordinal(key.kind)))
}

fn temp_name_text(key: CompilerTempKey) -> (r: String)
    ensures
        r@ == temp_name(key),
{
    let role: &'static str = match key.kind {
        CompilerTempKind::ReturnValue => "return",
        CompilerTempKind::AssignmentValue => "assignment",
        CompilerTempKind::FieldAssignmentValue => "field_assignment",
        CompilerTempKind::DiscardedClassValue => "discarded_class",
        CompilerTempKind::ExposureLoan => "exposure_loan",
        CompilerTempKind::ExposureIndex => "exposure_index",
        CompilerTempKind::ExposureByte => "exposure_byte",
        CompilerTempKind::BoolLiteralElement(_) => "bool_element",
    };
    let ordinal: usize = match key.kind {
        CompilerTempKind::BoolLiteralElement(n) => n,
        _ => 0,
    };
    let start = usize_decimal(key.anchor.start);
    let end = usize_decimal(key.anchor.end);
    let head = cat7("$sable$", role, "$", start.as_str(), "$", end.as_str(), "");
    let scope = usize_decimal(key.scope.0);
    let last = usize_decimal(ordinal);
    let tail = cat5("$", scope.as_str(), "$", last.as_str(), "");
    proof {
        reveal_strlit("");
        assert(head@ =~= "$sable$"@ + role@ + "$"@ + start@ + "$"@ + end@);
        assert(tail@ =~= "$"@ + scope@ + "$"@ + last@);
    }
    cat2(head.as_str(), tail.as_str())
}

impl BuilderV {
    pub open spec fn outlined_scope(
        self,
        kind: ScopeKind,
        anchor: Span,
        parent: ScopeId,
    ) -> Result<ScopeId, ErrV> {
        match scope_at(self.plan.scope_ids, kind, anchor) {
            None => Err(
                plan_err(
                    anchor,
                    "pre-check outline has no "@ + scope_kind_text(kind)
                        + " scope at this anchor"@,
                ),
            ),
            Some(scope) => if self.plan.scopes[scope.0 as int].parent != Some(parent) {
                Err(
                    plan_err(
                        anchor,
                        "checked "@ + scope_kind_text(kind)
                            + " scope moved under a different parent"@,
                    ),
                )
            } else {
                Ok(scope)
            },
        }
    }

    /// A new binding in `scope`.
    pub open spec fn reserve(
        self,
        scope: ScopeId,
        name: Seq<char>,
        ty: Ty,
        span: Span,
    ) -> BuiltV {
        if binding_of(self.bindings, name) is Some {
            (Err(
                plan_err(
                    span,
                    "duplicate local `"@ + name + "` has no unique cleanup identity"@,
                ),
            ), self)
        } else {
            let s = self.plan.scopes[scope.0 as int];
            let place = local_place(name);
            (
                Ok(()),
                BuilderV {
                    plan: self.plan.with_scope_at(
                        scope,
                        ScopeV {
                            locals: s.locals.push(place),
                            bindings: s.bindings.push(BindingV { place, ty, span }),
                            ..s
                        },
                    ),
                    bindings: self.bindings.push(PlannedV { name, scope, ty }),
                },
            )
        }
    }

    /// A new binding, and its drop candidate where its type is destroyed.
    pub open spec fn declare(
        self,
        scope: ScopeId,
        name: Seq<char>,
        ty: Ty,
        span: Span,
    ) -> BuiltV {
        match self.reserve(scope, name, ty, span) {
            (Err(e), b) => (Err(e), b),
            (Ok(_), b) => match drop_action_of(ty, span) {
                Err(e) => (Err(e), b),
                Ok(None) => (Ok(()), b),
                Ok(Some(drop_action)) => {
                    let place = local_place(name);
                    let id = DropId(b.plan.candidates.len() as usize);
                    let s = b.plan.scopes[scope.0 as int];
                    let plan = b.plan.with_scope_at(scope, ScopeV { drops: s.drops.push(id), ..s });
                    (
                        Ok(()),
                        BuilderV {
                            plan: PlanV {
                                candidates: plan.candidates.push(
                                    CandidateV { id, scope, place, drop_action, span },
                                ),
                                candidate_ids: plan.candidate_ids.push(
                                    CandidateEntryV { place, id },
                                ),
                                ..plan
                            },
                            ..b
                        },
                    )
                },
            },
        }
    }

    /// A new temporary. One that is cleared with its scope is also a local of it.
    pub open spec fn compiler_temp(
        self,
        scope: ScopeId,
        anchor: Span,
        kind: CompilerTempKind,
        clear_with_scope: bool,
    ) -> BuiltV {
        let key = CompilerTempKey { scope, anchor, kind };
        if temp_at(self.plan.compiler_temps, key) is Some {
            (Err(
                plan_err(
                    anchor,
                    "duplicate "@ + temp_kind_text(kind) + " compiler temporary identity"@,
                ),
            ), self)
        } else {
            let place = local_place(temp_name(key));
            let plan = if clear_with_scope {
                self.plan.with_local(scope, place)
            } else {
                self.plan
            };
            (
                Ok(()),
                BuilderV {
                    plan: PlanV {
                        compiler_temps: plan.compiler_temps.push(TempV { key, place }),
                        ..plan
                    },
                    ..self
                },
            )
        }
    }

    pub open spec fn assignment(
        self,
        scope: ScopeId,
        name: Seq<char>,
        span: Span,
        value: Expr,
    ) -> BuiltV {
        match binding_of(self.bindings, name) {
            None => (Err(
                plan_err(
                    span,
                    "assignment to `"@ + name + "` has no preceding planned binding"@,
                ),
            ), self),
            Some(binding) => if !self.plan.inside(binding.scope, scope) {
                (Err(
                    plan_err(
                        span,
                        "assignment to `"@ + name + "` targets a binding outside this scope"@,
                    ),
                ), self)
            } else if site_index(self.plan.assignment_ids, SiteKey { scope, span }) is Some {
                (Err(
                    plan_err(
                        span,
                        "duplicate assignment span in one lexical scope has no stable control identity"@,
                    ),
                ), self)
            } else {
                let destination = local_place(name);
                let previous = candidate_at(self.plan.candidate_ids, destination);
                let staged = if previous is Some {
                    self.compiler_temp(scope, span, CompilerTempKind::AssignmentValue, false)
                } else {
                    (Ok(()), self)
                };
                match staged {
                    (Err(e), b) => (Err(e), b),
                    (Ok(_), b) => (
                        Ok(()),
                        BuilderV {
                            plan: PlanV {
                                assignments: b.plan.assignments.push(
                                    AssignV {
                                        scope,
                                        span,
                                        destination,
                                        ty: binding.ty,
                                        transfer_key: TransferV {
                                            owner: b.plan.owner,
                                            span: value.span,
                                            sink: SinkV::Assignment(destination),
                                        },
                                        previous,
                                        staging: if previous is Some {
                                            StagingV::Temporary(
                                                local_place(
                                                    temp_name(
                                                        CompilerTempKey {
                                                            scope,
                                                            anchor: span,
                                                            kind: CompilerTempKind::AssignmentValue,
                                                        },
                                                    ),
                                                ),
                                            )
                                        } else {
                                            StagingV::Direct
                                        },
                                    },
                                ),
                                assignment_ids: b.plan.assignment_ids.push(
                                    SiteEntry {
                                        key: SiteKey { scope, span },
                                        index: b.plan.assignments.len() as usize,
                                    },
                                ),
                                ..b.plan
                            },
                            ..b
                        },
                    ),
                }
            },
        }
    }

    pub open spec fn field_assignment(
        self,
        scope: ScopeId,
        field: Seq<char>,
        span: Span,
        value: Expr,
    ) -> BuiltV {
        if site_index(self.plan.field_assignment_ids, SiteKey { scope, span }) is Some {
            (Err(
                plan_err(
                    span,
                    "duplicate field-assignment span in one lexical scope has no stable control identity"@,
                ),
            ), self)
        } else {
            match checked_ty(value, "field-assignment value"@) {
                Err(e) => (Err(e), self),
                Ok(ty) => match drop_action_of(ty, span) {
                    Err(e) => (Err(e), self),
                    Ok(drop_action) => {
                        let destination = field_place("self"@, field);
                        let staged = if drop_action is Some {
                            self.compiler_temp(
                                scope,
                                span,
                                CompilerTempKind::FieldAssignmentValue,
                                false,
                            )
                        } else {
                            (Ok(()), self)
                        };
                        match staged {
                            (Err(e), b) => (Err(e), b),
                            (Ok(_), b) => (
                                Ok(()),
                                BuilderV {
                                    plan: PlanV {
                                        field_assignments: b.plan.field_assignments.push(
                                            FieldAssignV {
                                                scope,
                                                span,
                                                destination,
                                                ty,
                                                transfer_key: TransferV {
                                                    owner: b.plan.owner,
                                                    span: value.span,
                                                    sink: SinkV::FieldAssignment(destination),
                                                },
                                                staging: if drop_action is Some {
                                                    StagingV::Temporary(
                                                        local_place(
                                                            temp_name(
                                                                CompilerTempKey {
                                                                    scope,
                                                                    anchor: span,
                                                                    kind:
                                                                        CompilerTempKind::FieldAssignmentValue,
                                                                },
                                                            ),
                                                        ),
                                                    )
                                                } else {
                                                    StagingV::Direct
                                                },
                                                drop_action,
                                            },
                                        ),
                                        field_assignment_ids: b.plan.field_assignment_ids.push(
                                            SiteEntry {
                                                key: SiteKey { scope, span },
                                                index: b.plan.field_assignments.len() as usize,
                                            },
                                        ),
                                        ..b.plan
                                    },
                                    ..b
                                },
                            ),
                        }
                    },
                },
            }
        }
    }

    pub open spec fn temporary_drop(self, scope: ScopeId, e: Expr) -> BuiltV {
        match checked_ty(e, "discarded class temporary"@) {
            Err(err) => (Err(err), self),
            Ok(ty) => if !(ty is Class) {
                (Ok(()), self)
            } else {
                match drop_action_of(ty, e.span) {
                    Err(err) => (Err(err), self),
                    Ok(drop_action) => if let Some(source) = named_place(e) {
                        (Err(
                            plan_err(
                                e.span,
                                "discarded class temporary unexpectedly names source place `"@
                                    + source.text() + "`"@,
                            ),
                        ), self)
                    } else if site_index(
                        self.plan.temporary_drop_ids,
                        SiteKey { scope, span: e.span },
                    ) is Some {
                        (Err(
                            plan_err(
                                e.span,
                                "duplicate discarded-class span in one lexical scope has no stable control identity"@,
                            ),
                        ), self)
                    } else {
                        match self.compiler_temp(
                            scope,
                            e.span,
                            CompilerTempKind::DiscardedClassValue,
                            false,
                        ) {
                            (Err(err), b) => (Err(err), b),
                            (Ok(_), b) => (
                                Ok(()),
                                BuilderV {
                                    plan: PlanV {
                                        temporary_drops: b.plan.temporary_drops.push(
                                            TempDropV {
                                                scope,
                                                span: e.span,
                                                transfer_key: TransferV {
                                                    owner: b.plan.owner,
                                                    span: e.span,
                                                    sink: SinkV::DiscardTemporary,
                                                },
                                                temporary: local_place(
                                                    temp_name(
                                                        CompilerTempKey {
                                                            scope,
                                                            anchor: e.span,
                                                            kind:
                                                                CompilerTempKind::DiscardedClassValue,
                                                        },
                                                    ),
                                                ),
                                                drop_action: drop_action->Some_0,
                                            },
                                        ),
                                        temporary_drop_ids: b.plan.temporary_drop_ids.push(
                                            SiteEntry {
                                                key: SiteKey { scope, span: e.span },
                                                index: b.plan.temporary_drops.len() as usize,
                                            },
                                        ),
                                        ..b.plan
                                    },
                                    ..b
                                },
                            ),
                        }
                    },
                }
            },
        }
    }

    /// The temporaries of the elements `i..n` of a Boolean array literal.
    pub open spec fn literal_temps(self, scope: ScopeId, span: Span, i: nat, n: nat) -> BuiltV
        decreases n - i,
    {
        if i >= n {
            (Ok(()), self)
        } else {
            match self.compiler_temp(
                scope,
                span,
                CompilerTempKind::BoolLiteralElement(i as usize),
                true,
            ) {
                (Err(e), b) => (Err(e), b),
                (Ok(_), b) => b.literal_temps(scope, span, i + 1, n),
            }
        }
    }

    /// The temporaries of an initializer, which only a Boolean array literal has.
    pub open spec fn array_literal_temps(
        self,
        scope: ScopeId,
        ty: Ty,
        init: Option<Expr>,
    ) -> BuiltV {
        match literal_elements(ty, init) {
            Some((span, n)) => self.literal_temps(scope, span, 0, n),
            None => (Ok(()), self),
        }
    }

    /// A return: it may not leave an exposure, and its site is unique in its scope.
    pub open spec fn return_site(
        self,
        scope: ScopeId,
        span: Span,
        has_value: bool,
        exposed: bool,
    ) -> BuiltV {
        if exposed {
            (Err(plan_err(span, "return inside an exposure would bypass reconstruction"@)), self)
        } else if self.plan.return_sites.contains(SiteKey { scope, span }) {
            (Err(
                plan_err(
                    span,
                    "duplicate return span in one lexical scope has no stable control identity"@,
                ),
            ), self)
        } else {
            let b = BuilderV {
                plan: PlanV {
                    return_sites: self.plan.return_sites.push(SiteKey { scope, span }),
                    ..self.plan
                },
                ..self
            };
            if has_value {
                b.compiler_temp(scope, span, CompilerTempKind::ReturnValue, false)
            } else {
                (Ok(()), b)
            }
        }
    }

    /// The pointer and resource bindings of raw memory.
    pub open spec fn raw_pair(
        self,
        scope: ScopeId,
        ptr: Seq<char>,
        ptr_span: Span,
        res: Seq<char>,
        res_span: Span,
    ) -> BuiltV {
        match self.reserve(scope, ptr, Ty::Raw(IntTy::U8), ptr_span) {
            (Err(e), b) => (Err(e), b),
            (Ok(_), b) => b.reserve(scope, res, Ty::Res(ResKind::RawSpan), res_span),
        }
    }

    /// The bindings and scratch storage of an exposure's body.
    pub open spec fn exposure_entry(
        self,
        scope: ScopeId,
        kw_span: Span,
        ptr: Seq<char>,
        ptr_span: Span,
        res: Seq<char>,
        res_span: Span,
    ) -> BuiltV {
        match self.raw_pair(scope, ptr, ptr_span, res, res_span) {
            (Err(e), b) => (Err(e), b),
            (Ok(_), b) => match b.compiler_temp(scope, kw_span, CompilerTempKind::ExposureLoan, false) {
                (Err(e), b) => (Err(e), b),
                (Ok(_), b) => match b.compiler_temp(
                    scope,
                    kw_span,
                    CompilerTempKind::ExposureIndex,
                    false,
                ) {
                    (Err(e), b) => (Err(e), b),
                    (Ok(_), b) => b.compiler_temp(
                        scope,
                        kw_span,
                        CompilerTempKind::ExposureByte,
                        false,
                    ),
                },
            },
        }
    }
}

/// The range and length of a Boolean array literal that initializes a Boolean array.
pub open spec fn literal_elements(ty: Ty, init: Option<Expr>) -> Option<(Span, nat)> {
    if !ty.array_of(Ty::Bool) {
        None
    } else {
        match init {
            Some(e) => match e.kind {
                ExprKind::ArrayLit(elements) => Some((e.span, elements@.len())),
                _ => None,
            },
            None => None,
        }
    }
}

/// The statements from `i` on, entered in order.
pub open spec fn walk_from(
    b: BuilderV,
    s: Seq<Stmt>,
    i: nat,
    scope: ScopeId,
    exposed: bool,
) -> BuiltV
    decreases s, s.len() - i,
{
    if i >= s.len() {
        (Ok(()), b)
    } else {
        match walk_stmt(b, s[i as int], scope, exposed) {
            (Err(e), b) => (Err(e), b),
            (Ok(_), next) => walk_from(next, s, i + 1, scope, exposed),
        }
    }
}

/// One statement, entered into its scope. An `unsafe` block shares the surrounding scope.
pub open spec fn walk_stmt(b: BuilderV, s: Stmt, scope: ScopeId, exposed: bool) -> BuiltV
    decreases s, 0nat,
{
    match s {
        Stmt::Decl { name, ty, name_span, init, .. } => match b.declare(
            scope,
            name@,
            ty,
            name_span,
        ) {
            (Err(e), b) => (Err(e), b),
            (Ok(_), b) => b.array_literal_temps(scope, ty, init),
        },
        Stmt::VarDecl { name, ty, name_span, init, .. } => match ty {
            None => (Err(
                plan_err(
                    name_span,
                    "inferred local `"@ + name@ + "` has no checked type for cleanup planning"@,
                ),
            ), b),
            Some(ty) => match b.declare(scope, name@, ty, name_span) {
                (Err(e), b) => (Err(e), b),
                (Ok(_), b) => b.array_literal_temps(scope, ty, Some(init)),
            },
        },
        Stmt::If { cond, then_block, else_block } => match b.outlined_scope(
            ScopeKind::BranchArm(BranchArm::Then),
            cond.span,
            scope,
        ) {
            Err(e) => (Err(e), b),
            Ok(then_scope) => match walk_from(b, then_block@, 0, then_scope, exposed) {
                (Err(e), b) => (Err(e), b),
                (Ok(_), b) => match else_block {
                    None => (Ok(()), b),
                    Some(else_block) => match b.outlined_scope(
                        ScopeKind::BranchArm(BranchArm::Else),
                        cond.span,
                        scope,
                    ) {
                        Err(e) => (Err(e), b),
                        Ok(else_scope) => walk_from(b, else_block@, 0, else_scope, exposed),
                    },
                },
            },
        },
        Stmt::While { kw_span, body, .. } => match b.outlined_scope(
            ScopeKind::LoopBody,
            kw_span,
            scope,
        ) {
            Err(e) => (Err(e), b),
            Ok(body_scope) => walk_from(b, body@, 0, body_scope, exposed),
        },
        Stmt::Unsafe { body, .. } => walk_from(b, body@, 0, scope, exposed),
        Stmt::Expose { kw_span, ptr, ptr_span, res, res_span, body, .. } => match b.outlined_scope(
            ScopeKind::Exposure,
            kw_span,
            scope,
        ) {
            Err(e) => (Err(e), b),
            Ok(exposure) => match b.exposure_entry(
                exposure,
                kw_span,
                ptr@,
                ptr_span,
                res@,
                res_span,
            ) {
                (Err(e), b) => (Err(e), b),
                (Ok(_), b) => walk_from(b, body@, 0, exposure, true),
            },
        },
        Stmt::Return { value, span } => b.return_site(scope, span, value is Some, exposed),
        Stmt::StaticAlloc { ptr, ptr_span, res, res_span, .. } => b.raw_pair(
            scope,
            ptr@,
            ptr_span,
            res@,
            res_span,
        ),
        Stmt::SystemAlloc { ptr, ptr_span, res, res_span, release, release_span, .. } =>
            match b.raw_pair(scope, ptr@, ptr_span, res@, res_span) {
            (Err(e), b) => (Err(e), b),
            (Ok(_), b) => b.reserve(scope, release@, Ty::Res(ResKind::SystemDealloc), release_span),
        },
        Stmt::Assign { name, name_span, value } => b.assignment(scope, name@, name_span, value),
        Stmt::ExprStmt(e) => b.temporary_drop(scope, e),
        Stmt::FieldAssign { field, field_span, value } => b.field_assignment(
            scope,
            field@,
            field_span,
            value,
        ),
        _ => (Ok(()), b),
    }
}

impl PlanBuilder {
    /// The plan is well formed and every binding lies in one of its scopes.
    pub open spec fn wf(self) -> bool {
        &&& self.plan@.wf()
        &&& forall|i: int|
            0 <= i < self.bindings@.len() ==> (#[trigger] self.bindings@[i]).scope.0
                < self.plan@.scopes.len()
    }

    /// What every step keeps: well-formedness and the set of scopes.
    pub open spec fn kept(self, before: PlanBuilder) -> bool {
        self.wf() && self.plan@.scopes.len() == before.plan@.scopes.len()
    }

    pub fn outlined_scope(&self, kind: ScopeKind, anchor: Span, parent: ScopeId) -> (r: Result<
        ScopeId,
        PlanError,
    >)
        requires
            self.wf(),
        ensures
            match self@.outlined_scope(kind, anchor, parent) {
                Ok(id) => r == Ok::<ScopeId, PlanError>(id) && id.0 < self.plan@.scopes.len(),
                Err(e) => r matches Err(x) && x@ == e,
            },
    {
        let scope = match find_scope(&self.plan.scope_ids, kind, anchor) {
            None => {
                return Err(
                    PlanError {
                        span: anchor,
                        message: cat3(
                            "pre-check outline has no ",
                            scope_kind_tag(kind),
                            " scope at this anchor",
                        ),
                    },
                );
            },
            Some(scope) => scope,
        };
        proof {
            let k = choose|k: int|
                0 <= k < self.plan.scope_ids@.len() && (#[trigger] self.plan.scope_ids@[k]).id
                    == scope;
            assert(self.plan@.scope_ids[k].id == scope);
        }
        let moved = match self.plan.scopes[scope.0].parent {
            Some(p) => p != parent,
            None => true,
        };
        if moved {
            return Err(
                PlanError {
                    span: anchor,
                    message: cat3(
                        "checked ",
                        scope_kind_tag(kind),
                        " scope moved under a different parent",
                    ),
                },
            );
        }
        Ok(scope)
    }

    pub fn reserve(&mut self, scope: ScopeId, name: &String, ty: Ty, span: Span) -> (r: Result<
        (),
        PlanError,
    >)
        requires
            old(self).wf(),
            scope.0 < old(self).plan@.scopes.len(),
        ensures
            steps(r, final(self)@, old(self)@.reserve(scope, name@, ty, span)),
            r is Ok ==> final(self).kept(*old(self)),
    {
        if find_binding(&self.bindings, name).is_some() {
            return Err(
                PlanError {
                    span,
                    message: cat3(
                        "duplicate local `",
                        name.as_str(),
                        "` has no unique cleanup identity",
                    ),
                },
            );
        }
        let place = Place::local(name.as_str());
        let target = &mut self.plan.scopes[scope.0];
        target.locals.push(place.copy());
        target.bindings.push(SourceBinding { place, ty: ty.clone(), span });
        self.bindings.push(PlannedBinding { name: name.clone(), scope, ty });
        Ok(())
    }

    pub fn declare(&mut self, scope: ScopeId, name: &String, ty: Ty, span: Span) -> (r: Result<
        (),
        PlanError,
    >)
        requires
            old(self).wf(),
            scope.0 < old(self).plan@.scopes.len(),
        ensures
            steps(r, final(self)@, old(self)@.declare(scope, name@, ty, span)),
            r is Ok ==> final(self).kept(*old(self)),
    {
        match self.reserve(scope, name, ty.clone(), span) {
            Err(e) => {
                return Err(e);
            },
            Ok(_) => {},
        }
        let drop_action = match ValueDropAction::build(&ty, span) {
            Err(e) => {
                return Err(e);
            },
            Ok(None) => {
                return Ok(());
            },
            Ok(Some(drop_action)) => drop_action,
        };
        let id = DropId(self.plan.candidates.len());
        let target = &mut self.plan.scopes[scope.0];
        target.drops.push(id);
        self.plan.candidates.push(
            DropCandidate { id, scope, place: Place::local(name.as_str()), drop_action, span },
        );
        self.plan.candidate_ids.push(CandidateEntry { place: Place::local(name.as_str()), id });
        Ok(())
    }

    pub fn scope_contains(&self, ancestor: ScopeId, scope: ScopeId) -> (r: bool)
        requires
            self.wf(),
            scope.0 < self.plan@.scopes.len(),
        ensures
            r == self.plan@.inside(ancestor, scope),
        decreases scope.0,
    {
        if scope == ancestor {
            return true;
        }
        assert(self.plan@.scopes[scope.0 as int] == self.plan.scopes@[scope.0 as int]@);
        match self.plan.scopes[scope.0].parent {
            Some(parent) => self.scope_contains(ancestor, parent),
            None => false,
        }
    }

    pub fn compiler_temp(
        &mut self,
        scope: ScopeId,
        anchor: Span,
        kind: CompilerTempKind,
        clear_with_scope: bool,
    ) -> (r: Result<Place, PlanError>)
        requires
            old(self).wf(),
            scope.0 < old(self).plan@.scopes.len(),
        ensures
            final(self)@ == old(self)@.compiler_temp(scope, anchor, kind, clear_with_scope).1,
            match old(self)@.compiler_temp(scope, anchor, kind, clear_with_scope).0 {
                Ok(_) => r matches Ok(place) && place@ == local_place(
                    temp_name(CompilerTempKey { scope, anchor, kind }),
                ),
                Err(e) => r matches Err(x) && x@ == e,
            },
            r is Ok ==> final(self).kept(*old(self)),
    {
        let key = CompilerTempKey { scope, anchor, kind };
        if find_temp(&self.plan.compiler_temps, key).is_some() {
            return Err(
                PlanError {
                    span: anchor,
                    message: cat3(
                        "duplicate ",
                        temp_kind_tag(kind).as_str(),
                        " compiler temporary identity",
                    ),
                },
            );
        }
        let place = Place::local(temp_name_text(key).as_str());
        if clear_with_scope {
            let target = &mut self.plan.scopes[scope.0];
            target.locals.push(place.copy());
        }
        self.plan.compiler_temps.push(TempEntry { key, place: place.copy() });
        Ok(place)
    }

    pub fn assignment(&mut self, scope: ScopeId, name: &String, span: Span, value: &Expr) -> (r:
        Result<(), PlanError>)
        requires
            old(self).wf(),
            scope.0 < old(self).plan@.scopes.len(),
        ensures
            steps(r, final(self)@, old(self)@.assignment(scope, name@, span, *value)),
            r is Ok ==> final(self).kept(*old(self)),
    {
        let (bound, ty) = match find_binding(&self.bindings, name) {
            None => {
                return Err(
                    PlanError {
                        span,
                        message: cat3(
                            "assignment to `",
                            name.as_str(),
                            "` has no preceding planned binding",
                        ),
                    },
                );
            },
            Some(binding) => (binding.scope, binding.ty.clone()),
        };
        if !self.scope_contains(bound, scope) {
            return Err(
                PlanError {
                    span,
                    message: cat3(
                        "assignment to `",
                        name.as_str(),
                        "` targets a binding outside this scope",
                    ),
                },
            );
        }
        let key = SiteKey { scope, span };
        if find_site(&self.plan.assignment_ids, key).is_some() {
            return Err(
                PlanError::new(
                    span,
                    "duplicate assignment span in one lexical scope has no stable control identity",
                ),
            );
        }
        let destination = Place::local(name.as_str());
        let previous = find_candidate(&self.plan.candidate_ids, &destination);
        let staging = if previous.is_some() {
            match self.compiler_temp(scope, span, CompilerTempKind::AssignmentValue, false) {
                Err(e) => {
                    return Err(e);
                },
                Ok(place) => AssignmentStaging::Temporary(place),
            }
        } else {
            AssignmentStaging::Direct
        };
        let index = self.plan.assignments.len();
        let transfer_key = ValueTransferKey {
            owner: self.plan.owner.copy(),
            span: value.span,
            sink: ValueTransferSink::Assignment(destination.copy()),
        };
        self.plan.assignments.push(
            AssignmentAction { scope, span, destination, ty, transfer_key, previous, staging },
        );
        self.plan.assignment_ids.push(SiteEntry { key, index });
        Ok(())
    }

    pub fn field_assignment(
        &mut self,
        scope: ScopeId,
        field: &String,
        span: Span,
        value: &Expr,
    ) -> (r: Result<(), PlanError>)
        requires
            old(self).wf(),
            scope.0 < old(self).plan@.scopes.len(),
        ensures
            steps(r, final(self)@, old(self)@.field_assignment(scope, field@, span, *value)),
            r is Ok ==> final(self).kept(*old(self)),
    {
        let key = SiteKey { scope, span };
        if find_site(&self.plan.field_assignment_ids, key).is_some() {
            return Err(
                PlanError::new(
                    span,
                    "duplicate field-assignment span in one lexical scope has no stable control identity",
                ),
            );
        }
        let destination = Place::field("self", field.as_str());
        let ty = match checked_expression_ty(value, "field-assignment value") {
            Err(e) => {
                return Err(e);
            },
            Ok(ty) => ty,
        };
        let drop_action = match ValueDropAction::build(&ty, span) {
            Err(e) => {
                return Err(e);
            },
            Ok(drop_action) => drop_action,
        };
        let staging = if drop_action.is_some() {
            match self.compiler_temp(scope, span, CompilerTempKind::FieldAssignmentValue, false) {
                Err(e) => {
                    return Err(e);
                },
                Ok(place) => AssignmentStaging::Temporary(place),
            }
        } else {
            AssignmentStaging::Direct
        };
        let transfer_key = ValueTransferKey {
            owner: self.plan.owner.copy(),
            span: value.span,
            sink: ValueTransferSink::FieldAssignment(destination.copy()),
        };
        let index = self.plan.field_assignments.len();
        self.plan.field_assignments.push(
            FieldAssignmentAction {
                scope,
                span,
                destination,
                ty,
                transfer_key,
                staging,
                drop_action,
            },
        );
        self.plan.field_assignment_ids.push(SiteEntry { key, index });
        Ok(())
    }

    pub fn temporary_drop(&mut self, scope: ScopeId, expression: &Expr) -> (r: Result<
        (),
        PlanError,
    >)
        requires
            old(self).wf(),
            scope.0 < old(self).plan@.scopes.len(),
        ensures
            steps(r, final(self)@, old(self)@.temporary_drop(scope, *expression)),
            r is Ok ==> final(self).kept(*old(self)),
    {
        let span = expression.span;
        let ty = match checked_expression_ty(expression, "discarded class temporary") {
            Err(e) => {
                return Err(e);
            },
            Ok(ty) => ty,
        };
        if !matches!(ty, Ty::Class(_)) {
            return Ok(());
        }
        let drop_action = match ValueDropAction::build(&ty, span) {
            Err(e) => {
                return Err(e);
            },
            Ok(None) => {
                return Ok(());
            },
            Ok(Some(drop_action)) => drop_action,
        };
        if let Some(source) = Place::from_value_expr(expression) {
            return Err(
                PlanError {
                    span,
                    message: cat3(
                        "discarded class temporary unexpectedly names source place `",
                        source.render().as_str(),
                        "`",
                    ),
                },
            );
        }
        let key = SiteKey { scope, span };
        if find_site(&self.plan.temporary_drop_ids, key).is_some() {
            return Err(
                PlanError::new(
                    span,
                    "duplicate discarded-class span in one lexical scope has no stable control identity",
                ),
            );
        }
        let temporary = match self.compiler_temp(
            scope,
            span,
            CompilerTempKind::DiscardedClassValue,
            false,
        ) {
            Err(e) => {
                return Err(e);
            },
            Ok(place) => place,
        };
        let index = self.plan.temporary_drops.len();
        let transfer_key = ValueTransferKey {
            owner: self.plan.owner.copy(),
            span,
            sink: ValueTransferSink::DiscardTemporary,
        };
        self.plan.temporary_drops.push(
            TemporaryDropAction { scope, span, transfer_key, temporary, drop_action },
        );
        self.plan.temporary_drop_ids.push(SiteEntry { key, index });
        Ok(())
    }

    pub fn array_literal_temps(
        &mut self,
        scope: ScopeId,
        ty: &Ty,
        initializer: Option<&Expr>,
    ) -> (r: Result<(), PlanError>)
        requires
            old(self).wf(),
            scope.0 < old(self).plan@.scopes.len(),
        ensures
            steps(
                r,
                final(self)@,
                old(self)@.array_literal_temps(
                    scope,
                    *ty,
                    match initializer {
                        Some(e) => Some(*e),
                        None => None,
                    },
                ),
            ),
            r is Ok ==> final(self).kept(*old(self)),
    {
        if !ty.is_array_of(&Ty::Bool) {
            return Ok(());
        }
        let e = match initializer {
            Some(e) => e,
            None => {
                return Ok(());
            },
        };
        if let ExprKind::ArrayLit(elements) = &e.kind {
            let n: usize = elements.len();
            let mut i: usize = 0;
            while i < n
                invariant
                    self.kept(*old(self)),
                    scope.0 < self.plan@.scopes.len(),
                    i <= n,
                    n == elements@.len(),
                    e.kind == ExprKind::ArrayLit(*elements),
                    ty.array_of(Ty::Bool),
                    initializer == Some(e),
                    old(self)@.literal_temps(scope, e.span, 0, n as nat) == self@.literal_temps(
                        scope,
                        e.span,
                        i as nat,
                        n as nat,
                    ),
                decreases n - i,
            {
                match self.compiler_temp(
                    scope,
                    e.span,
                    CompilerTempKind::BoolLiteralElement(i),
                    true,
                ) {
                    Err(e) => {
                        return Err(e);
                    },
                    Ok(_) => {},
                }
                i = i + 1;
            }
        }
        Ok(())
    }

    fn return_site(&mut self, scope: ScopeId, span: Span, has_value: bool, exposed: bool) -> (r:
        Result<(), PlanError>)
        requires
            old(self).wf(),
            scope.0 < old(self).plan@.scopes.len(),
        ensures
            steps(r, final(self)@, old(self)@.return_site(scope, span, has_value, exposed)),
            r is Ok ==> final(self).kept(*old(self)),
    {
        if exposed {
            return Err(
                PlanError::new(span, "return inside an exposure would bypass reconstruction"),
            );
        }
        let key = SiteKey { scope, span };
        if has_site(&self.plan.return_sites, key) {
            return Err(
                PlanError::new(
                    span,
                    "duplicate return span in one lexical scope has no stable control identity",
                ),
            );
        }
        self.plan.return_sites.push(key);
        if has_value {
            match self.compiler_temp(scope, span, CompilerTempKind::ReturnValue, false) {
                Err(e) => {
                    return Err(e);
                },
                Ok(_) => {},
            }
        }
        Ok(())
    }

    fn raw_pair(
        &mut self,
        scope: ScopeId,
        ptr: &String,
        ptr_span: Span,
        res: &String,
        res_span: Span,
    ) -> (r: Result<(), PlanError>)
        requires
            old(self).wf(),
            scope.0 < old(self).plan@.scopes.len(),
        ensures
            steps(
                r,
                final(self)@,
                old(self)@.raw_pair(scope, ptr@, ptr_span, res@, res_span),
            ),
            r is Ok ==> final(self).kept(*old(self)),
    {
        match self.reserve(scope, ptr, Ty::Raw(IntTy::U8), ptr_span) {
            Err(e) => {
                return Err(e);
            },
            Ok(_) => {},
        }
        self.reserve(scope, res, Ty::Res(ResKind::RawSpan), res_span)
    }

    fn exposure_entry(
        &mut self,
        scope: ScopeId,
        kw_span: Span,
        ptr: &String,
        ptr_span: Span,
        res: &String,
        res_span: Span,
    ) -> (r: Result<(), PlanError>)
        requires
            old(self).wf(),
            scope.0 < old(self).plan@.scopes.len(),
        ensures
            steps(
                r,
                final(self)@,
                old(self)@.exposure_entry(scope, kw_span, ptr@, ptr_span, res@, res_span),
            ),
            r is Ok ==> final(self).kept(*old(self)),
    {
        match self.raw_pair(scope, ptr, ptr_span, res, res_span) {
            Err(e) => {
                return Err(e);
            },
            Ok(_) => {},
        }
        match self.compiler_temp(scope, kw_span, CompilerTempKind::ExposureLoan, false) {
            Err(e) => {
                return Err(e);
            },
            Ok(_) => {},
        }
        match self.compiler_temp(scope, kw_span, CompilerTempKind::ExposureIndex, false) {
            Err(e) => {
                return Err(e);
            },
            Ok(_) => {},
        }
        match self.compiler_temp(scope, kw_span, CompilerTempKind::ExposureByte, false) {
            Err(e) => {
                return Err(e);
            },
            Ok(_) => {},
        }
        Ok(())
    }

    /// Enters the statements of a block into `scope`. `exposed` holds inside an exposure.
    pub fn walk_block(&mut self, statements: &[Stmt], scope: ScopeId, exposed: bool) -> (r: Result<
        (),
        PlanError,
    >)
        requires
            old(self).wf(),
            scope.0 < old(self).plan@.scopes.len(),
        ensures
            steps(r, final(self)@, walk_from(old(self)@, statements@, 0, scope, exposed)),
            r is Ok ==> final(self).kept(*old(self)),
        decreases statements@, statements@.len() + 1,
    {
        let n: usize = statements.len();
        let mut i: usize = 0;
        while i < n
            invariant
                n == statements@.len(),
                i <= n,
                self.kept(*old(self)),
                scope.0 < self.plan@.scopes.len(),
                walk_from(old(self)@, statements@, 0, scope, exposed) == walk_from(
                    self@,
                    statements@,
                    i as nat,
                    scope,
                    exposed,
                ),
            decreases n - i,
        {
            match self.walk_statement(&statements[i], scope, exposed) {
                Err(e) => {
                    return Err(e);
                },
                Ok(_) => {},
            }
            i = i + 1;
        }
        Ok(())
    }

    fn walk_statement(&mut self, statement: &Stmt, scope: ScopeId, exposed: bool) -> (r: Result<
        (),
        PlanError,
    >)
        requires
            old(self).wf(),
            scope.0 < old(self).plan@.scopes.len(),
        ensures
            steps(r, final(self)@, walk_stmt(old(self)@, *statement, scope, exposed)),
            r is Ok ==> final(self).kept(*old(self)),
        decreases statement, 0nat,
    {
        match statement {
            Stmt::Decl { name, ty, name_span, init, .. } => {
                match self.declare(scope, name, ty.clone(), *name_span) {
                    Err(e) => {
                        return Err(e);
                    },
                    Ok(_) => {},
                }
                self.array_literal_temps(scope, ty, init.as_ref())
            },
            Stmt::VarDecl { name, ty, name_span, init, .. } => {
                let ty = match ty {
                    None => {
                        return Err(
                            PlanError {
                                span: *name_span,
                                message: cat3(
                                    "inferred local `",
                                    name.as_str(),
                                    "` has no checked type for cleanup planning",
                                ),
                            },
                        );
                    },
                    Some(ty) => ty,
                };
                match self.declare(scope, name, ty.clone(), *name_span) {
                    Err(e) => {
                        return Err(e);
                    },
                    Ok(_) => {},
                }
                self.array_literal_temps(scope, ty, Some(init))
            },
            Stmt::If { cond, then_block, else_block } => {
                let then_scope = match self.outlined_scope(
                    ScopeKind::BranchArm(BranchArm::Then),
                    cond.span,
                    scope,
                ) {
                    Err(e) => {
                        return Err(e);
                    },
                    Ok(id) => id,
                };
                match self.walk_block(then_block.as_slice(), then_scope, exposed) {
                    Err(e) => {
                        return Err(e);
                    },
                    Ok(_) => {},
                }
                match else_block {
                    None => Ok(()),
                    Some(else_block) => {
                        let else_scope = match self.outlined_scope(
                            ScopeKind::BranchArm(BranchArm::Else),
                            cond.span,
                            scope,
                        ) {
                            Err(e) => {
                                return Err(e);
                            },
                            Ok(id) => id,
                        };
                        self.walk_block(else_block.as_slice(), else_scope, exposed)
                    },
                }
            },
            Stmt::While { kw_span, body, .. } => {
                let body_scope = match self.outlined_scope(ScopeKind::LoopBody, *kw_span, scope) {
                    Err(e) => {
                        return Err(e);
                    },
                    Ok(id) => id,
                };
                self.walk_block(body.as_slice(), body_scope, exposed)
            },
            Stmt::Unsafe { body, .. } => self.walk_block(body.as_slice(), scope, exposed),
            Stmt::Expose { kw_span, ptr, ptr_span, res, res_span, body, .. } => {
                let exposure = match self.outlined_scope(ScopeKind::Exposure, *kw_span, scope) {
                    Err(e) => {
                        return Err(e);
                    },
                    Ok(id) => id,
                };
                match self.exposure_entry(exposure, *kw_span, ptr, *ptr_span, res, *res_span) {
                    Err(e) => {
                        return Err(e);
                    },
                    Ok(_) => {},
                }
                self.walk_block(body.as_slice(), exposure, true)
            },
            Stmt::Return { value, span } => self.return_site(
                scope,
                *span,
                value.is_some(),
                exposed,
            ),
            Stmt::StaticAlloc { ptr, ptr_span, res, res_span, .. } => self.raw_pair(
                scope,
                ptr,
                *ptr_span,
                res,
                *res_span,
            ),
            Stmt::SystemAlloc { ptr, ptr_span, res, res_span, release, release_span, .. } => {
                match self.raw_pair(scope, ptr, *ptr_span, res, *res_span) {
                    Err(e) => {
                        return Err(e);
                    },
                    Ok(_) => {},
                }
                self.reserve(scope, release, Ty::Res(ResKind::SystemDealloc), *release_span)
            },
            Stmt::Assign { name, name_span, value } => self.assignment(
                scope,
                name,
                *name_span,
                value,
            ),
            Stmt::ExprStmt(e) => self.temporary_drop(scope, e),
            Stmt::FieldAssign { field, field_span, value } => self.field_assignment(
                scope,
                field,
                *field_span,
                value,
            ),
            _ => Ok(()),
        }
    }
}

} // verus!
