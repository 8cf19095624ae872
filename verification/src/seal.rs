//! Sealing an outline and a checked body into a control plan.
use vstd::prelude::*;

use crate::ast::{Mutability, Param, Stmt, Ty};
use crate::builder::{walk_from, BuilderV, BuiltV, PlanBuilder};
use crate::drops::{
    agrees, plan_err, trap_route_v, ErrV, ExitKind, ExitRoute, PlanError, RouteV,
};
use crate::inventory::{inv_from, root_inventory, BodyInventory};
use crate::lookup::{
    enter_site, find_scope, find_trap, put_site, scope_at, site_index, trap_index,
};
use crate::outline::{
    linear_kind, linear_statement_kind, outline_of, BlockId, BranchId, ControlOutline, ExposureId,
    LoopId, OutlineV, ScopeId, StatementPlanKind,
};
use crate::outline_laws::{law_outline_is_well_formed, role_fits};
use crate::place::{local_place, CallOwner, EffectSiteKey, EffectV, OwnerV, Place};
use crate::plan::{
    scope_kind_tag, scope_kind_text, ArmV, BodyPlan, BranchArmPlan, BranchPlan, BranchV,
    CompilerTempKind, ExposureNormalPlan, ExposurePlan, ExposureRebuildAction, ExposureV, LoopPlan,
    LoopV, PlanV, Scope, ScopeEntry, ScopeV, SiteKey,
};
use crate::repr::{copy_vec, group_views, opt_view, views, Repr};
use crate::seal_laws::lemma_walk_keeps;
use crate::span::Span;
use crate::text::cat3;
use crate::traps::{TrapKeyV, TrapSite, TrapSiteV};

verus! {

broadcast use group_views;

// ------------------------------------------------------------------------------------------
// Structural edges
// ------------------------------------------------------------------------------------------

pub open spec fn role_refusal(o: OutlineV, block: BlockId) -> ErrV {
    plan_err(
        o.blocks[block.0 as int].anchor,
        "checked statement no longer matches its pre-check control role"@,
    )
}

/// The exit of a block that can fall through.
pub open spec fn fall_exit(p: PlanV, kind: ExitKind, block: BlockId) -> Option<RouteV> {
    let b = p.blocks[block.0 as int];
    if b.flow.reaches_next {
        Some(p.route(kind, seq![b.scope]))
    } else {
        None
    }
}

pub open spec fn sealed_arm(p: PlanV, block: BlockId) -> ArmV {
    let b = p.blocks[block.0 as int];
    ArmV {
        block,
        scope: b.scope,
        flow: b.flow,
        normal_exit: fall_exit(p, ExitKind::Fallthrough, block),
    }
}

/// What a step of sealing says, and the plan after it: on a refusal, what was sealed before. A
/// site that is refused for its identity stays in its index.
pub type SealedV = (Result<(), ErrV>, PlanV);

/// A block and everything inside it, with inner edges sealed before outer ones.
pub open spec fn seal_block(p: PlanV, o: OutlineV, s: Seq<Stmt>, block: BlockId) -> SealedV
    decreases s, s.len() + 1,
{
    if o.blocks[block.0 as int].statements.len() != s.len() {
        (Err(
            plan_err(
                o.blocks[block.0 as int].anchor,
                "checked block length no longer matches its pre-check outline"@,
            ),
        ), p)
    } else {
        seal_from(p, o, s, 0, block)
    }
}

/// The statements of a block from `i` on.
pub open spec fn seal_from(p: PlanV, o: OutlineV, s: Seq<Stmt>, i: nat, block: BlockId) -> SealedV
    decreases s, s.len() - i,
{
    if i >= s.len() {
        (Ok(()), p)
    } else {
        match seal_stmt(
            p,
            o,
            s[i as int],
            o.blocks[block.0 as int].statements[i as int].kind,
            block,
        ) {
            (Err(e), p) => (Err(e), p),
            (Ok(_), p) => seal_from(p, o, s, i + 1, block),
        }
    }
}

pub open spec fn seal_stmt(
    p: PlanV,
    o: OutlineV,
    s: Stmt,
    kind: StatementPlanKind,
    block: BlockId,
) -> SealedV
    decreases s, 0nat,
{
    match (kind, s) {
        (StatementPlanKind::Branch(id), Stmt::If { cond, then_block, else_block }) => {
            let source = o.branches[id.0 as int];
            match seal_block(p, o, then_block@, source.then_block) {
                (Err(e), p) => (Err(e), p),
                (Ok(_), p) => {
                    let rest = match (else_block, source.else_block) {
                        (Some(e), Some(child)) => seal_block(p, o, e@, child),
                        _ => (Ok(()), p),
                    };
                    match rest {
                        (Err(e), p) => (Err(e), p),
                        (Ok(_), p) => seal_branch(p, o, id, cond.span, else_block is Some),
                    }
                },
            }
        },
        (StatementPlanKind::Loop(id), Stmt::While { cond, kw_span, body, .. }) => match seal_block(
            p,
            o,
            body@,
            o.loops[id.0 as int].body,
        ) {
            (Err(e), p) => (Err(e), p),
            (Ok(_), p) => seal_loop(p, o, id, kw_span, cond.span),
        },
        (StatementPlanKind::Exposure(id), Stmt::Expose { body, .. }) => match seal_block(
            p,
            o,
            body@,
            o.exposures[id.0 as int].body,
        ) {
            (Err(e), p) => (Err(e), p),
            (Ok(_), p) => seal_exposure(p, o, id, s),
        },
        (StatementPlanKind::Unsafe(child), Stmt::Unsafe { body, .. }) => seal_block(
            p,
            o,
            body@,
            child,
        ),
        (StatementPlanKind::Return, Stmt::Return { .. }) => (Ok(()), p),
        (StatementPlanKind::Linear(expected), _) => if linear_kind(s) == Some(expected) {
            (Ok(()), p)
        } else {
            (Err(role_refusal(o, block)), p)
        },
        _ => (Err(role_refusal(o, block)), p),
    }
}

pub open spec fn seal_branch(
    p: PlanV,
    o: OutlineV,
    id: BranchId,
    anchor: Span,
    has_else: bool,
) -> SealedV {
    let source = o.branches[id.0 as int];
    let branch = BranchV {
        id,
        parent_scope: source.parent_scope,
        anchor: source.anchor,
        then_arm: sealed_arm(p, source.then_block),
        else_arm: match source.else_block {
            Some(child) => Some(sealed_arm(p, child)),
            None => None,
        },
        flow: source.flow,
    };
    let key = SiteKey { scope: branch.parent_scope, span: branch.anchor };
    let entered = PlanV {
        branch_ids: put_site(p.branch_ids, key, p.branches.len() as usize),
        ..p
    };
    if branch.anchor != anchor || (branch.else_arm is Some) != has_else {
        (Err(plan_err(anchor, "checked branch no longer matches its pre-check arm shape"@)), p)
    } else if site_index(p.branch_ids, key) is Some {
        (Err(plan_err(anchor, "duplicate branch site has no stable parent/anchor identity"@)), entered)
    } else if id.0 != p.branches.len() {
        (Err(plan_err(anchor, "pre-check branch identities changed during sealing"@)), entered)
    } else {
        (
            Ok(()),
            PlanV { branches: p.branches.push(branch), ..entered },
        )
    }
}

pub open spec fn seal_loop(
    p: PlanV,
    o: OutlineV,
    id: LoopId,
    kw_span: Span,
    condition_span: Span,
) -> SealedV {
    let source = o.loops[id.0 as int];
    let body = p.blocks[source.body.0 as int];
    let plan = LoopV {
        id,
        parent_scope: source.parent_scope,
        keyword_span: source.keyword_span,
        condition_span: source.condition_span,
        body: source.body,
        body_scope: body.scope,
        body_flow: body.flow,
        backedge: fall_exit(p, ExitKind::Backedge, source.body),
        effect_key: EffectV { owner: p.owner, span: source.keyword_span },
        flow: source.flow,
    };
    let key = SiteKey { scope: plan.parent_scope, span: plan.keyword_span };
    let entered = PlanV { loop_ids: put_site(p.loop_ids, key, p.loops.len() as usize), ..p };
    if plan.keyword_span != kw_span || plan.condition_span != condition_span {
        (Err(plan_err(kw_span, "checked loop no longer matches its pre-check edge identity"@)), p)
    } else if site_index(p.loop_ids, key) is Some {
        (Err(plan_err(kw_span, "duplicate loop site has no stable parent/anchor identity"@)), entered)
    } else if id.0 != p.loops.len() {
        (Err(plan_err(kw_span, "pre-check loop identities changed during sealing"@)), entered)
    } else {
        (
            Ok(()),
            PlanV { loops: p.loops.push(plan), ..entered },
        )
    }
}

pub open spec fn seal_exposure(p: PlanV, o: OutlineV, id: ExposureId, s: Stmt) -> SealedV {
    match s {
        Stmt::Expose { kw_span, array, array_span, mutable, ptr, res, .. } => {
            let source = o.exposures[id.0 as int];
            let body = p.blocks[source.body.0 as int];
            let bound = p.bindings_of(local_place(array@), p.scopes.len());
            if bound.len() == 0 {
                (Err(
                    plan_err(
                        kw_span,
                        "checked exposure source `"@ + array@ + "` has no retained binding"@,
                    ),
                ), p)
            } else {
                let normal = if body.flow.reaches_next {
                    match p.expected_normal(
                        body.scope,
                        source.parent_scope,
                        kw_span,
                        array@,
                        array_span,
                        bound[0].ty,
                        mutable,
                        ptr@,
                        res@,
                    ) {
                        Err(e) => Err(e),
                        Ok(n) => Ok(Some(n)),
                    }
                } else {
                    Ok(None)
                };
                match normal {
                    Err(e) => (Err(e), p),
                    Ok(normal) => {
                        let key = SiteKey {
                            scope: source.parent_scope,
                            span: source.keyword_span,
                        };
                        let entered = PlanV {
                            exposure_ids: put_site(
                                p.exposure_ids,
                                key,
                                p.exposures.len() as usize,
                            ),
                            ..p
                        };
                        if site_index(p.exposure_ids, key) is Some {
                            (Err(
                                plan_err(
                                    kw_span,
                                    "duplicate exposure site has no stable parent/anchor identity"@,
                                ),
                            ), entered)
                        } else if id.0 != p.exposures.len() {
                            (Err(
                                plan_err(
                                    kw_span,
                                    "pre-check exposure identities changed during sealing"@,
                                ),
                            ), entered)
                        } else {
                            (
                                Ok(()),
                                PlanV {
                                    exposures: p.exposures.push(
                                        ExposureV {
                                            id,
                                            parent_scope: source.parent_scope,
                                            keyword_span: source.keyword_span,
                                            body: source.body,
                                            body_scope: body.scope,
                                            body_flow: body.flow,
                                            effect_key: EffectV {
                                                owner: p.owner,
                                                span: source.keyword_span,
                                            },
                                            normal,
                                            flow: source.flow,
                                        },
                                    ),
                                    ..entered
                                },
                            )
                        }
                    },
                }
            }
        },
        _ => (Err(role_refusal(o, BlockId(0))), p),
    }
}

/// The plan and the outline belong together.
pub open spec fn paired(p: PlanV, o: OutlineV) -> bool {
    p.wf() && o.wf() && p.blocks == o.blocks && p.scopes.len() == o.scopes.len()
}

/// A step of sealing did what is stated, and left the stated plan.
pub open spec fn seals(r: Result<(), PlanError>, after: PlanV, s: SealedV) -> bool {
    &&& after == s.1
    &&& match s.0 {
        Ok(_) => r is Ok,
        Err(e) => r matches Err(x) && x@ == e,
    }
}

impl BodyPlan {
    fn fall_exit(&self, kind: ExitKind, block: BlockId) -> (r: Option<ExitRoute>)
        requires
            block.0 < self@.blocks.len(),
            self@.blocks[block.0 as int].scope.0 < self@.scopes.len(),
        ensures
            opt_view(r) == fall_exit(self@, kind, block),
    {
        let b = &self.blocks[block.0];
        if b.flow.can_fall_through() {
            Some(self.route_one(kind, b.scope))
        } else {
            None
        }
    }

    fn sealed_arm(&self, block: BlockId) -> (r: BranchArmPlan)
        requires
            block.0 < self@.blocks.len(),
            self@.blocks[block.0 as int].scope.0 < self@.scopes.len(),
        ensures
            r@ == sealed_arm(self@, block),
    {
        let normal_exit = self.fall_exit(ExitKind::Fallthrough, block);
        let b = &self.blocks[block.0];
        BranchArmPlan { block, scope: b.scope, flow: b.flow, normal_exit }
    }

    /// Seals the edges of a block and of everything inside it.
    pub fn seal_structural_edges(
        &mut self,
        outline: &ControlOutline,
        statements: &[Stmt],
        block: BlockId,
    ) -> (r: Result<(), PlanError>)
        requires
            paired(old(self)@, outline@),
            block.0 < outline@.blocks.len(),
        ensures
            seals(r, final(self)@, seal_block(old(self)@, outline@, statements@, block)),
            r is Ok ==> paired(final(self)@, outline@),
        decreases statements@, statements@.len() + 1,
    {
        let planned = &outline.blocks[block.0];
        if planned.statements.len() != statements.len() {
            return Err(
                PlanError::new(
                    planned.anchor,
                    "checked block length no longer matches its pre-check outline",
                ),
            );
        }
        let n: usize = statements.len();
        let mut i: usize = 0;
        while i < n
            invariant
                paired(self@, outline@),
                block.0 < outline@.blocks.len(),
                planned@ == outline@.blocks[block.0 as int],
                planned.statements@.len() == n,
                n == statements@.len(),
                i <= n,
                seal_block(old(self)@, outline@, statements@, block) == seal_from(
                    self@,
                    outline@,
                    statements@,
                    i as nat,
                    block,
                ),
            decreases n - i,
        {
            let kind = planned.statements[i].kind;
            proof {
                assert(outline@.blocks[block.0 as int].statements[i as int].kind == kind);
                assert(role_fits(
                    outline@,
                    outline@.blocks[block.0 as int].statements[i as int].kind,
                    block.0 as int,
                ));
            }
            match self.seal_statement(outline, &statements[i], kind, block) {
                Err(e) => {
                    return Err(e);
                },
                Ok(_) => {},
            }
            i = i + 1;
        }
        Ok(())
    }

    fn role_refusal(outline: &ControlOutline, block: BlockId) -> (r: PlanError)
        requires
            block.0 < outline@.blocks.len(),
        ensures
            r@ == role_refusal(outline@, block),
    {
        PlanError::new(
            outline.blocks[block.0].anchor,
            "checked statement no longer matches its pre-check control role",
        )
    }

    fn seal_statement(
        &mut self,
        outline: &ControlOutline,
        statement: &Stmt,
        kind: StatementPlanKind,
        block: BlockId,
    ) -> (r: Result<(), PlanError>)
        requires
            paired(old(self)@, outline@),
            block.0 < outline@.blocks.len(),
            role_fits(outline@, kind, block.0 as int),
        ensures
            seals(r, final(self)@, seal_stmt(old(self)@, outline@, *statement, kind, block)),
            r is Ok ==> paired(final(self)@, outline@),
        decreases statement, 0nat,
    {
        match (kind, statement) {
            (StatementPlanKind::Branch(id), Stmt::If { cond, then_block, else_block }) => {
                let source = outline.branches[id.0];
                assert(source == outline@.branches[id.0 as int]);
                match self.seal_structural_edges(
                    outline,
                    then_block.as_slice(),
                    source.then_block,
                ) {
                    Err(e) => {
                        return Err(e);
                    },
                    Ok(_) => {},
                }
                match (else_block, source.else_block) {
                    (Some(e), Some(child)) => {
                        match self.seal_structural_edges(outline, e.as_slice(), child) {
                            Err(e) => {
                                return Err(e);
                            },
                            Ok(_) => {},
                        }
                    },
                    _ => {},
                }
                self.seal_branch(outline, id, cond.span, else_block.is_some())
            },
            (StatementPlanKind::Loop(id), Stmt::While { cond, kw_span, body, .. }) => {
                let source = outline.loops[id.0];
                assert(source == outline@.loops[id.0 as int]);
                match self.seal_structural_edges(outline, body.as_slice(), source.body) {
                    Err(e) => {
                        return Err(e);
                    },
                    Ok(_) => {},
                }
                self.seal_loop(outline, id, *kw_span, cond.span)
            },
            (StatementPlanKind::Exposure(id), Stmt::Expose { body, .. }) => {
                let source = outline.exposures[id.0];
                assert(source == outline@.exposures[id.0 as int]);
                match self.seal_structural_edges(outline, body.as_slice(), source.body) {
                    Err(e) => {
                        return Err(e);
                    },
                    Ok(_) => {},
                }
                self.seal_exposure(outline, id, statement)
            },
            (StatementPlanKind::Unsafe(child), Stmt::Unsafe { body, .. }) =>
                self.seal_structural_edges(outline, body.as_slice(), child),
            (StatementPlanKind::Return, Stmt::Return { .. }) => Ok(()),
            (StatementPlanKind::Linear(expected), source) => {
                let matched = match linear_statement_kind(source) {
                    Some(kind) => kind == expected,
                    None => false,
                };
                if matched {
                    Ok(())
                } else {
                    Err(Self::role_refusal(outline, block))
                }
            },
            _ => Err(Self::role_refusal(outline, block)),
        }
    }

    fn seal_branch(
        &mut self,
        outline: &ControlOutline,
        id: BranchId,
        anchor: Span,
        has_else: bool,
    ) -> (r: Result<(), PlanError>)
        requires
            paired(old(self)@, outline@),
            id.0 < outline@.branches.len(),
        ensures
            seals(r, final(self)@, seal_branch(old(self)@, outline@, id, anchor, has_else)),
            r is Ok ==> paired(final(self)@, outline@),
    {
        let source = outline.branches[id.0];
        assert(source == outline@.branches[id.0 as int]);
        assert(self@.blocks[source.then_block.0 as int]
            == outline@.blocks[source.then_block.0 as int]);
        let then_arm = self.sealed_arm(source.then_block);
        let else_arm = match source.else_block {
            Some(child) => {
                assert(self@.blocks[child.0 as int] == outline@.blocks[child.0 as int]);
                Some(self.sealed_arm(child))
            },
            None => None,
        };
        if source.anchor != anchor || else_arm.is_some() != has_else {
            return Err(
                PlanError::new(anchor, "checked branch no longer matches its pre-check arm shape"),
            );
        }
        let key = SiteKey { scope: source.parent_scope, span: source.anchor };
        let index = self.branches.len();
        if enter_site(&mut self.branch_ids, key, index) {
            return Err(
                PlanError::new(
                    anchor,
                    "duplicate branch site has no stable parent/anchor identity",
                ),
            );
        }
        if id.0 != index {
            return Err(
                PlanError::new(anchor, "pre-check branch identities changed during sealing"),
            );
        }
        self.branches.push(
            BranchPlan {
                id,
                parent_scope: source.parent_scope,
                anchor: source.anchor,
                then_arm,
                else_arm,
                flow: source.flow,
            },
        );
        Ok(())
    }

    fn seal_loop(
        &mut self,
        outline: &ControlOutline,
        id: LoopId,
        kw_span: Span,
        condition_span: Span,
    ) -> (r: Result<(), PlanError>)
        requires
            paired(old(self)@, outline@),
            id.0 < outline@.loops.len(),
        ensures
            seals(r, final(self)@, seal_loop(old(self)@, outline@, id, kw_span, condition_span)),
            r is Ok ==> paired(final(self)@, outline@),
    {
        let source = outline.loops[id.0];
        assert(source == outline@.loops[id.0 as int]);
        assert(self@.blocks[source.body.0 as int] == outline@.blocks[source.body.0 as int]);
        let backedge = self.fall_exit(ExitKind::Backedge, source.body);
        let body_scope = self.blocks[source.body.0].scope;
        let body_flow = self.blocks[source.body.0].flow;
        if source.keyword_span != kw_span || source.condition_span != condition_span {
            return Err(
                PlanError::new(
                    kw_span,
                    "checked loop no longer matches its pre-check edge identity",
                ),
            );
        }
        let key = SiteKey { scope: source.parent_scope, span: source.keyword_span };
        let index = self.loops.len();
        if enter_site(&mut self.loop_ids, key, index) {
            return Err(
                PlanError::new(kw_span, "duplicate loop site has no stable parent/anchor identity"),
            );
        }
        if id.0 != index {
            return Err(
                PlanError::new(kw_span, "pre-check loop identities changed during sealing"),
            );
        }
        let effect_key = EffectSiteKey { owner: self.owner.copy(), span: source.keyword_span };
        self.loops.push(
            LoopPlan {
                id,
                parent_scope: source.parent_scope,
                keyword_span: source.keyword_span,
                condition_span: source.condition_span,
                body: source.body,
                body_scope,
                body_flow,
                backedge,
                effect_key,
                flow: source.flow,
            },
        );
        Ok(())
    }

    fn normal_end(
        &self,
        body_scope: ScopeId,
        parent_scope: ScopeId,
        kw_span: Span,
        array: &String,
        array_span: Span,
        owner_ty: Ty,
        mutable: bool,
        ptr: &String,
        res: &String,
    ) -> (r: Result<ExposureNormalPlan, PlanError>)
        requires
            body_scope.0 < self@.scopes.len(),
        ensures
            agrees(
                r,
                self@.expected_normal(
                    body_scope,
                    parent_scope,
                    kw_span,
                    array@,
                    array_span,
                    owner_ty,
                    mutable,
                    ptr@,
                    res@,
                ),
            ),
    {
        let body_exit = self.route_one(ExitKind::Fallthrough, body_scope);
        let close = match self.exposure_close(body_scope, kw_span) {
            Err(e) => {
                return Err(e);
            },
            Ok(close) => close,
        };
        let release_loan = match self.compiler_temp(
            body_scope,
            kw_span,
            CompilerTempKind::ExposureLoan,
        ) {
            Err(e) => {
                return Err(e);
            },
            Ok(place) => place.copy(),
        };
        let mutability = if mutable {
            Mutability::Mut
        } else {
            Mutability::Shared
        };
        Ok(
            ExposureNormalPlan {
                capture: Place::local(res.as_str()),
                body_exit,
                rebuild: ExposureRebuildAction {
                    owner: Place::local(array.as_str()),
                    owner_span: array_span,
                    owner_ty,
                    mutability,
                    pointer: Place::local(ptr.as_str()),
                    resource: Place::local(res.as_str()),
                    keyword_span: kw_span,
                },
                release_loan,
                close,
                parent_scope,
            },
        )
    }

    fn seal_exposure(&mut self, outline: &ControlOutline, id: ExposureId, statement: &Stmt) -> (r:
        Result<(), PlanError>)
        requires
            paired(old(self)@, outline@),
            id.0 < outline@.exposures.len(),
            statement is Expose,
        ensures
            seals(r, final(self)@, seal_exposure(old(self)@, outline@, id, *statement)),
            r is Ok ==> paired(final(self)@, outline@),
    {
        let source = outline.exposures[id.0];
        assert(source == outline@.exposures[id.0 as int]);
        assert(self@.blocks[source.body.0 as int] == outline@.blocks[source.body.0 as int]);
        match statement {
            Stmt::Expose { kw_span, array, array_span, mutable, ptr, res, .. } => {
                let body_scope = self.blocks[source.body.0].scope;
                let body_flow = self.blocks[source.body.0].flow;
                let bound = self.retained_types(&Place::local(array.as_str()));
                if bound.len() == 0 {
                    return Err(
                        PlanError {
                            span: *kw_span,
                            message: cat3(
                                "checked exposure source `",
                                array.as_str(),
                                "` has no retained binding",
                            ),
                        },
                    );
                }
                let normal = if body_flow.can_fall_through() {
                    match self.normal_end(
                        body_scope,
                        source.parent_scope,
                        *kw_span,
                        array,
                        *array_span,
                        bound[0].clone(),
                        *mutable,
                        ptr,
                        res,
                    ) {
                        Err(e) => {
                            return Err(e);
                        },
                        Ok(normal) => Some(normal),
                    }
                } else {
                    None
                };
                let key = SiteKey { scope: source.parent_scope, span: source.keyword_span };
                let index = self.exposures.len();
                if enter_site(&mut self.exposure_ids, key, index) {
                    return Err(
                        PlanError::new(
                            *kw_span,
                            "duplicate exposure site has no stable parent/anchor identity",
                        ),
                    );
                }
                if id.0 != index {
                    return Err(
                        PlanError::new(
                            *kw_span,
                            "pre-check exposure identities changed during sealing",
                        ),
                    );
                }
                let effect_key = EffectSiteKey {
                    owner: self.owner.copy(),
                    span: source.keyword_span,
                };
                self.exposures.push(
                    ExposurePlan {
                        id,
                        parent_scope: source.parent_scope,
                        keyword_span: source.keyword_span,
                        body: source.body,
                        body_scope,
                        body_flow,
                        effect_key,
                        normal,
                        flow: source.flow,
                    },
                );
                Ok(())
            },
            _ => Ok(()),
        }
    }
}

// ------------------------------------------------------------------------------------------
// Trap sites
// ------------------------------------------------------------------------------------------

/// The plan with the traps from `i` on retained, each under its own identity.
pub open spec fn retain_traps(p: PlanV, keys: Seq<TrapKeyV>, i: nat) -> SealedV
    decreases keys.len() - i,
{
    if i >= keys.len() {
        (Ok(()), p)
    } else if trap_index(p.trap_sites, keys[i as int]) is Some {
        (Err(
            plan_err(
                keys[i as int].span,
                "duplicate "@ + keys[i as int].kind.text()
                    + " trap site in one lexical scope has no stable structural identity"@,
            ),
        ), p)
    } else {
        retain_traps(
            PlanV {
                trap_sites: p.trap_sites.push(
                    TrapSiteV { key: keys[i as int], route: trap_route_v() },
                ),
                ..p
            },
            keys,
            i + 1,
        )
    }
}

/// The plan with every trap of the body retained.
pub open spec fn seal_traps(p: PlanV, body: Seq<Stmt>) -> SealedV {
    match inv_from(p, root_inventory(p), body, 0, p.body_scope) {
        (Err(e), _) => (Err(e), p),
        (Ok(_), inv) => retain_traps(p, inv.traps, 0),
    }
}

impl BodyPlan {
    pub fn seal_trap_sites(&mut self, body: &[Stmt]) -> (r: Result<(), PlanError>)
        requires
            old(self)@.wf(),
        ensures
            seals(r, final(self)@, seal_traps(old(self)@, body@)),
            r is Ok ==> final(self)@.wf(),
    {
        let mut inventory = BodyInventory::root(self);
        let scope = self.body_scope;
        match self.inventory_block(body, scope, &mut inventory) {
            Err(e) => {
                return Err(e);
            },
            Ok(_) => {},
        }
        let ghost all = inventory@.traps;
        let keys = inventory.traps;
        let n: usize = keys.len();
        let mut i: usize = 0;
        while i < n
            invariant
                n == keys@.len(),
                i <= n,
                self@.wf(),
                views(keys@) == all,
                seal_traps(old(self)@, body@) == retain_traps(self@, all, i as nat),
            decreases n - i,
        {
            let key = &keys[i];
            if find_trap(&self.trap_sites, key).is_some() {
                return Err(
                    PlanError {
                        span: key.span,
                        message: cat3(
                            "duplicate ",
                            key.kind.describe().as_str(),
                            " trap site in one lexical scope has no stable structural identity",
                        ),
                    },
                );
            }
            self.trap_sites.push(TrapSite { key: key.copy(), route: ExitRoute::terminal_trap() });
            i = i + 1;
        }
        Ok(())
    }
}

// ------------------------------------------------------------------------------------------
// The whole body
// ------------------------------------------------------------------------------------------

/// The scopes of an outline, entered from `i` on under unique anchors.
pub open spec fn enter_scopes(
    o: OutlineV,
    i: nat,
    scopes: Seq<ScopeV>,
    ids: Seq<ScopeEntry>,
) -> Result<(Seq<ScopeV>, Seq<ScopeEntry>), ErrV>
    decreases o.scopes.len() - i,
{
    if i >= o.scopes.len() {
        Ok((scopes, ids))
    } else {
        let s = o.scopes[i as int];
        if scope_at(ids, s.kind, s.anchor) is Some {
            Err(
                plan_err(
                    s.anchor,
                    "duplicate "@ + scope_kind_text(s.kind)
                        + " scope anchor in one callable"@,
                ),
            )
        } else {
            enter_scopes(
                o,
                i + 1,
                scopes.push(
                    ScopeV {
                        parent: s.parent,
                        kind: s.kind,
                        anchor: s.anchor,
                        locals: Seq::empty(),
                        bindings: Seq::empty(),
                        drops: Seq::empty(),
                    },
                ),
                ids.push(ScopeEntry { kind: s.kind, anchor: s.anchor, id: ScopeId(i as usize) }),
            )
        }
    }
}

/// A plan with the scopes and blocks of an outline and nothing else.
pub open spec fn bare_plan(o: OutlineV, scopes: Seq<ScopeV>, scope_ids: Seq<ScopeEntry>) -> PlanV {
    PlanV {
        owner: o.owner,
        blocks: o.blocks,
        branches: Seq::empty(),
        branch_ids: Seq::empty(),
        loops: Seq::empty(),
        loop_ids: Seq::empty(),
        exposures: Seq::empty(),
        exposure_ids: Seq::empty(),
        scopes,
        scope_ids,
        candidates: Seq::empty(),
        candidate_ids: Seq::empty(),
        compiler_temps: Seq::empty(),
        assignments: Seq::empty(),
        assignment_ids: Seq::empty(),
        field_assignments: Seq::empty(),
        field_assignment_ids: Seq::empty(),
        temporary_drops: Seq::empty(),
        temporary_drop_ids: Seq::empty(),
        return_sites: Seq::empty(),
        trap_sites: Seq::empty(),
        frame_scope: o.frame_scope,
        body_scope: o.body_scope,
        body_block: o.body_block,
    }
}

/// The parameters from `i` on, declared in the frame.
pub open spec fn declare_params(b: BuilderV, frame: ScopeId, params: Seq<Param>, i: nat) -> BuiltV
    decreases params.len() - i,
{
    if i >= params.len() {
        (Ok(()), b)
    } else {
        let p = params[i as int];
        match b.declare(frame, p.name@, p.ty, p.span) {
            (Err(e), b) => (Err(e), b),
            (Ok(_), b) => declare_params(b, frame, params, i + 1),
        }
    }
}

/// What is left once the bindings are planned: edges, traps, and a full reconciliation.
pub open spec fn seal_rest(p: PlanV, o: OutlineV, params: Seq<Param>, body: Seq<Stmt>) -> Result<
    PlanV,
    ErrV,
> {
    match seal_block(p, o, body, o.body_block) {
        (Err(e), _) => Err(e),
        (Ok(_), p) => match seal_traps(p, body) {
            (Err(e), _) => Err(e),
            (Ok(_), p) => match p.check_shape(Some(params), body) {
                Err(e) => Err(e),
                Ok(_) => Ok(p),
            },
        },
    }
}

/// The plan that an outline and its checked body are sealed into.
pub open spec fn sealed(o: OutlineV, params: Seq<Param>, body: Seq<Stmt>) -> Result<PlanV, ErrV> {
    if outline_of(o.owner, o.declaration_span, body) != o {
        Err(
            plan_err(
                o.declaration_span,
                "checked body for "@ + o.owner.text()
                    + " no longer matches its pre-check control outline"@,
            ),
        )
    } else {
        match enter_scopes(o, 0, Seq::empty(), Seq::empty()) {
            Err(e) => Err(e),
            Ok((scopes, ids)) => {
                let b = BuilderV { plan: bare_plan(o, scopes, ids), bindings: Seq::empty() };
                match declare_params(b, o.frame_scope, params, 0) {
                    (Err(e), _) => Err(e),
                    (Ok(_), b) => match walk_from(b, body, 0, o.body_scope, false) {
                        (Err(e), _) => Err(e),
                        (Ok(_), b) => seal_rest(b.plan, o, params, body),
                    },
                }
            },
        }
    }
}

/// The plan of a callable.
pub open spec fn plan_of(
    owner: OwnerV,
    owner_span: Span,
    params: Seq<Param>,
    body: Seq<Stmt>,
) -> Result<PlanV, ErrV> {
    sealed(outline_of(owner, owner_span, body), params, body)
}

fn enter_outline_scopes(outline: &ControlOutline) -> (r: Result<
    (Vec<Scope>, Vec<ScopeEntry>),
    PlanError,
>)
    requires
        outline@.wf(),
    ensures
        match enter_scopes(outline@, 0, Seq::empty(), Seq::empty()) {
            Ok((scopes, ids)) => r matches Ok((a, b)) && views(a@) == scopes && views(b@) == ids
                && a@.len() == outline@.scopes.len() && (forall|i: int|
                0 <= i < a@.len() ==> (#[trigger] a@[i]).parent == outline@.scopes[i].parent) && (
            forall|i: int| 0 <= i < b@.len() ==> (#[trigger] b@[i]).id.0 < outline@.scopes.len()),
            Err(e) => r matches Err(x) && x@ == e,
        },
{
    let mut scopes: Vec<Scope> = Vec::new();
    let mut ids: Vec<ScopeEntry> = Vec::new();
    let n: usize = outline.scopes.len();
    let mut i: usize = 0;
    while i < n
        invariant
            n == outline.scopes@.len(),
            i <= n,
            scopes@.len() == i,
            forall|k: int|
                0 <= k < scopes@.len() ==> (#[trigger] scopes@[k]).parent
                    == outline@.scopes[k].parent,
            forall|k: int| 0 <= k < ids@.len() ==> (#[trigger] ids@[k]).id.0 < i,
            enter_scopes(outline@, 0, Seq::empty(), Seq::empty()) == enter_scopes(
                outline@,
                i as nat,
                views(scopes@),
                views(ids@),
            ),
        decreases n - i,
    {
        let source = outline.scopes[i];
        assert(source == outline@.scopes[i as int]);
        if find_scope(&ids, source.kind, source.anchor).is_some() {
            return Err(
                PlanError {
                    span: source.anchor,
                    message: cat3(
                        "duplicate ",
                        scope_kind_tag(source.kind),
                        " scope anchor in one callable",
                    ),
                },
            );
        }
        scopes.push(
            Scope {
                parent: source.parent,
                kind: source.kind,
                anchor: source.anchor,
                locals: Vec::new(),
                bindings: Vec::new(),
                drops: Vec::new(),
            },
        );
        ids.push(ScopeEntry { kind: source.kind, anchor: source.anchor, id: ScopeId(i) });
        i = i + 1;
    }
    Ok((scopes, ids))
}

impl BodyPlan {
    /// The plan of a callable, from its body alone.
    pub fn build(owner: CallOwner, owner_span: Span, params: &[Param], body: &[Stmt]) -> (r: Result<
        Self,
        PlanError,
    >)
        ensures
            agrees(r, plan_of(owner@, owner_span, params@, body@)),
            r matches Ok(p) ==> p@.wf(),
    {
        let outline = ControlOutline::build(owner, owner_span, body);
        Self::seal(&outline, params, body)
    }

    /// Seals a retained outline and its checked body.
    pub fn seal(outline: &ControlOutline, params: &[Param], body: &[Stmt]) -> (r: Result<
        Self,
        PlanError,
    >)
        ensures
            agrees(r, sealed(outline@, params@, body@)),
            r matches Ok(p) ==> p@.wf(),
    {
        if !outline.structurally_matches(body) {
            return Err(
                PlanError {
                    span: outline.declaration_span,
                    message: cat3(
                        "checked body for ",
                        outline.owner.render().as_str(),
                        " no longer matches its pre-check control outline",
                    ),
                },
            );
        }
        proof {
            assert(outline.scopes.len() == outline@.scopes.len());
            assert(outline.blocks.len() == outline@.blocks.len());
            assert(outline.branches.len() == outline@.branches.len());
            assert(outline.loops.len() == outline@.loops.len());
            assert(outline.exposures.len() == outline@.exposures.len());
            law_outline_is_well_formed(outline@.owner, outline@.declaration_span, body@);
        }
        let (scopes, scope_ids) = match enter_outline_scopes(outline) {
            Err(e) => {
                return Err(e);
            },
            Ok(entered) => entered,
        };
        let mut builder = PlanBuilder {
            plan: BodyPlan {
                owner: outline.owner.copy(),
                blocks: copy_vec(&outline.blocks),
                branches: Vec::new(),
                branch_ids: Vec::new(),
                loops: Vec::new(),
                loop_ids: Vec::new(),
                exposures: Vec::new(),
                exposure_ids: Vec::new(),
                scopes,
                scope_ids,
                candidates: Vec::new(),
                candidate_ids: Vec::new(),
                compiler_temps: Vec::new(),
                assignments: Vec::new(),
                assignment_ids: Vec::new(),
                field_assignments: Vec::new(),
                field_assignment_ids: Vec::new(),
                temporary_drops: Vec::new(),
                temporary_drop_ids: Vec::new(),
                return_sites: Vec::new(),
                trap_sites: Vec::new(),
                frame_scope: outline.frame_scope,
                body_scope: outline.body_scope,
                body_block: outline.body_block,
            },
            bindings: Vec::new(),
        };
        let ghost start = builder@;
        assert(start == (BuilderV {
            plan: bare_plan(outline@, views(scopes@), views(scope_ids@)),
            bindings: Seq::empty(),
        }));
        assert(builder.plan@.wf());
        let n: usize = params.len();
        let mut i: usize = 0;
        while i < n
            invariant
                n == params@.len(),
                i <= n,
                builder.wf(),
                builder.plan@.scopes.len() == outline@.scopes.len(),
                outline@.frame_scope.0 < outline@.scopes.len(),
                builder.plan@.blocks == outline@.blocks,
                enter_scopes(outline@, 0, Seq::empty(), Seq::empty()) == Ok::<
                    (Seq<ScopeV>, Seq<ScopeEntry>),
                    ErrV,
                >((views(scopes@), views(scope_ids@))),
                outline_of(outline@.owner, outline@.declaration_span, body@) == outline@,
                start == (BuilderV {
                    plan: bare_plan(outline@, views(scopes@), views(scope_ids@)),
                    bindings: Seq::empty(),
                }),
                declare_params(start, outline@.frame_scope, params@, 0) == declare_params(
                    builder@,
                    outline@.frame_scope,
                    params@,
                    i as nat,
                ),
            decreases n - i,
        {
            let p = &params[i];
            match builder.declare(outline.frame_scope, &p.name, p.ty.clone(), p.span) {
                Err(e) => {
                    return Err(e);
                },
                Ok(_) => {},
            }
            i = i + 1;
        }
        let ghost declared = builder@;
        match builder.walk_block(body, outline.body_scope, false) {
            Err(e) => {
                return Err(e);
            },
            Ok(_) => {},
        }
        proof {
            lemma_walk_keeps(declared, body@, 0, outline@.body_scope, false);
        }
        let mut plan = builder.plan;
        match plan.seal_structural_edges(outline, body, outline.body_block) {
            Err(e) => {
                return Err(e);
            },
            Ok(_) => {},
        }
        match plan.seal_trap_sites(body) {
            Err(e) => {
                return Err(e);
            },
            Ok(_) => {},
        }
        match plan.validate_callable(params, body) {
            Err(e) => {
                return Err(e);
            },
            Ok(_) => {},
        }
        Ok(plan)
    }
}

} // verus!
