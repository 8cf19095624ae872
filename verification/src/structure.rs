//! Reconciling a statement tree with the blocks and edges of a retained plan.
use vstd::prelude::*;

use crate::ast::{IntTy, Mutability, ResKind, Stmt, Ty};
use crate::drops::{agrees, plan_err, ErrV, ExitKind, PlanError};
use crate::flow::{
    branch_flow, fallthrough_flow, loop_flow, return_flow, seq_flow, FlowSummary,
};
use crate::inventory::has_scope;
use crate::lookup::{find_scope, find_site, scope_at, site_index};
use crate::outline::{
    linear_kind, linear_statement_kind, BlockId, BlockKind, BranchArm, BranchId, ExposureId, LoopId,
    ScopeId, ScopeKind, StatementPlanKind,
};
use crate::place::{local_place, EffectSiteKey, EffectV, Place, PlaceV};
use crate::plan::{
    scope_kind_tag, scope_kind_text, ArmV, BindingV, BodyPlan, BranchArmPlan, CompilerTempKind,
    ExposureNormalPlan, NormalV, PlanV, RebuildV, SiteKey, SourceBinding,
};
use crate::repr::{group_views, opt_view, same_opt, views, Repr};
use crate::span::Span;
use crate::text::cat3;

verus! {

broadcast use group_views;

impl View for BlockId {
    type V = BlockId;

    open spec fn view(&self) -> BlockId {
        *self
    }
}

impl View for BranchId {
    type V = BranchId;

    open spec fn view(&self) -> BranchId {
        *self
    }
}

impl View for LoopId {
    type V = LoopId;

    open spec fn view(&self) -> LoopId {
        *self
    }
}

impl View for ExposureId {
    type V = ExposureId;

    open spec fn view(&self) -> ExposureId {
        *self
    }
}

/// Identities of a plan that a statement tree has reached so far.
#[derive(Debug)]
pub struct StructuralInventory {
    pub blocks: Vec<BlockId>,
    pub branches: Vec<BranchId>,
    pub loops: Vec<LoopId>,
    pub exposures: Vec<ExposureId>,
    pub scopes: Vec<ScopeId>,
}

pub ghost struct VisitedV {
    pub blocks: Seq<BlockId>,
    pub branches: Seq<BranchId>,
    pub loops: Seq<LoopId>,
    pub exposures: Seq<ExposureId>,
    pub scopes: Seq<ScopeId>,
}

impl View for StructuralInventory {
    type V = VisitedV;

    open spec fn view(&self) -> VisitedV {
        VisitedV {
            blocks: views(self.blocks@),
            branches: views(self.branches@),
            loops: views(self.loops@),
            exposures: views(self.exposures@),
            scopes: views(self.scopes@),
        }
    }
}

pub open spec fn nothing_visited() -> VisitedV {
    VisitedV {
        blocks: Seq::empty(),
        branches: Seq::empty(),
        loops: Seq::empty(),
        exposures: Seq::empty(),
        scopes: Seq::empty(),
    }
}

fn has_block(ids: &Vec<BlockId>, id: BlockId) -> (r: bool)
    ensures
        r == views(ids@).contains(id),
{
    let n: usize = ids.len();
    let mut i: usize = 0;
    while i < n
        invariant
            n == ids@.len(),
            i <= n,
            forall|k: int| 0 <= k < i ==> ids@[k] != id,
        decreases n - i,
    {
        if ids[i] == id {
            assert(views(ids@)[i as int] == id);
            return true;
        }
        i = i + 1;
    }
    false
}

fn has_branch(ids: &Vec<BranchId>, id: BranchId) -> (r: bool)
    ensures
        r == views(ids@).contains(id),
{
    let n: usize = ids.len();
    let mut i: usize = 0;
    while i < n
        invariant
            n == ids@.len(),
            i <= n,
            forall|k: int| 0 <= k < i ==> ids@[k] != id,
        decreases n - i,
    {
        if ids[i] == id {
            assert(views(ids@)[i as int] == id);
            return true;
        }
        i = i + 1;
    }
    false
}

fn has_loop(ids: &Vec<LoopId>, id: LoopId) -> (r: bool)
    ensures
        r == views(ids@).contains(id),
{
    let n: usize = ids.len();
    let mut i: usize = 0;
    while i < n
        invariant
            n == ids@.len(),
            i <= n,
            forall|k: int| 0 <= k < i ==> ids@[k] != id,
        decreases n - i,
    {
        if ids[i] == id {
            assert(views(ids@)[i as int] == id);
            return true;
        }
        i = i + 1;
    }
    false
}

fn has_exposure(ids: &Vec<ExposureId>, id: ExposureId) -> (r: bool)
    ensures
        r == views(ids@).contains(id),
{
    let n: usize = ids.len();
    let mut i: usize = 0;
    while i < n
        invariant
            n == ids@.len(),
            i <= n,
            forall|k: int| 0 <= k < i ==> ids@[k] != id,
        decreases n - i,
    {
        if ids[i] == id {
            assert(views(ids@)[i as int] == id);
            return true;
        }
        i = i + 1;
    }
    false
}

// ------------------------------------------------------------------------------------------
// The tables themselves
// ------------------------------------------------------------------------------------------

impl PlanV {
    /// The refusal of the first block from `i` on that is not at its own position.
    pub open spec fn block_positions(self, i: nat) -> Result<(), ErrV>
        decreases self.blocks.len() - i,
    {
        if i >= self.blocks.len() {
            Ok(())
        } else if self.blocks[i as int].id != BlockId(i as usize) {
            Err(
                plan_err(
                    self.blocks[i as int].anchor,
                    "retained block identity no longer matches its table position"@,
                ),
            )
        } else {
            self.block_positions(i + 1)
        }
    }

    pub open spec fn branch_positions(self, i: nat) -> Result<(), ErrV>
        decreases self.branches.len() - i,
    {
        if i >= self.branches.len() {
            Ok(())
        } else {
            let b = self.branches[i as int];
            if b.id != BranchId(i as usize) || site_index(
                self.branch_ids,
                SiteKey { scope: b.parent_scope, span: b.anchor },
            ) != Some(i as usize) {
                Err(
                    plan_err(
                        b.anchor,
                        "retained branch identity no longer matches its exact index"@,
                    ),
                )
            } else {
                self.branch_positions(i + 1)
            }
        }
    }

    pub open spec fn loop_positions(self, i: nat) -> Result<(), ErrV>
        decreases self.loops.len() - i,
    {
        if i >= self.loops.len() {
            Ok(())
        } else {
            let l = self.loops[i as int];
            if l.id != LoopId(i as usize) || site_index(
                self.loop_ids,
                SiteKey { scope: l.parent_scope, span: l.keyword_span },
            ) != Some(i as usize) {
                Err(
                    plan_err(
                        l.keyword_span,
                        "retained loop identity no longer matches its exact index"@,
                    ),
                )
            } else {
                self.loop_positions(i + 1)
            }
        }
    }

    pub open spec fn exposure_positions(self, i: nat) -> Result<(), ErrV>
        decreases self.exposures.len() - i,
    {
        if i >= self.exposures.len() {
            Ok(())
        } else {
            let x = self.exposures[i as int];
            if x.id != ExposureId(i as usize) || site_index(
                self.exposure_ids,
                SiteKey { scope: x.parent_scope, span: x.keyword_span },
            ) != Some(i as usize) {
                Err(
                    plan_err(
                        x.keyword_span,
                        "retained exposure identity no longer matches its exact index"@,
                    ),
                )
            } else {
                self.exposure_positions(i + 1)
            }
        }
    }

    pub open spec fn scope_positions(self, i: nat) -> Result<(), ErrV>
        decreases self.scopes.len() - i,
    {
        if i >= self.scopes.len() {
            Ok(())
        } else {
            let s = self.scopes[i as int];
            if scope_at(self.scope_ids, s.kind, s.anchor) != Some(ScopeId(i as usize)) {
                Err(
                    plan_err(
                        s.anchor,
                        "retained "@ + scope_kind_text(s.kind)
                            + " scope no longer matches its exact index"@,
                    ),
                )
            } else {
                self.scope_positions(i + 1)
            }
        }
    }

    /// The refusal where an index table and the facts it points to have drifted apart.
    pub open spec fn check_tables(self) -> Result<(), ErrV> {
        if self.branch_ids.len() != self.branches.len() || self.loop_ids.len() != self.loops.len()
            || self.exposure_ids.len() != self.exposures.len() || self.scope_ids.len()
            != self.scopes.len() {
            Err(
                plan_err(
                    self.scopes[self.body_scope.0 as int].anchor,
                    "retained structural index cardinality no longer matches its plan table"@,
                ),
            )
        } else {
            match self.block_positions(0) {
                Err(e) => Err(e),
                Ok(_) => match self.branch_positions(0) {
                    Err(e) => Err(e),
                    Ok(_) => match self.loop_positions(0) {
                        Err(e) => Err(e),
                        Ok(_) => match self.exposure_positions(0) {
                            Err(e) => Err(e),
                            Ok(_) => self.scope_positions(0),
                        },
                    },
                },
            }
        }
    }
}

impl BodyPlan {
    pub fn validate_structural_tables(&self) -> (r: Result<(), PlanError>)
        requires
            self@.wf(),
        ensures
            agrees(r, self@.check_tables()),
    {
        if self.branch_ids.len() != self.branches.len() || self.loop_ids.len() != self.loops.len()
            || self.exposure_ids.len() != self.exposures.len() || self.scope_ids.len()
            != self.scopes.len() {
            return Err(
                PlanError::new(
                    self.scopes[self.body_scope.0].anchor,
                    "retained structural index cardinality no longer matches its plan table",
                ),
            );
        }
        let mut i: usize = 0;
        while i < self.blocks.len()
            invariant
                i <= self.blocks@.len(),
                self@.block_positions(0) == self@.block_positions(i as nat),
                self@.branch_ids.len() == self@.branches.len(),
                self@.loop_ids.len() == self@.loops.len(),
                self@.exposure_ids.len() == self@.exposures.len(),
                self@.scope_ids.len() == self@.scopes.len(),
            decreases self.blocks@.len() - i,
        {
            if self.blocks[i].id.0 != i {
                return Err(
                    PlanError::new(
                        self.blocks[i].anchor,
                        "retained block identity no longer matches its table position",
                    ),
                );
            }
            i = i + 1;
        }
        let mut i: usize = 0;
        while i < self.branches.len()
            invariant
                i <= self.branches@.len(),
                self@.block_positions(0) is Ok,
                self@.branch_positions(0) == self@.branch_positions(i as nat),
                self@.branch_ids.len() == self@.branches.len(),
                self@.loop_ids.len() == self@.loops.len(),
                self@.exposure_ids.len() == self@.exposures.len(),
                self@.scope_ids.len() == self@.scopes.len(),
            decreases self.branches@.len() - i,
        {
            let branch = &self.branches[i];
            let found = find_site(
                &self.branch_ids,
                SiteKey { scope: branch.parent_scope, span: branch.anchor },
            );
            let exact = match found {
                Some(n) => n == i,
                None => false,
            };
            if branch.id.0 != i || !exact {
                return Err(
                    PlanError::new(
                        branch.anchor,
                        "retained branch identity no longer matches its exact index",
                    ),
                );
            }
            i = i + 1;
        }
        let mut i: usize = 0;
        while i < self.loops.len()
            invariant
                i <= self.loops@.len(),
                self@.block_positions(0) is Ok,
                self@.branch_positions(0) is Ok,
                self@.loop_positions(0) == self@.loop_positions(i as nat),
                self@.branch_ids.len() == self@.branches.len(),
                self@.loop_ids.len() == self@.loops.len(),
                self@.exposure_ids.len() == self@.exposures.len(),
                self@.scope_ids.len() == self@.scopes.len(),
            decreases self.loops@.len() - i,
        {
            let l = &self.loops[i];
            let found = find_site(
                &self.loop_ids,
                SiteKey { scope: l.parent_scope, span: l.keyword_span },
            );
            let exact = match found {
                Some(n) => n == i,
                None => false,
            };
            if l.id.0 != i || !exact {
                return Err(
                    PlanError::new(
                        l.keyword_span,
                        "retained loop identity no longer matches its exact index",
                    ),
                );
            }
            i = i + 1;
        }
        let mut i: usize = 0;
        while i < self.exposures.len()
            invariant
                i <= self.exposures@.len(),
                self@.block_positions(0) is Ok,
                self@.branch_positions(0) is Ok,
                self@.loop_positions(0) is Ok,
                self@.exposure_positions(0) == self@.exposure_positions(i as nat),
                self@.branch_ids.len() == self@.branches.len(),
                self@.loop_ids.len() == self@.loops.len(),
                self@.exposure_ids.len() == self@.exposures.len(),
                self@.scope_ids.len() == self@.scopes.len(),
            decreases self.exposures@.len() - i,
        {
            let x = &self.exposures[i];
            let found = find_site(
                &self.exposure_ids,
                SiteKey { scope: x.parent_scope, span: x.keyword_span },
            );
            let exact = match found {
                Some(n) => n == i,
                None => false,
            };
            if x.id.0 != i || !exact {
                return Err(
                    PlanError::new(
                        x.keyword_span,
                        "retained exposure identity no longer matches its exact index",
                    ),
                );
            }
            i = i + 1;
        }
        let mut i: usize = 0;
        while i < self.scopes.len()
            invariant
                i <= self.scopes@.len(),
                self@.block_positions(0) is Ok,
                self@.branch_positions(0) is Ok,
                self@.loop_positions(0) is Ok,
                self@.exposure_positions(0) is Ok,
                self@.scope_positions(0) == self@.scope_positions(i as nat),
                self@.branch_ids.len() == self@.branches.len(),
                self@.loop_ids.len() == self@.loops.len(),
                self@.exposure_ids.len() == self@.exposures.len(),
                self@.scope_ids.len() == self@.scopes.len(),
            decreases self.scopes@.len() - i,
        {
            let s = &self.scopes[i];
            let exact = match find_scope(&self.scope_ids, s.kind, s.anchor) {
                Some(id) => id.0 == i,
                None => false,
            };
            if !exact {
                return Err(
                    PlanError {
                        span: s.anchor,
                        message: cat3(
                            "retained ",
                            scope_kind_tag(s.kind),
                            " scope no longer matches its exact index",
                        ),
                    },
                );
            }
            i = i + 1;
        }
        Ok(())
    }
}

// ------------------------------------------------------------------------------------------
// The statement tree against the tables
// ------------------------------------------------------------------------------------------

/// What a visit says, and what was reached after it: on a refusal, everything up to the refused
/// site, and the site itself where its identity was new.
pub type VisitV = (Result<FlowSummary, ErrV>, VisitedV);

pub open spec fn visit_scope(
    p: PlanV,
    v: VisitedV,
    id: ScopeId,
    kind: ScopeKind,
    anchor: Span,
    parent: Option<ScopeId>,
) -> (Result<(), ErrV>, VisitedV) {
    if id.0 >= p.scopes.len() {
        (Err(
            plan_err(
                anchor,
                "retained "@ + scope_kind_text(kind) + " scope identity is out of range"@,
            ),
        ), v)
    } else if v.scopes.contains(id) {
        (Err(
            plan_err(
                anchor,
                "two retained "@ + scope_kind_text(kind)
                    + " blocks reuse one checked structural identity"@,
            ),
        ), v)
    } else {
        let s = p.scopes[id.0 as int];
        let v = VisitedV { scopes: v.scopes.push(id), ..v };
        if s.kind != kind || s.anchor != anchor || s.parent != parent {
            (Err(
                plan_err(
                    anchor,
                    "checked "@ + scope_kind_text(kind)
                        + " scope no longer matches its retained parent or anchor"@,
                ),
            ), v)
        } else {
            (Ok(()), v)
        }
    }
}

/// What a block header must be: in range, not yet reached, and where the tree has it.
pub open spec fn visit_header(
    p: PlanV,
    v: VisitedV,
    count: nat,
    id: BlockId,
    parent: Option<BlockId>,
    kind: BlockKind,
    anchor: Span,
    scope: ScopeId,
) -> (Result<(), ErrV>, VisitedV) {
    if id.0 >= p.blocks.len() {
        (Err(plan_err(anchor, "retained structural block identity is out of range"@)), v)
    } else if v.blocks.contains(id) {
        (Err(plan_err(anchor, "two source blocks reuse one retained BlockId"@)), v)
    } else {
        let b = p.blocks[id.0 as int];
        let v = VisitedV { blocks: v.blocks.push(id), ..v };
        if b.id != id || b.parent != parent || b.kind != kind || b.anchor != anchor || b.scope
            != scope {
            (Err(
                plan_err(
                    anchor,
                    "checked block no longer matches its retained identity, parent, scope, kind, or anchor"@,
                ),
            ), v)
        } else if b.statements.len() != count {
            (Err(
                plan_err(
                    anchor,
                    "checked block statement count changed within its active lexical scope; a subtree may have moved under a different lexical parent, source structure may reuse one checked structural identity, no assignment at this span may exist, or a planned assignment / planned trap site may remain"@,
                ),
            ), v)
        } else {
            (Ok(()), v)
        }
    }
}

pub open spec fn visit_block(
    p: PlanV,
    v: VisitedV,
    s: Seq<Stmt>,
    id: BlockId,
    parent: Option<BlockId>,
    kind: BlockKind,
    anchor: Span,
    scope: ScopeId,
) -> VisitV
    decreases s, s.len() + 1,
{
    match visit_header(p, v, s.len(), id, parent, kind, anchor, scope) {
        (Err(e), v) => (Err(e), v),
        (Ok(_), v) => match visit_from(p, v, s, 0, fallthrough_flow(), id, anchor, scope) {
            (Err(e), v) => (Err(e), v),
            (Ok(flow), v) => if p.blocks[id.0 as int].flow != flow {
                (Err(
                    plan_err(
                        anchor,
                        "retained block flow no longer matches its ordered statements"@,
                    ),
                ), v)
            } else {
                (Ok(flow), v)
            },
        },
    }
}

pub open spec fn visit_from(
    p: PlanV,
    v: VisitedV,
    s: Seq<Stmt>,
    i: nat,
    flow: FlowSummary,
    id: BlockId,
    anchor: Span,
    scope: ScopeId,
) -> VisitV
    decreases s, s.len() - i,
{
    if i >= s.len() {
        (Ok(flow), v)
    } else {
        let planned = p.blocks[id.0 as int].statements[i as int];
        match visit_stmt(p, v, s[i as int], planned.kind, id, scope) {
            (Err(e), v) => (Err(e), v),
            (Ok(statement_flow), v) => if planned.entry_reachable != flow.reaches_next
                || planned.flow != statement_flow {
                (Err(
                    plan_err(
                        anchor,
                        "retained statement reachability or flow no longer matches its structural edge"@,
                    ),
                ), v)
            } else {
                visit_from(p, v, s, i + 1, seq_flow(flow, statement_flow), id, anchor, scope)
            },
        }
    }
}

pub open spec fn visit_stmt(
    p: PlanV,
    v: VisitedV,
    s: Stmt,
    kind: StatementPlanKind,
    block: BlockId,
    scope: ScopeId,
) -> VisitV
    decreases s, 3nat,
{
    match (kind, s) {
        (StatementPlanKind::Return, Stmt::Return { .. }) => (Ok(return_flow()), v),
        (StatementPlanKind::Branch(id), Stmt::If { .. }) => visit_branch(p, v, s, id, block, scope),
        (StatementPlanKind::Loop(id), Stmt::While { .. }) => visit_loop(p, v, s, id, block, scope),
        (StatementPlanKind::Exposure(id), Stmt::Expose { .. }) => visit_exposure(
            p,
            v,
            s,
            id,
            block,
            scope,
        ),
        (StatementPlanKind::Unsafe(child), Stmt::Unsafe { kw_span, body }) => visit_block(
            p,
            v,
            body@,
            child,
            Some(block),
            BlockKind::Unsafe,
            kw_span,
            scope,
        ),
        (StatementPlanKind::Linear(expected), _) => if linear_kind(s) == Some(expected) {
            (Ok(fallthrough_flow()), v)
        } else {
            (Err(changed_role(p, block)), v)
        },
        _ => (Err(changed_role(p, block)), v),
    }
}

pub open spec fn changed_role(p: PlanV, block: BlockId) -> ErrV {
    plan_err(
        if block.0 < p.blocks.len() {
            p.blocks[block.0 as int].anchor
        } else {
            Span { start: 0, end: 0 }
        },
        "checked statement no longer matches its retained control role"@,
    )
}

pub open spec fn visit_branch(
    p: PlanV,
    v: VisitedV,
    s: Stmt,
    id: BranchId,
    block: BlockId,
    scope: ScopeId,
) -> VisitV
    decreases s, 2nat,
{
    match s {
        Stmt::If { cond, then_block, else_block } => {
            let anchor = cond.span;
            if id.0 >= p.branches.len() {
                (Err(plan_err(anchor, "retained branch identity is out of range"@)), v)
            } else if v.branches.contains(id) {
                (Err(plan_err(anchor, "two source branches reuse one retained BranchId"@)), v)
            } else {
                let v = VisitedV { branches: v.branches.push(id), ..v };
                let branch = p.branches[id.0 as int];
                if branch.else_arm is None && else_block is Some {
                    (Err(plan_err(anchor, "checked body gained an unplanned else scope"@)), v)
                } else if branch.else_arm is Some && else_block is None {
                    (Err(
                        plan_err(
                            anchor,
                            "checked body no longer contains its planned else scope"@,
                        ),
                    ), v)
                } else if branch.id != id || branch.parent_scope != scope || branch.anchor
                    != anchor {
                    (Err(
                        plan_err(
                            anchor,
                            "checked branch no longer matches its retained parent or anchor"@,
                        ),
                    ), v)
                } else {
                    match visit_arm(
                        p,
                        v,
                        then_block@,
                        branch.then_arm,
                        BranchArm::Then,
                        block,
                        scope,
                        anchor,
                    ) {
                        (Err(e), v) => (Err(e), v),
                        (Ok(then_flow), v) => {
                            let rest = match (branch.else_arm, else_block) {
                                (Some(arm), Some(body)) => visit_arm(
                                    p,
                                    v,
                                    body@,
                                    arm,
                                    BranchArm::Else,
                                    block,
                                    scope,
                                    anchor,
                                ),
                                _ => (Ok(fallthrough_flow()), v),
                            };
                            match rest {
                                (Err(e), v) => (Err(e), v),
                                (Ok(else_flow), v) => {
                                    let flow = branch_flow(then_flow, else_flow);
                                    if branch.flow != flow {
                                        (Err(
                                            plan_err(
                                                anchor,
                                                "retained branch flow no longer matches its exact arm flows"@,
                                            ),
                                        ), v)
                                    } else {
                                        (Ok(flow), v)
                                    }
                                },
                            }
                        },
                    }
                }
            }
        },
        _ => (Err(changed_role(p, block)), v),
    }
}

pub open spec fn arm_refusal(which: BranchArm) -> Seq<char> {
    match which {
        BranchArm::Then => "retained Then arm flow or normal exit no longer matches its child block"@,
        BranchArm::Else => "retained Else arm flow or normal exit no longer matches its child block"@,
    }
}

pub open spec fn visit_arm(
    p: PlanV,
    v: VisitedV,
    s: Seq<Stmt>,
    arm: ArmV,
    which: BranchArm,
    block: BlockId,
    scope: ScopeId,
    anchor: Span,
) -> VisitV
    decreases s, s.len() + 2,
{
    match visit_scope(p, v, arm.scope, ScopeKind::BranchArm(which), anchor, Some(scope)) {
        (Err(e), v) => (Err(e), v),
        (Ok(_), v) => match visit_block(
            p,
            v,
            s,
            arm.block,
            Some(block),
            BlockKind::BranchArm(which),
            anchor,
            arm.scope,
        ) {
            (Err(e), v) => (Err(e), v),
            (Ok(flow), v) => {
                let expected = if flow.reaches_next {
                    Some(p.route(ExitKind::Fallthrough, seq![arm.scope]))
                } else {
                    None
                };
                if arm.flow != flow || arm.normal_exit != expected {
                    (Err(plan_err(anchor, arm_refusal(which))), v)
                } else {
                    (Ok(flow), v)
                }
            },
        },
    }
}

pub open spec fn visit_loop(
    p: PlanV,
    v: VisitedV,
    s: Stmt,
    id: LoopId,
    block: BlockId,
    scope: ScopeId,
) -> VisitV
    decreases s, 2nat,
{
    match s {
        Stmt::While { cond, kw_span, body, .. } => if id.0 >= p.loops.len() {
            (Err(plan_err(kw_span, "retained loop identity is out of range"@)), v)
        } else if v.loops.contains(id) {
            (Err(plan_err(kw_span, "two source loops reuse one retained LoopId"@)), v)
        } else {
            let v = VisitedV { loops: v.loops.push(id), ..v };
            let l = p.loops[id.0 as int];
            if l.id != id || l.parent_scope != scope || l.keyword_span != kw_span
                || l.condition_span != cond.span || l.effect_key != (EffectV {
                owner: p.owner,
                span: kw_span,
            }) {
                (Err(
                    plan_err(
                        kw_span,
                        "checked loop no longer matches its retained parent, header, condition, or effect identity"@,
                    ),
                ), v)
            } else {
                match visit_scope(p, v, l.body_scope, ScopeKind::LoopBody, kw_span, Some(scope)) {
                    (Err(e), v) => (Err(e), v),
                    (Ok(_), v) => match visit_block(
                        p,
                        v,
                        body@,
                        l.body,
                        Some(block),
                        BlockKind::LoopBody,
                        kw_span,
                        l.body_scope,
                    ) {
                        (Err(e), v) => (Err(e), v),
                        (Ok(body_flow), v) => {
                            let expected = if body_flow.reaches_next {
                                Some(p.route(ExitKind::Backedge, seq![l.body_scope]))
                            } else {
                                None
                            };
                            let flow = loop_flow(body_flow);
                            if l.body_flow != body_flow || l.backedge != expected || l.flow
                                != flow {
                                (Err(
                                    plan_err(
                                        kw_span,
                                        "retained loop body flow, backedge, or continuation flow no longer matches"@,
                                    ),
                                ), v)
                            } else {
                                (Ok(flow), v)
                            }
                        },
                    },
                }
            }
        },
        _ => (Err(changed_role(p, block)), v),
    }
}

impl PlanV {
    /// The binding at a fixed position of an exposure's scope.
    pub open spec fn check_exposure_binding(
        self,
        scope: ScopeId,
        index: int,
        name: Seq<char>,
        ty: Ty,
        span: Span,
    ) -> Result<(), ErrV> {
        if scope.0 >= self.scopes.len() || index >= self.scopes[scope.0 as int].bindings.len() {
            Err(plan_err(span, "retained exposure is missing one of its body bindings"@))
        } else if self.scopes[scope.0 as int].bindings[index] != (BindingV {
            place: local_place(name),
            ty,
            span,
        }) {
            Err(
                plan_err(
                    span,
                    "checked exposure pointer/resource binding no longer matches its retained name, type, or span"@,
                ),
            )
        } else {
            Ok(())
        }
    }

    /// The bindings of a place, in the scopes before `n`.
    pub open spec fn bindings_of(self, place: PlaceV, n: nat) -> Seq<BindingV>
        decreases n,
    {
        if n == 0 || n > self.scopes.len() {
            Seq::empty()
        } else {
            self.bindings_of(place, (n - 1) as nat) + matching(
                self.scopes[n - 1].bindings,
                place,
                self.scopes[n - 1].bindings.len(),
            )
        }
    }

    /// The type of the only binding of a place.
    pub open spec fn binding_type(self, place: PlaceV, span: Span) -> Result<Ty, ErrV> {
        let all = self.bindings_of(place, self.scopes.len());
        if all.len() == 0 {
            Err(
                plan_err(
                    span,
                    "checked exposure owner `"@ + place.text()
                        + "` has no retained source binding"@,
                ),
            )
        } else if all.len() > 1 {
            Err(
                plan_err(
                    span,
                    "checked exposure owner `"@ + place.text()
                        + "` has ambiguous retained source bindings"@,
                ),
            )
        } else {
            Ok(all[0].ty)
        }
    }

    /// The normal end that an exposure must have.
    pub open spec fn expected_normal(
        self,
        body_scope: ScopeId,
        parent_scope: ScopeId,
        kw_span: Span,
        array: Seq<char>,
        array_span: Span,
        owner_ty: Ty,
        mutable: bool,
        ptr: Seq<char>,
        res: Seq<char>,
    ) -> Result<NormalV, ErrV> {
        match self.exposure_close(body_scope, kw_span) {
            Err(e) => Err(e),
            Ok(close) => match self.compiler_temp(
                body_scope,
                kw_span,
                CompilerTempKind::ExposureLoan,
            ) {
                Err(e) => Err(e),
                Ok(release_loan) => Ok(
                    NormalV {
                        capture: local_place(res),
                        body_exit: self.route(ExitKind::Fallthrough, seq![body_scope]),
                        rebuild: RebuildV {
                            owner: local_place(array),
                            owner_span: array_span,
                            owner_ty,
                            mutability: if mutable {
                                Mutability::Mut
                            } else {
                                Mutability::Shared
                            },
                            pointer: local_place(ptr),
                            resource: local_place(res),
                            keyword_span: kw_span,
                        },
                        release_loan,
                        close,
                        parent_scope,
                    },
                ),
            },
        }
    }
}

/// The bindings of a place among the first `n` of a scope.
pub open spec fn matching(bindings: Seq<BindingV>, place: PlaceV, n: nat) -> Seq<BindingV>
    decreases n,
{
    if n == 0 || n > bindings.len() {
        Seq::empty()
    } else {
        let before = matching(bindings, place, (n - 1) as nat);
        if bindings[n - 1].place == place {
            before.push(bindings[n - 1])
        } else {
            before
        }
    }
}

pub open spec fn visit_exposure(
    p: PlanV,
    v: VisitedV,
    s: Stmt,
    id: ExposureId,
    block: BlockId,
    scope: ScopeId,
) -> VisitV
    decreases s, 2nat,
{
    match s {
        Stmt::Expose {
            kw_span,
            array,
            array_span,
            mutable,
            ptr,
            ptr_span,
            res,
            res_span,
            body,
        } => if id.0 >= p.exposures.len() {
            (Err(plan_err(kw_span, "retained exposure identity is out of range"@)), v)
        } else if v.exposures.contains(id) {
            (Err(plan_err(kw_span, "two source exposures reuse one retained ExposureId"@)), v)
        } else {
            let v = VisitedV { exposures: v.exposures.push(id), ..v };
            let x = p.exposures[id.0 as int];
            if x.id != id || x.parent_scope != scope || x.keyword_span != kw_span || x.effect_key
                != (EffectV { owner: p.owner, span: kw_span }) {
                (Err(
                    plan_err(
                        kw_span,
                        "checked exposure no longer matches its retained parent, anchor, or effect identity"@,
                    ),
                ), v)
            } else {
                match visit_scope(p, v, x.body_scope, ScopeKind::Exposure, kw_span, Some(scope)) {
                    (Err(e), v) => (Err(e), v),
                    (Ok(_), v) => match p.check_exposure_binding(
                        x.body_scope,
                        0,
                        ptr@,
                        Ty::Raw(IntTy::U8),
                        ptr_span,
                    ) {
                        Err(e) => (Err(e), v),
                        Ok(_) => match p.check_exposure_binding(
                            x.body_scope,
                            1,
                            res@,
                            Ty::Res(ResKind::RawSpan),
                            res_span,
                        ) {
                            Err(e) => (Err(e), v),
                            Ok(_) => match visit_block(
                                p,
                                v,
                                body@,
                                x.body,
                                Some(block),
                                BlockKind::Exposure,
                                kw_span,
                                x.body_scope,
                            ) {
                                (Err(e), v) => (Err(e), v),
                                (Ok(body_flow), v) => match check_exposure_end(
                                    p,
                                    x.body_flow,
                                    x.flow,
                                    x.normal,
                                    x.body_scope,
                                    body_flow,
                                    s,
                                    scope,
                                ) {
                                    Err(e) => (Err(e), v),
                                    Ok(_) => (Ok(body_flow), v),
                                },
                            },
                        },
                    },
                }
            }
        },
        _ => (Err(changed_role(p, block)), v),
    }
}

/// What the end of an exposure must be, given the flow of its body.
pub open spec fn check_exposure_end(
    p: PlanV,
    retained_body_flow: FlowSummary,
    retained_flow: FlowSummary,
    normal: Option<NormalV>,
    body_scope: ScopeId,
    body_flow: FlowSummary,
    s: Stmt,
    scope: ScopeId,
) -> Result<(), ErrV> {
    match s {
        Stmt::Expose { kw_span, array, array_span, mutable, ptr, res, .. } =>
            if retained_body_flow != body_flow || retained_flow != body_flow {
            Err(
                plan_err(
                    kw_span,
                    "retained exposure body or continuation flow no longer matches"@,
                ),
            )
        } else {
            match p.binding_type(local_place(array@), array_span) {
                Err(e) => Err(e),
                Ok(owner_ty) => if normal is Some && body_flow.reaches_next {
                    match p.expected_normal(
                        body_scope,
                        scope,
                        kw_span,
                        array@,
                        array_span,
                        owner_ty,
                        mutable,
                        ptr@,
                        res@,
                    ) {
                        Err(e) => Err(e),
                        Ok(expected) => if normal != Some(expected) {
                            Err(
                                plan_err(
                                    kw_span,
                                    "checked exposure owner, type, mutability, bindings, or ordered normal phases no longer match the retained plan"@,
                                ),
                            )
                        } else {
                            Ok(())
                        },
                    }
                } else if normal is None && !body_flow.reaches_next {
                    Ok(())
                } else {
                    Err(
                        plan_err(
                            kw_span,
                            "retained exposure normal-edge presence no longer matches body flow"@,
                        ),
                    )
                },
            }
        },
        _ => Ok(()),
    }
}

/// A visit did what is stated, and left what is stated.
pub open spec fn visits(r: Result<FlowSummary, PlanError>, after: VisitedV, s: VisitV) -> bool {
    &&& after == s.1
    &&& match s.0 {
        Ok(flow) => r == Ok::<FlowSummary, PlanError>(flow),
        Err(e) => r matches Err(x) && x@ == e,
    }
}

impl BodyPlan {
    pub fn validate_structural_scope(
        &self,
        id: ScopeId,
        kind: ScopeKind,
        anchor: Span,
        parent: Option<ScopeId>,
        visited: &mut StructuralInventory,
    ) -> (r: Result<(), PlanError>)
        ensures
            final(visited)@ == visit_scope(self@, old(visited)@, id, kind, anchor, parent).1,
            match visit_scope(self@, old(visited)@, id, kind, anchor, parent).0 {
                Ok(_) => r is Ok && id.0 < self@.scopes.len(),
                Err(e) => r matches Err(x) && x@ == e,
            },
    {
        if id.0 >= self.scopes.len() {
            return Err(
                PlanError {
                    span: anchor,
                    message: cat3(
                        "retained ",
                        scope_kind_tag(kind),
                        " scope identity is out of range",
                    ),
                },
            );
        }
        if has_scope(&visited.scopes, id) {
            return Err(
                PlanError {
                    span: anchor,
                    message: cat3(
                        "two retained ",
                        scope_kind_tag(kind),
                        " blocks reuse one checked structural identity",
                    ),
                },
            );
        }
        visited.scopes.push(id);
        let scope = &self.scopes[id.0];
        if scope.kind != kind || scope.anchor != anchor || scope.parent != parent {
            return Err(
                PlanError {
                    span: anchor,
                    message: cat3(
                        "checked ",
                        scope_kind_tag(kind),
                        " scope no longer matches its retained parent or anchor",
                    ),
                },
            );
        }
        Ok(())
    }

    pub fn validate_structural_block(
        &self,
        statements: &[Stmt],
        id: BlockId,
        parent: Option<BlockId>,
        kind: BlockKind,
        anchor: Span,
        scope: ScopeId,
        visited: &mut StructuralInventory,
    ) -> (r: Result<FlowSummary, PlanError>)
        ensures
            visits(
                r,
                final(visited)@,
                visit_block(
                    self@,
                    old(visited)@,
                    statements@,
                    id,
                    parent,
                    kind,
                    anchor,
                    scope,
                ),
            ),
        decreases statements@, statements@.len() + 1,
    {
        if id.0 >= self.blocks.len() {
            return Err(
                PlanError::new(anchor, "retained structural block identity is out of range"),
            );
        }
        if has_block(&visited.blocks, id) {
            return Err(PlanError::new(anchor, "two source blocks reuse one retained BlockId"));
        }
        visited.blocks.push(id);
        let block = &self.blocks[id.0];
        if block.id != id || block.parent != parent || block.kind != kind || block.anchor != anchor
            || block.scope != scope {
            return Err(
                PlanError::new(
                    anchor,
                    "checked block no longer matches its retained identity, parent, scope, kind, or anchor",
                ),
            );
        }
        if block.statements.len() != statements.len() {
            return Err(
                PlanError::new(
                    anchor,
                    "checked block statement count changed within its active lexical scope; a subtree may have moved under a different lexical parent, source structure may reuse one checked structural identity, no assignment at this span may exist, or a planned assignment / planned trap site may remain",
                ),
            );
        }
        let ghost entered = visited@;
        assert(visit_header(
            self@,
            old(visited)@,
            statements@.len(),
            id,
            parent,
            kind,
            anchor,
            scope,
        ) == (Ok::<(), ErrV>(()), entered));
        let mut flow = FlowSummary::fallthrough();
        let n: usize = statements.len();
        let mut i: usize = 0;
        while i < n
            invariant
                n == statements@.len(),
                i <= n,
                id.0 < self@.blocks.len(),
                block@ == self@.blocks[id.0 as int],
                block.statements@.len() == n,
                visit_header(
                    self@,
                    old(visited)@,
                    statements@.len(),
                    id,
                    parent,
                    kind,
                    anchor,
                    scope,
                ) == (Ok::<(), ErrV>(()), entered),
                visit_from(
                    self@,
                    entered,
                    statements@,
                    0,
                    fallthrough_flow(),
                    id,
                    anchor,
                    scope,
                ) == visit_from(
                    self@,
                    visited@,
                    statements@,
                    i as nat,
                    flow,
                    id,
                    anchor,
                    scope,
                ),
            decreases n - i,
        {
            let planned = block.statements[i];
            assert(planned == self@.blocks[id.0 as int].statements[i as int]);
            let statement_flow = match self.validate_structural_statement(
                &statements[i],
                planned.kind,
                id,
                scope,
                visited,
            ) {
                Err(e) => {
                    return Err(e);
                },
                Ok(flow) => flow,
            };
            if planned.entry_reachable != flow.reaches_next || planned.flow != statement_flow {
                return Err(
                    PlanError::new(
                        anchor,
                        "retained statement reachability or flow no longer matches its structural edge",
                    ),
                );
            }
            flow = flow.followed_by(statement_flow);
            i = i + 1;
        }
        if block.flow != flow {
            return Err(
                PlanError::new(
                    anchor,
                    "retained block flow no longer matches its ordered statements",
                ),
            );
        }
        Ok(flow)
    }

    fn changed_role(&self, block: BlockId) -> (r: PlanError)
        ensures
            r@ == changed_role(self@, block),
    {
        let span = if block.0 < self.blocks.len() {
            self.blocks[block.0].anchor
        } else {
            Span::new(0, 0)
        };
        PlanError::new(span, "checked statement no longer matches its retained control role")
    }

    fn validate_structural_statement(
        &self,
        statement: &Stmt,
        kind: StatementPlanKind,
        parent_block: BlockId,
        parent_scope: ScopeId,
        visited: &mut StructuralInventory,
    ) -> (r: Result<FlowSummary, PlanError>)
        ensures
            visits(
                r,
                final(visited)@,
                visit_stmt(self@, old(visited)@, *statement, kind, parent_block, parent_scope),
            ),
        decreases statement, 3nat,
    {
        match (kind, statement) {
            (StatementPlanKind::Return, Stmt::Return { .. }) => Ok(FlowSummary::returning()),
            (StatementPlanKind::Branch(id), Stmt::If { .. }) => self.validate_structural_branch(
                id,
                parent_block,
                parent_scope,
                statement,
                visited,
            ),
            (StatementPlanKind::Loop(id), Stmt::While { .. }) => self.validate_structural_loop(
                id,
                parent_block,
                parent_scope,
                statement,
                visited,
            ),
            (StatementPlanKind::Exposure(id), Stmt::Expose { .. }) =>
                self.validate_structural_exposure(
                id,
                parent_block,
                parent_scope,
                statement,
                visited,
            ),
            (StatementPlanKind::Unsafe(child), Stmt::Unsafe { kw_span, body }) =>
                self.validate_structural_block(
                body.as_slice(),
                child,
                Some(parent_block),
                BlockKind::Unsafe,
                *kw_span,
                parent_scope,
                visited,
            ),
            (StatementPlanKind::Linear(expected), source) => {
                let matched = match linear_statement_kind(source) {
                    Some(kind) => kind == expected,
                    None => false,
                };
                if matched {
                    Ok(FlowSummary::fallthrough())
                } else {
                    Err(self.changed_role(parent_block))
                }
            },
            _ => Err(self.changed_role(parent_block)),
        }
    }

    fn validate_structural_branch(
        &self,
        id: BranchId,
        parent_block: BlockId,
        parent_scope: ScopeId,
        statement: &Stmt,
        visited: &mut StructuralInventory,
    ) -> (r: Result<FlowSummary, PlanError>)
        ensures
            visits(
                r,
                final(visited)@,
                visit_branch(self@, old(visited)@, *statement, id, parent_block, parent_scope),
            ),
        decreases statement, 2nat,
    {
        let (anchor, then_block, else_block) = match statement {
            Stmt::If { cond, then_block, else_block } => (cond.span, then_block, else_block),
            _ => {
                return Err(self.changed_role(parent_block));
            },
        };
        if id.0 >= self.branches.len() {
            return Err(PlanError::new(anchor, "retained branch identity is out of range"));
        }
        if has_branch(&visited.branches, id) {
            return Err(PlanError::new(anchor, "two source branches reuse one retained BranchId"));
        }
        visited.branches.push(id);
        let branch = &self.branches[id.0];
        if branch.else_arm.is_none() && else_block.is_some() {
            return Err(PlanError::new(anchor, "checked body gained an unplanned else scope"));
        }
        if branch.else_arm.is_some() && else_block.is_none() {
            return Err(
                PlanError::new(anchor, "checked body no longer contains its planned else scope"),
            );
        }
        if branch.id != id || branch.parent_scope != parent_scope || branch.anchor != anchor {
            return Err(
                PlanError::new(
                    anchor,
                    "checked branch no longer matches its retained parent or anchor",
                ),
            );
        }
        let then_flow = match self.validate_structural_branch_arm(
            &branch.then_arm,
            BranchArm::Then,
            parent_block,
            parent_scope,
            anchor,
            then_block.as_slice(),
            visited,
        ) {
            Err(e) => {
                return Err(e);
            },
            Ok(flow) => flow,
        };
        let else_flow = match (&branch.else_arm, else_block) {
            (Some(arm), Some(body)) => match self.validate_structural_branch_arm(
                arm,
                BranchArm::Else,
                parent_block,
                parent_scope,
                anchor,
                body.as_slice(),
                visited,
            ) {
                Err(e) => {
                    return Err(e);
                },
                Ok(flow) => flow,
            },
            _ => FlowSummary::fallthrough(),
        };
        let flow = then_flow.or_else(else_flow);
        if branch.flow != flow {
            return Err(
                PlanError::new(
                    anchor,
                    "retained branch flow no longer matches its exact arm flows",
                ),
            );
        }
        Ok(flow)
    }

    fn validate_structural_branch_arm(
        &self,
        arm: &BranchArmPlan,
        which: BranchArm,
        parent_block: BlockId,
        parent_scope: ScopeId,
        anchor: Span,
        body: &[Stmt],
        visited: &mut StructuralInventory,
    ) -> (r: Result<FlowSummary, PlanError>)
        ensures
            visits(
                r,
                final(visited)@,
                visit_arm(
                    self@,
                    old(visited)@,
                    body@,
                    arm@,
                    which,
                    parent_block,
                    parent_scope,
                    anchor,
                ),
            ),
        decreases body@, body@.len() + 2,
    {
        match self.validate_structural_scope(
            arm.scope,
            ScopeKind::BranchArm(which),
            anchor,
            Some(parent_scope),
            visited,
        ) {
            Err(e) => {
                return Err(e);
            },
            Ok(_) => {},
        }
        let flow = match self.validate_structural_block(
            body,
            arm.block,
            Some(parent_block),
            BlockKind::BranchArm(which),
            anchor,
            arm.scope,
            visited,
        ) {
            Err(e) => {
                return Err(e);
            },
            Ok(flow) => flow,
        };
        let expected = if flow.can_fall_through() {
            Some(self.route_one(ExitKind::Fallthrough, arm.scope))
        } else {
            None
        };
        if arm.flow != flow || !same_opt(&arm.normal_exit, &expected) {
            let refusal: &'static str = match which {
                BranchArm::Then =>
                    "retained Then arm flow or normal exit no longer matches its child block",
                BranchArm::Else =>
                    "retained Else arm flow or normal exit no longer matches its child block",
            };
            return Err(PlanError::new(anchor, refusal));
        }
        Ok(flow)
    }

    fn validate_structural_loop(
        &self,
        id: LoopId,
        parent_block: BlockId,
        parent_scope: ScopeId,
        statement: &Stmt,
        visited: &mut StructuralInventory,
    ) -> (r: Result<FlowSummary, PlanError>)
        ensures
            visits(
                r,
                final(visited)@,
                visit_loop(self@, old(visited)@, *statement, id, parent_block, parent_scope),
            ),
        decreases statement, 2nat,
    {
        let (condition_span, keyword_span, body) = match statement {
            Stmt::While { cond, kw_span, body, .. } => (cond.span, *kw_span, body),
            _ => {
                return Err(self.changed_role(parent_block));
            },
        };
        if id.0 >= self.loops.len() {
            return Err(PlanError::new(keyword_span, "retained loop identity is out of range"));
        }
        if has_loop(&visited.loops, id) {
            return Err(PlanError::new(keyword_span, "two source loops reuse one retained LoopId"));
        }
        visited.loops.push(id);
        let plan = &self.loops[id.0];
        let effect = EffectSiteKey { owner: self.owner.copy(), span: keyword_span };
        if plan.id != id || plan.parent_scope != parent_scope || plan.keyword_span != keyword_span
            || plan.condition_span != condition_span || !plan.effect_key.same(&effect) {
            return Err(
                PlanError::new(
                    keyword_span,
                    "checked loop no longer matches its retained parent, header, condition, or effect identity",
                ),
            );
        }
        match self.validate_structural_scope(
            plan.body_scope,
            ScopeKind::LoopBody,
            keyword_span,
            Some(parent_scope),
            visited,
        ) {
            Err(e) => {
                return Err(e);
            },
            Ok(_) => {},
        }
        let body_flow = match self.validate_structural_block(
            body.as_slice(),
            plan.body,
            Some(parent_block),
            BlockKind::LoopBody,
            keyword_span,
            plan.body_scope,
            visited,
        ) {
            Err(e) => {
                return Err(e);
            },
            Ok(flow) => flow,
        };
        let expected = if body_flow.can_fall_through() {
            Some(self.route_one(ExitKind::Backedge, plan.body_scope))
        } else {
            None
        };
        let flow = body_flow.looped();
        if plan.body_flow != body_flow || !same_opt(&plan.backedge, &expected) || plan.flow
            != flow {
            return Err(
                PlanError::new(
                    keyword_span,
                    "retained loop body flow, backedge, or continuation flow no longer matches",
                ),
            );
        }
        Ok(flow)
    }

    fn validate_structural_exposure_binding(
        &self,
        scope: ScopeId,
        index: usize,
        name: &String,
        ty: Ty,
        span: Span,
    ) -> (r: Result<(), PlanError>)
        ensures
            agrees(r, self@.check_exposure_binding(scope, index as int, name@, ty, span)),
    {
        if scope.0 >= self.scopes.len() {
            return Err(
                PlanError::new(span, "retained exposure is missing one of its body bindings"),
            );
        }
        let bindings = &self.scopes[scope.0].bindings;
        if index >= bindings.len() {
            return Err(
                PlanError::new(span, "retained exposure is missing one of its body bindings"),
            );
        }
        let expected = SourceBinding { place: Place::local(name.as_str()), ty, span };
        assert(self@.scopes[scope.0 as int].bindings[index as int] == bindings@[index as int]@);
        if !bindings[index].same(&expected) {
            return Err(
                PlanError::new(
                    span,
                    "checked exposure pointer/resource binding no longer matches its retained name, type, or span",
                ),
            );
        }
        Ok(())
    }

    /// The types of the retained bindings of a place, in scope order.
    pub fn retained_types(&self, place: &Place) -> (found: Vec<Ty>)
        ensures
            found@.len() == self@.bindings_of(place@, self@.scopes.len()).len(),
            forall|k: int|
                0 <= k < found@.len() ==> #[trigger] found@[k] == self@.bindings_of(
                    place@,
                    self@.scopes.len(),
                )[k].ty,
    {
        let mut found: Vec<Ty> = Vec::new();
        let ghost mut all: Seq<BindingV> = Seq::empty();
        let n: usize = self.scopes.len();
        let mut i: usize = 0;
        while i < n
            invariant
                n == self.scopes@.len(),
                i <= n,
                all == self@.bindings_of(place@, i as nat),
                found@.len() == all.len(),
                forall|k: int| 0 <= k < found@.len() ==> #[trigger] found@[k] == all[k].ty,
            decreases n - i,
        {
            let bindings = &self.scopes[i].bindings;
            let m: usize = bindings.len();
            let mut j: usize = 0;
            let ghost base = all;
            assert(self@.scopes[i as int].bindings == views(bindings@));
            while j < m
                invariant
                    m == bindings@.len(),
                    j <= m,
                    all == base + matching(views(bindings@), place@, j as nat),
                    found@.len() == all.len(),
                    forall|k: int| 0 <= k < found@.len() ==> #[trigger] found@[k] == all[k].ty,
                decreases m - j,
            {
                if bindings[j].place.same(place) {
                    found.push(bindings[j].ty.clone());
                    proof {
                        all = all.push(bindings@[j as int]@);
                    }
                }
                proof {
                    assert(all =~= base + matching(views(bindings@), place@, (j + 1) as nat));
                }
                j = j + 1;
            }
            i = i + 1;
        }
        found
    }

    pub fn retained_binding_type(&self, place: &Place, span: Span) -> (r: Result<Ty, PlanError>)
        ensures
            agrees(r, self@.binding_type(place@, span)),
    {
        let found = self.retained_types(place);
        if found.len() == 0 {
            return Err(
                PlanError {
                    span,
                    message: cat3(
                        "checked exposure owner `",
                        place.render().as_str(),
                        "` has no retained source binding",
                    ),
                },
            );
        }
        if found.len() > 1 {
            return Err(
                PlanError {
                    span,
                    message: cat3(
                        "checked exposure owner `",
                        place.render().as_str(),
                        "` has ambiguous retained source bindings",
                    ),
                },
            );
        }
        Ok(found[0].clone())
    }

    fn validate_structural_exposure(
        &self,
        id: ExposureId,
        parent_block: BlockId,
        parent_scope: ScopeId,
        statement: &Stmt,
        visited: &mut StructuralInventory,
    ) -> (r: Result<FlowSummary, PlanError>)
        ensures
            visits(
                r,
                final(visited)@,
                visit_exposure(self@, old(visited)@, *statement, id, parent_block, parent_scope),
            ),
        decreases statement, 2nat,
    {
        let (keyword_span, ptr, ptr_span, res, res_span, body) = match statement {
            Stmt::Expose { kw_span, ptr, ptr_span, res, res_span, body, .. } => (
                *kw_span,
                ptr,
                *ptr_span,
                res,
                *res_span,
                body,
            ),
            _ => {
                return Err(self.changed_role(parent_block));
            },
        };
        if id.0 >= self.exposures.len() {
            return Err(PlanError::new(keyword_span, "retained exposure identity is out of range"));
        }
        if has_exposure(&visited.exposures, id) {
            return Err(
                PlanError::new(keyword_span, "two source exposures reuse one retained ExposureId"),
            );
        }
        visited.exposures.push(id);
        let plan = &self.exposures[id.0];
        let effect = EffectSiteKey { owner: self.owner.copy(), span: keyword_span };
        if plan.id != id || plan.parent_scope != parent_scope || plan.keyword_span != keyword_span
            || !plan.effect_key.same(&effect) {
            return Err(
                PlanError::new(
                    keyword_span,
                    "checked exposure no longer matches its retained parent, anchor, or effect identity",
                ),
            );
        }
        match self.validate_structural_scope(
            plan.body_scope,
            ScopeKind::Exposure,
            keyword_span,
            Some(parent_scope),
            visited,
        ) {
            Err(e) => {
                return Err(e);
            },
            Ok(_) => {},
        }
        match self.validate_structural_exposure_binding(
            plan.body_scope,
            0,
            ptr,
            Ty::Raw(IntTy::U8),
            ptr_span,
        ) {
            Err(e) => {
                return Err(e);
            },
            Ok(_) => {},
        }
        match self.validate_structural_exposure_binding(
            plan.body_scope,
            1,
            res,
            Ty::Res(ResKind::RawSpan),
            res_span,
        ) {
            Err(e) => {
                return Err(e);
            },
            Ok(_) => {},
        }
        let body_flow = match self.validate_structural_block(
            body.as_slice(),
            plan.body,
            Some(parent_block),
            BlockKind::Exposure,
            keyword_span,
            plan.body_scope,
            visited,
        ) {
            Err(e) => {
                return Err(e);
            },
            Ok(flow) => flow,
        };
        match self.validate_exposure_end(
            plan.body_flow,
            plan.flow,
            &plan.normal,
            plan.body_scope,
            body_flow,
            statement,
            parent_scope,
        ) {
            Err(e) => Err(e),
            Ok(_) => Ok(body_flow),
        }
    }

    fn validate_exposure_end(
        &self,
        retained_body_flow: FlowSummary,
        retained_flow: FlowSummary,
        normal: &Option<ExposureNormalPlan>,
        body_scope: ScopeId,
        body_flow: FlowSummary,
        statement: &Stmt,
        parent_scope: ScopeId,
    ) -> (r: Result<(), PlanError>)
        requires
            body_scope.0 < self@.scopes.len(),
        ensures
            agrees(
                r,
                check_exposure_end(
                    self@,
                    retained_body_flow,
                    retained_flow,
                    opt_view(*normal),
                    body_scope,
                    body_flow,
                    *statement,
                    parent_scope,
                ),
            ),
    {
        let (keyword_span, array, array_span, mutable, ptr, res) = match statement {
            Stmt::Expose { kw_span, array, array_span, mutable, ptr, res, .. } => (
                *kw_span,
                array,
                *array_span,
                *mutable,
                ptr,
                res,
            ),
            _ => {
                return Ok(());
            },
        };
        if retained_body_flow != body_flow || retained_flow != body_flow {
            return Err(
                PlanError::new(
                    keyword_span,
                    "retained exposure body or continuation flow no longer matches",
                ),
            );
        }
        let owner = Place::local(array.as_str());
        let owner_ty = match self.retained_binding_type(&owner, array_span) {
            Err(e) => {
                return Err(e);
            },
            Ok(ty) => ty,
        };
        let expected_mutability = if mutable {
            Mutability::Mut
        } else {
            Mutability::Shared
        };
        match normal {
            Some(normal) => {
                if !body_flow.can_fall_through() {
                    return Err(
                        PlanError::new(
                            keyword_span,
                            "retained exposure normal-edge presence no longer matches body flow",
                        ),
                    );
                }
                let body_exit = self.route_one(ExitKind::Fallthrough, body_scope);
                let close = match self.exposure_close(body_scope, keyword_span) {
                    Err(e) => {
                        return Err(e);
                    },
                    Ok(close) => close,
                };
                let release = match self.compiler_temp(
                    body_scope,
                    keyword_span,
                    CompilerTempKind::ExposureLoan,
                ) {
                    Err(e) => {
                        return Err(e);
                    },
                    Ok(place) => place,
                };
                let pointer = Place::local(ptr.as_str());
                let resource = Place::local(res.as_str());
                let rebuild = &normal.rebuild;
                if !normal.capture.same(&resource) || !normal.body_exit.same(&body_exit)
                    || !rebuild.owner.same(&owner) || rebuild.owner_span != array_span
                    || !rebuild.owner_ty.same_ty(&owner_ty) || rebuild.mutability
                    != expected_mutability || !rebuild.pointer.same(&pointer)
                    || !rebuild.resource.same(&resource) || rebuild.keyword_span != keyword_span
                    || !normal.release_loan.same(release) || !normal.close.same(&close)
                    || normal.parent_scope != parent_scope {
                    return Err(
                        PlanError::new(
                            keyword_span,
                            "checked exposure owner, type, mutability, bindings, or ordered normal phases no longer match the retained plan",
                        ),
                    );
                }
                Ok(())
            },
            None => {
                if body_flow.can_fall_through() {
                    return Err(
                        PlanError::new(
                            keyword_span,
                            "retained exposure normal-edge presence no longer matches body flow",
                        ),
                    );
                }
                Ok(())
            },
        }
    }
}

// ------------------------------------------------------------------------------------------
// The whole body
// ------------------------------------------------------------------------------------------

impl PlanV {
    /// The first block from `i` on that the tree did not reach.
    pub open spec fn unreached_block(self, v: VisitedV, i: nat) -> Result<(), ErrV>
        decreases self.blocks.len() - i,
    {
        if i >= self.blocks.len() {
            Ok(())
        } else if !v.blocks.contains(self.blocks[i as int].id) {
            Err(
                plan_err(
                    self.blocks[i as int].anchor,
                    "checked body no longer reaches every retained structural block"@,
                ),
            )
        } else {
            self.unreached_block(v, i + 1)
        }
    }

    pub open spec fn unreached_branch(self, v: VisitedV, i: nat) -> Result<(), ErrV>
        decreases self.branches.len() - i,
    {
        if i >= self.branches.len() {
            Ok(())
        } else if !v.branches.contains(self.branches[i as int].id) {
            Err(
                plan_err(
                    self.branches[i as int].anchor,
                    "checked body no longer reaches every retained branch edge"@,
                ),
            )
        } else {
            self.unreached_branch(v, i + 1)
        }
    }

    pub open spec fn unreached_loop(self, v: VisitedV, i: nat) -> Result<(), ErrV>
        decreases self.loops.len() - i,
    {
        if i >= self.loops.len() {
            Ok(())
        } else if !v.loops.contains(self.loops[i as int].id) {
            Err(
                plan_err(
                    self.loops[i as int].keyword_span,
                    "checked body no longer reaches every retained loop edge"@,
                ),
            )
        } else {
            self.unreached_loop(v, i + 1)
        }
    }

    pub open spec fn unreached_exposure(self, v: VisitedV, i: nat) -> Result<(), ErrV>
        decreases self.exposures.len() - i,
    {
        if i >= self.exposures.len() {
            Ok(())
        } else if !v.exposures.contains(self.exposures[i as int].id) {
            Err(
                plan_err(
                    self.exposures[i as int].keyword_span,
                    "checked body no longer reaches every retained exposure edge"@,
                ),
            )
        } else {
            self.unreached_exposure(v, i + 1)
        }
    }

    pub open spec fn unreached_scope(self, v: VisitedV, i: nat) -> Result<(), ErrV>
        decreases self.scopes.len() - i,
    {
        if i >= self.scopes.len() {
            Ok(())
        } else if !v.scopes.contains(ScopeId(i as usize)) {
            Err(
                plan_err(
                    self.scopes[i as int].anchor,
                    "checked body no longer reaches its retained "@ + scope_kind_text(
                        self.scopes[i as int].kind,
                    ) + " structural scope"@,
                ),
            )
        } else {
            self.unreached_scope(v, i + 1)
        }
    }

    /// Everything the plan retains was reached.
    pub open spec fn all_reached(self, v: VisitedV) -> Result<(), ErrV> {
        match self.unreached_block(v, 0) {
            Err(e) => Err(e),
            Ok(_) => match self.unreached_branch(v, 0) {
                Err(e) => Err(e),
                Ok(_) => match self.unreached_loop(v, 0) {
                    Err(e) => Err(e),
                    Ok(_) => match self.unreached_exposure(v, 0) {
                        Err(e) => Err(e),
                        Ok(_) => self.unreached_scope(v, 0),
                    },
                },
            },
        }
    }

    /// What a statement tree reaches of the plan, from the frame inwards.
    pub open spec fn visit_body(self, s: Seq<Stmt>) -> Result<VisitedV, ErrV> {
        let anchor = self.scopes[self.body_scope.0 as int].anchor;
        match visit_scope(
            self,
            nothing_visited(),
            self.frame_scope,
            ScopeKind::Frame,
            anchor,
            None,
        ) {
            (Err(e), _) => Err(e),
            (Ok(_), v) => match visit_scope(
                self,
                v,
                self.body_scope,
                ScopeKind::Body,
                anchor,
                Some(self.frame_scope),
            ) {
                (Err(e), _) => Err(e),
                (Ok(_), v) => match visit_block(
                    self,
                    v,
                    s,
                    self.body_block,
                    None,
                    BlockKind::Body,
                    anchor,
                    self.body_scope,
                ) {
                    (Err(e), _) => Err(e),
                    (Ok(_), v) => Ok(v),
                },
            },
        }
    }

    /// The refusal of a statement tree that is not the one the plan was made for.
    pub open spec fn check_structure(self, s: Seq<Stmt>) -> Result<(), ErrV> {
        match self.check_tables() {
            Err(e) => Err(e),
            Ok(_) => match self.visit_body(s) {
                Err(e) => Err(e),
                Ok(v) => self.all_reached(v),
            },
        }
    }
}

impl BodyPlan {
    fn validate_all_reached(&self, visited: &StructuralInventory) -> (r: Result<(), PlanError>)
        ensures
            agrees(r, self@.all_reached(visited@)),
    {
        let mut i: usize = 0;
        while i < self.blocks.len()
            invariant
                i <= self.blocks@.len(),
                self@.unreached_block(visited@, 0) == self@.unreached_block(visited@, i as nat),
            decreases self.blocks@.len() - i,
        {
            if !has_block(&visited.blocks, self.blocks[i].id) {
                return Err(
                    PlanError::new(
                        self.blocks[i].anchor,
                        "checked body no longer reaches every retained structural block",
                    ),
                );
            }
            i = i + 1;
        }
        let mut i: usize = 0;
        while i < self.branches.len()
            invariant
                i <= self.branches@.len(),
                self@.unreached_block(visited@, 0) is Ok,
                self@.unreached_branch(visited@, 0) == self@.unreached_branch(visited@, i as nat),
            decreases self.branches@.len() - i,
        {
            if !has_branch(&visited.branches, self.branches[i].id) {
                return Err(
                    PlanError::new(
                        self.branches[i].anchor,
                        "checked body no longer reaches every retained branch edge",
                    ),
                );
            }
            i = i + 1;
        }
        let mut i: usize = 0;
        while i < self.loops.len()
            invariant
                i <= self.loops@.len(),
                self@.unreached_block(visited@, 0) is Ok,
                self@.unreached_branch(visited@, 0) is Ok,
                self@.unreached_loop(visited@, 0) == self@.unreached_loop(visited@, i as nat),
            decreases self.loops@.len() - i,
        {
            if !has_loop(&visited.loops, self.loops[i].id) {
                return Err(
                    PlanError::new(
                        self.loops[i].keyword_span,
                        "checked body no longer reaches every retained loop edge",
                    ),
                );
            }
            i = i + 1;
        }
        let mut i: usize = 0;
        while i < self.exposures.len()
            invariant
                i <= self.exposures@.len(),
                self@.unreached_block(visited@, 0) is Ok,
                self@.unreached_branch(visited@, 0) is Ok,
                self@.unreached_loop(visited@, 0) is Ok,
                self@.unreached_exposure(visited@, 0) == self@.unreached_exposure(
                    visited@,
                    i as nat,
                ),
            decreases self.exposures@.len() - i,
        {
            if !has_exposure(&visited.exposures, self.exposures[i].id) {
                return Err(
                    PlanError::new(
                        self.exposures[i].keyword_span,
                        "checked body no longer reaches every retained exposure edge",
                    ),
                );
            }
            i = i + 1;
        }
        let mut i: usize = 0;
        while i < self.scopes.len()
            invariant
                i <= self.scopes@.len(),
                self@.unreached_block(visited@, 0) is Ok,
                self@.unreached_branch(visited@, 0) is Ok,
                self@.unreached_loop(visited@, 0) is Ok,
                self@.unreached_exposure(visited@, 0) is Ok,
                self@.unreached_scope(visited@, 0) == self@.unreached_scope(visited@, i as nat),
            decreases self.scopes@.len() - i,
        {
            if !has_scope(&visited.scopes, ScopeId(i)) {
                return Err(
                    PlanError {
                        span: self.scopes[i].anchor,
                        message: cat3(
                            "checked body no longer reaches its retained ",
                            scope_kind_tag(self.scopes[i].kind),
                            " structural scope",
                        ),
                    },
                );
            }
            i = i + 1;
        }
        Ok(())
    }

    /// Reconciles a statement tree with the retained blocks, scopes and edges.
    pub fn validate_structural_body(&self, body: &[Stmt]) -> (r: Result<(), PlanError>)
        requires
            self@.wf(),
        ensures
            agrees(r, self@.check_structure(body@)),
    {
        match self.validate_structural_tables() {
            Err(e) => {
                return Err(e);
            },
            Ok(_) => {},
        }
        let anchor = self.scopes[self.body_scope.0].anchor;
        let mut visited = StructuralInventory {
            blocks: Vec::new(),
            branches: Vec::new(),
            loops: Vec::new(),
            exposures: Vec::new(),
            scopes: Vec::new(),
        };
        match self.validate_structural_scope(
            self.frame_scope,
            ScopeKind::Frame,
            anchor,
            None,
            &mut visited,
        ) {
            Err(e) => {
                return Err(e);
            },
            Ok(_) => {},
        }
        match self.validate_structural_scope(
            self.body_scope,
            ScopeKind::Body,
            anchor,
            Some(self.frame_scope),
            &mut visited,
        ) {
            Err(e) => {
                return Err(e);
            },
            Ok(_) => {},
        }
        match self.validate_structural_block(
            body,
            self.body_block,
            None,
            BlockKind::Body,
            anchor,
            self.body_scope,
            &mut visited,
        ) {
            Err(e) => {
                return Err(e);
            },
            Ok(_) => {},
        }
        self.validate_all_reached(&visited)
    }
}

} // verus!
