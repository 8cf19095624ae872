//! The structural outline of a callable body: blocks, lexical scopes and edges.
//!
//! An outline can be made of any statement tree, typed or not. Sealing it into a plan is where
//! ambiguous anchors are refused.
use vstd::prelude::*;

use crate::ast::Stmt;
use crate::flow::{branch_flow, fallthrough_flow, loop_flow, return_flow, seq_flow, FlowSummary};
use crate::place::{CallOwner, OwnerV};
use crate::repr::{copy_vec, group_views, same_vec, views, Repr};
use crate::span::Span;

verus! {

broadcast use group_views;

/// A lexical scope of one body.
#[derive(Clone, Copy, Debug, PartialEq, Eq, Structural)]
pub struct ScopeId(pub usize);

/// A conditionally live value that its scope destroys.
#[derive(Clone, Copy, Debug, PartialEq, Eq, Structural)]
pub struct DropId(pub usize);

#[derive(Clone, Copy, Debug, PartialEq, Eq, Structural)]
pub enum BranchArm {
    Then,
    Else,
}

#[derive(Clone, Copy, Debug, PartialEq, Eq, Structural)]
pub enum ScopeKind {
    Frame,
    Body,
    BranchArm(BranchArm),
    LoopBody,
    Exposure,
}

/// A source block. An `unsafe` block is a block but shares its parent's scope.
#[derive(Clone, Copy, Debug, PartialEq, Eq, Structural)]
pub struct BlockId(pub usize);

#[derive(Clone, Copy, Debug, PartialEq, Eq, Structural)]
pub struct BranchId(pub usize);

#[derive(Clone, Copy, Debug, PartialEq, Eq, Structural)]
pub struct LoopId(pub usize);

#[derive(Clone, Copy, Debug, PartialEq, Eq, Structural)]
pub struct ExposureId(pub usize);

#[derive(Clone, Copy, Debug, PartialEq, Eq, Structural)]
pub enum BlockKind {
    Body,
    BranchArm(BranchArm),
    LoopBody,
    Unsafe,
    Exposure,
}

#[derive(Clone, Copy, Debug, PartialEq, Eq, Structural)]
pub enum LinearStatementKind {
    Decl,
    Assign,
    Expr,
    Assert,
    VarDecl,
    FieldAssign,
    FieldStore,
    Store,
    StaticAlloc,
    SystemAlloc,
    SystemDealloc,
}

/// The control role of one statement.
#[derive(Clone, Copy, Debug, PartialEq, Eq, Structural)]
pub enum StatementPlanKind {
    Linear(LinearStatementKind),
    Return,
    Branch(BranchId),
    Loop(LoopId),
    Unsafe(BlockId),
    Exposure(ExposureId),
}

#[derive(Clone, Copy, Debug, PartialEq, Eq, Structural)]
pub struct StatementPlan {
    pub entry_reachable: bool,
    pub flow: FlowSummary,
    pub kind: StatementPlanKind,
}

#[derive(Clone, Copy, Debug, PartialEq, Eq, Structural)]
pub struct OutlineScope {
    pub parent: Option<ScopeId>,
    pub kind: ScopeKind,
    pub anchor: Span,
}

#[derive(Clone, Copy, Debug, PartialEq, Eq, Structural)]
pub struct BranchOutline {
    pub id: BranchId,
    pub parent_scope: ScopeId,
    pub anchor: Span,
    pub then_block: BlockId,
    pub else_block: Option<BlockId>,
    pub flow: FlowSummary,
}

#[derive(Clone, Copy, Debug, PartialEq, Eq, Structural)]
pub struct LoopOutline {
    pub id: LoopId,
    pub parent_scope: ScopeId,
    pub keyword_span: Span,
    pub condition_span: Span,
    pub body: BlockId,
    pub flow: FlowSummary,
}

#[derive(Clone, Copy, Debug, PartialEq, Eq, Structural)]
pub struct ExposureOutline {
    pub id: ExposureId,
    pub parent_scope: ScopeId,
    pub keyword_span: Span,
    pub body: BlockId,
    pub flow: FlowSummary,
}

impl View for StatementPlan {
    type V = StatementPlan;

    open spec fn view(&self) -> StatementPlan {
        *self
    }
}

impl Repr for StatementPlan {
    fn copy(&self) -> (r: Self) {
        *self
    }

    fn same(&self, other: &Self) -> (r: bool) {
        *self == *other
    }
}

impl View for OutlineScope {
    type V = OutlineScope;

    open spec fn view(&self) -> OutlineScope {
        *self
    }
}

impl Repr for OutlineScope {
    fn copy(&self) -> (r: Self) {
        *self
    }

    fn same(&self, other: &Self) -> (r: bool) {
        *self == *other
    }
}

impl View for BranchOutline {
    type V = BranchOutline;

    open spec fn view(&self) -> BranchOutline {
        *self
    }
}

impl Repr for BranchOutline {
    fn copy(&self) -> (r: Self) {
        *self
    }

    fn same(&self, other: &Self) -> (r: bool) {
        *self == *other
    }
}

impl View for LoopOutline {
    type V = LoopOutline;

    open spec fn view(&self) -> LoopOutline {
        *self
    }
}

impl Repr for LoopOutline {
    fn copy(&self) -> (r: Self) {
        *self
    }

    fn same(&self, other: &Self) -> (r: bool) {
        *self == *other
    }
}

impl View for ExposureOutline {
    type V = ExposureOutline;

    open spec fn view(&self) -> ExposureOutline {
        *self
    }
}

impl Repr for ExposureOutline {
    fn copy(&self) -> (r: Self) {
        *self
    }

    fn same(&self, other: &Self) -> (r: bool) {
        *self == *other
    }
}

/// One source block and the role of each of its statements.
#[derive(Debug, PartialEq, Eq)]
pub struct BlockPlan {
    pub id: BlockId,
    pub parent: Option<BlockId>,
    pub scope: ScopeId,
    pub kind: BlockKind,
    pub anchor: Span,
    pub flow: FlowSummary,
    pub statements: Vec<StatementPlan>,
}

pub ghost struct BlockV {
    pub id: BlockId,
    pub parent: Option<BlockId>,
    pub scope: ScopeId,
    pub kind: BlockKind,
    pub anchor: Span,
    pub flow: FlowSummary,
    pub statements: Seq<StatementPlan>,
}

impl View for BlockPlan {
    type V = BlockV;

    open spec fn view(&self) -> BlockV {
        BlockV {
            id: self.id,
            parent: self.parent,
            scope: self.scope,
            kind: self.kind,
            anchor: self.anchor,
            flow: self.flow,
            statements: views(self.statements@),
        }
    }
}

impl Repr for BlockPlan {
    fn copy(&self) -> (r: Self) {
        BlockPlan {
            id: self.id,
            parent: self.parent,
            scope: self.scope,
            kind: self.kind,
            anchor: self.anchor,
            flow: self.flow,
            statements: copy_vec(&self.statements),
        }
    }

    fn same(&self, other: &Self) -> (r: bool) {
        self.id == other.id && self.parent == other.parent && self.scope == other.scope && self.kind
            == other.kind && self.anchor == other.anchor && self.flow == other.flow && same_vec(
            &self.statements,
            &other.statements,
        )
    }
}

impl BlockPlan {
    pub fn id(&self) -> (r: BlockId)
        ensures
            r == self@.id,
    {
        self.id
    }

    pub fn parent(&self) -> (r: Option<BlockId>)
        ensures
            r == self@.parent,
    {
        self.parent
    }

    pub fn scope(&self) -> (r: ScopeId)
        ensures
            r == self@.scope,
    {
        self.scope
    }

    pub fn kind(&self) -> (r: BlockKind)
        ensures
            r == self@.kind,
    {
        self.kind
    }

    pub fn flow(&self) -> (r: FlowSummary)
        ensures
            r == self@.flow,
    {
        self.flow
    }

    pub fn statements(&self) -> (r: &[StatementPlan])
        ensures
            r@ == self.statements@,
    {
        self.statements.as_slice()
    }
}

impl StatementPlan {
    pub fn kind(&self) -> (r: StatementPlanKind)
        ensures
            r == self.kind,
    {
        self.kind
    }
}

/// The structure of one body, independent of its types.
#[derive(Debug, PartialEq, Eq)]
pub struct ControlOutline {
    pub owner: CallOwner,
    pub declaration_span: Span,
    pub scopes: Vec<OutlineScope>,
    pub blocks: Vec<BlockPlan>,
    pub branches: Vec<BranchOutline>,
    pub loops: Vec<LoopOutline>,
    pub exposures: Vec<ExposureOutline>,
    pub frame_scope: ScopeId,
    pub body_scope: ScopeId,
    pub body_block: BlockId,
}

pub ghost struct OutlineV {
    pub owner: OwnerV,
    pub declaration_span: Span,
    pub scopes: Seq<OutlineScope>,
    pub blocks: Seq<BlockV>,
    pub branches: Seq<BranchOutline>,
    pub loops: Seq<LoopOutline>,
    pub exposures: Seq<ExposureOutline>,
    pub frame_scope: ScopeId,
    pub body_scope: ScopeId,
    pub body_block: BlockId,
}

impl View for ControlOutline {
    type V = OutlineV;

    open spec fn view(&self) -> OutlineV {
        OutlineV {
            owner: self.owner@,
            declaration_span: self.declaration_span,
            scopes: views(self.scopes@),
            blocks: views(self.blocks@),
            branches: views(self.branches@),
            loops: views(self.loops@),
            exposures: views(self.exposures@),
            frame_scope: self.frame_scope,
            body_scope: self.body_scope,
            body_block: self.body_block,
        }
    }
}

impl Repr for ControlOutline {
    fn copy(&self) -> (r: Self) {
        ControlOutline {
            owner: self.owner.copy(),
            declaration_span: self.declaration_span,
            scopes: copy_vec(&self.scopes),
            blocks: copy_vec(&self.blocks),
            branches: copy_vec(&self.branches),
            loops: copy_vec(&self.loops),
            exposures: copy_vec(&self.exposures),
            frame_scope: self.frame_scope,
            body_scope: self.body_scope,
            body_block: self.body_block,
        }
    }

    fn same(&self, other: &Self) -> (r: bool) {
        self.owner.same(&other.owner) && self.declaration_span == other.declaration_span
            && same_vec(&self.scopes, &other.scopes) && same_vec(&self.blocks, &other.blocks)
            && same_vec(&self.branches, &other.branches) && same_vec(&self.loops, &other.loops)
            && same_vec(&self.exposures, &other.exposures) && self.frame_scope == other.frame_scope
            && self.body_scope == other.body_scope && self.body_block == other.body_block
    }
}

/// The role of a statement that neither branches nor leaves its block.
pub open spec fn linear_kind(s: Stmt) -> Option<LinearStatementKind> {
    match s {
        Stmt::Decl { .. } => Some(LinearStatementKind::Decl),
        Stmt::Assign { .. } => Some(LinearStatementKind::Assign),
        Stmt::ExprStmt(_) => Some(LinearStatementKind::Expr),
        Stmt::Assert(_) => Some(LinearStatementKind::Assert),
        Stmt::VarDecl { .. } => Some(LinearStatementKind::VarDecl),
        Stmt::FieldAssign { .. } => Some(LinearStatementKind::FieldAssign),
        Stmt::FieldStore { .. } => Some(LinearStatementKind::FieldStore),
        Stmt::Store { .. } => Some(LinearStatementKind::Store),
        Stmt::StaticAlloc { .. } => Some(LinearStatementKind::StaticAlloc),
        Stmt::SystemAlloc { .. } => Some(LinearStatementKind::SystemAlloc),
        Stmt::SystemDealloc { .. } => Some(LinearStatementKind::SystemDealloc),
        _ => None,
    }
}

pub fn linear_statement_kind(statement: &Stmt) -> (r: Option<LinearStatementKind>)
    ensures
        r == linear_kind(*statement),
{
    match statement {
        Stmt::Decl { .. } => Some(LinearStatementKind::Decl),
        Stmt::Assign { .. } => Some(LinearStatementKind::Assign),
        Stmt::ExprStmt(_) => Some(LinearStatementKind::Expr),
        Stmt::Assert(_) => Some(LinearStatementKind::Assert),
        Stmt::VarDecl { .. } => Some(LinearStatementKind::VarDecl),
        Stmt::FieldAssign { .. } => Some(LinearStatementKind::FieldAssign),
        Stmt::FieldStore { .. } => Some(LinearStatementKind::FieldStore),
        Stmt::Store { .. } => Some(LinearStatementKind::Store),
        Stmt::StaticAlloc { .. } => Some(LinearStatementKind::StaticAlloc),
        Stmt::SystemAlloc { .. } => Some(LinearStatementKind::SystemAlloc),
        Stmt::SystemDealloc { .. } => Some(LinearStatementKind::SystemDealloc),
        _ => None,
    }
}

impl OutlineV {
    /// The outline with one more scope.
    pub open spec fn with_scope(
        self,
        kind: ScopeKind,
        anchor: Span,
        parent: Option<ScopeId>,
    ) -> OutlineV {
        OutlineV { scopes: self.scopes.push(OutlineScope { parent, kind, anchor }), ..self }
    }

    /// Identity of the scope that would be added next.
    pub open spec fn next_scope(self) -> ScopeId {
        ScopeId(self.scopes.len() as usize)
    }

    pub open spec fn next_block(self) -> BlockId {
        BlockId(self.blocks.len() as usize)
    }

    pub open spec fn flow_of(self, block: BlockId) -> FlowSummary {
        self.blocks[block.0 as int].flow
    }
}

/// An outline before its first scope.
pub open spec fn empty_outline(owner: OwnerV, declaration_span: Span) -> OutlineV {
    OutlineV {
        owner,
        declaration_span,
        scopes: Seq::empty(),
        blocks: Seq::empty(),
        branches: Seq::empty(),
        loops: Seq::empty(),
        exposures: Seq::empty(),
        frame_scope: ScopeId(0),
        body_scope: ScopeId(0),
        body_block: BlockId(0),
    }
}

/// A block whose statements are still to be outlined.
pub open spec fn reserved_block(
    o: OutlineV,
    kind: BlockKind,
    anchor: Span,
    parent: Option<BlockId>,
    scope: ScopeId,
) -> OutlineV {
    OutlineV {
        blocks: o.blocks.push(
            BlockV {
                id: o.next_block(),
                parent,
                scope,
                kind,
                anchor,
                flow: fallthrough_flow(),
                statements: Seq::empty(),
            },
        ),
        ..o
    }
}

/// The outline extended by one block: the block is numbered before the blocks inside it.
pub open spec fn outline_block(
    o: OutlineV,
    s: Seq<Stmt>,
    kind: BlockKind,
    anchor: Span,
    parent: Option<BlockId>,
    scope: ScopeId,
) -> OutlineV
    decreases s, s.len() + 1,
{
    let id = o.next_block();
    let (inner, statements, flow) = outline_prefix(
        reserved_block(o, kind, anchor, parent, scope),
        s,
        s.len(),
        id,
        scope,
    );
    OutlineV {
        blocks: inner.blocks.update(
            id.0 as int,
            BlockV { id, parent, scope, kind, anchor, flow, statements },
        ),
        ..inner
    }
}

/// The outline extended by the first `n` statements of a block, with their roles and their flow.
pub open spec fn outline_prefix(
    o: OutlineV,
    s: Seq<Stmt>,
    n: nat,
    block: BlockId,
    scope: ScopeId,
) -> (OutlineV, Seq<StatementPlan>, FlowSummary)
    decreases s, n,
{
    if n == 0 || n > s.len() {
        (o, Seq::empty(), fallthrough_flow())
    } else {
        let (before, plans, flow) = outline_prefix(o, s, (n - 1) as nat, block, scope);
        let (after, plan) = outline_stmt(before, s[n - 1], block, scope);
        (
            after,
            plans.push(StatementPlan { entry_reachable: flow.reaches_next, ..plan }),
            seq_flow(flow, plan.flow),
        )
    }
}

/// The outline extended by one statement, with the statement's role.
pub open spec fn outline_stmt(
    o: OutlineV,
    s: Stmt,
    parent: BlockId,
    scope: ScopeId,
) -> (OutlineV, StatementPlan)
    decreases s, 0nat,
{
    match s {
        Stmt::Return { .. } => (
            o,
            StatementPlan {
                entry_reachable: true,
                flow: return_flow(),
                kind: StatementPlanKind::Return,
            },
        ),
        Stmt::If { cond, then_block, else_block } => {
            let then_id = o.next_block();
            let o1 = outline_block(
                o.with_scope(ScopeKind::BranchArm(BranchArm::Then), cond.span, Some(scope)),
                then_block@,
                BlockKind::BranchArm(BranchArm::Then),
                cond.span,
                Some(parent),
                o.next_scope(),
            );
            let (o2, else_id) = match else_block {
                Some(e) => (
                    outline_block(
                        o1.with_scope(
                            ScopeKind::BranchArm(BranchArm::Else),
                            cond.span,
                            Some(scope),
                        ),
                        e@,
                        BlockKind::BranchArm(BranchArm::Else),
                        cond.span,
                        Some(parent),
                        o1.next_scope(),
                    ),
                    Some(o1.next_block()),
                ),
                None => (o1, None),
            };
            let flow = branch_flow(
                o2.flow_of(then_id),
                match else_id {
                    Some(id) => o2.flow_of(id),
                    None => fallthrough_flow(),
                },
            );
            let id = BranchId(o2.branches.len() as usize);
            (
                OutlineV {
                    branches: o2.branches.push(
                        BranchOutline {
                            id,
                            parent_scope: scope,
                            anchor: cond.span,
                            then_block: then_id,
                            else_block: else_id,
                            flow,
                        },
                    ),
                    ..o2
                },
                StatementPlan {
                    entry_reachable: true,
                    flow,
                    kind: StatementPlanKind::Branch(id),
                },
            )
        },
        Stmt::While { cond, kw_span, body, .. } => {
            let body_id = o.next_block();
            let o1 = outline_block(
                o.with_scope(ScopeKind::LoopBody, kw_span, Some(scope)),
                body@,
                BlockKind::LoopBody,
                kw_span,
                Some(parent),
                o.next_scope(),
            );
            let flow = loop_flow(o1.flow_of(body_id));
            let id = LoopId(o1.loops.len() as usize);
            (
                OutlineV {
                    loops: o1.loops.push(
                        LoopOutline {
                            id,
                            parent_scope: scope,
                            keyword_span: kw_span,
                            condition_span: cond.span,
                            body: body_id,
                            flow,
                        },
                    ),
                    ..o1
                },
                StatementPlan { entry_reachable: true, flow, kind: StatementPlanKind::Loop(id) },
            )
        },
        Stmt::Unsafe { kw_span, body } => {
            let body_id = o.next_block();
            let o1 = outline_block(o, body@, BlockKind::Unsafe, kw_span, Some(parent), scope);
            (
                o1,
                StatementPlan {
                    entry_reachable: true,
                    flow: o1.flow_of(body_id),
                    kind: StatementPlanKind::Unsafe(body_id),
                },
            )
        },
        Stmt::Expose { kw_span, body, .. } => {
            let body_id = o.next_block();
            let o1 = outline_block(
                o.with_scope(ScopeKind::Exposure, kw_span, Some(scope)),
                body@,
                BlockKind::Exposure,
                kw_span,
                Some(parent),
                o.next_scope(),
            );
            let flow = o1.flow_of(body_id);
            let id = ExposureId(o1.exposures.len() as usize);
            (
                OutlineV {
                    exposures: o1.exposures.push(
                        ExposureOutline {
                            id,
                            parent_scope: scope,
                            keyword_span: kw_span,
                            body: body_id,
                            flow,
                        },
                    ),
                    ..o1
                },
                StatementPlan {
                    entry_reachable: true,
                    flow,
                    kind: StatementPlanKind::Exposure(id),
                },
            )
        },
        _ => (
            o,
            StatementPlan {
                entry_reachable: true,
                flow: fallthrough_flow(),
                kind: StatementPlanKind::Linear(linear_kind(s)->Some_0),
            },
        ),
    }
}

/// The outline of a body: a frame scope, the body scope inside it, and the body's blocks.
pub open spec fn outline_of(owner: OwnerV, declaration_span: Span, body: Seq<Stmt>) -> OutlineV {
    let o = empty_outline(owner, declaration_span).with_scope(
        ScopeKind::Frame,
        declaration_span,
        None,
    ).with_scope(ScopeKind::Body, declaration_span, Some(ScopeId(0)));
    OutlineV {
        frame_scope: ScopeId(0),
        body_scope: ScopeId(1),
        body_block: BlockId(0),
        ..outline_block(o, body, BlockKind::Body, declaration_span, None, ScopeId(1))
    }
}

struct OutlineBuilder {
    outline: ControlOutline,
}

impl OutlineBuilder {
    fn add_scope(&mut self, kind: ScopeKind, anchor: Span, parent: Option<ScopeId>) -> (r: ScopeId)
        ensures
            r == old(self).outline@.next_scope(),
            final(self).outline@ == old(self).outline@.with_scope(kind, anchor, parent),
    {
        let id = ScopeId(self.outline.scopes.len());
        self.outline.scopes.push(OutlineScope { parent, kind, anchor });
        id
    }

    fn reserve_block(
        &mut self,
        kind: BlockKind,
        anchor: Span,
        parent: Option<BlockId>,
        scope: ScopeId,
    ) -> (r: BlockId)
        ensures
            r == old(self).outline@.next_block(),
            final(self).outline@ == reserved_block(old(self).outline@, kind, anchor, parent, scope),
    {
        let id = BlockId(self.outline.blocks.len());
        let statements: Vec<StatementPlan> = Vec::new();
        self.outline.blocks.push(
            BlockPlan {
                id,
                parent,
                scope,
                kind,
                anchor,
                flow: FlowSummary::fallthrough(),
                statements,
            },
        );
        id
    }

    fn build_block(
        &mut self,
        statements: &[Stmt],
        kind: BlockKind,
        anchor: Span,
        parent: Option<BlockId>,
        scope: ScopeId,
    ) -> (r: BlockId)
        ensures
            r == old(self).outline@.next_block(),
            r.0 < final(self).outline@.blocks.len(),
            final(self).outline@.blocks.len() >= old(self).outline@.blocks.len(),
            final(self).outline@ == outline_block(
                old(self).outline@,
                statements@,
                kind,
                anchor,
                parent,
                scope,
            ),
        decreases statements@, statements@.len() + 1,
    {
        let block = self.reserve_block(kind, anchor, parent, scope);
        let ghost start = self.outline@;
        let mut flow = FlowSummary::fallthrough();
        let mut plans: Vec<StatementPlan> = Vec::new();
        let n: usize = statements.len();
        let mut i: usize = 0;
        while i < n
            invariant
                n == statements@.len(),
                i <= n,
                block.0 < start.blocks.len(),
                start.blocks.len() <= self.outline@.blocks.len(),
                (self.outline@, views(plans@), flow) == outline_prefix(
                    start,
                    statements@,
                    i as nat,
                    block,
                    scope,
                ),
            decreases n - i,
        {
            let plan = self.build_statement(&statements[i], block, scope);
            plans.push(
                StatementPlan {
                    entry_reachable: flow.reaches_next,
                    flow: plan.flow,
                    kind: plan.kind,
                },
            );
            flow = flow.followed_by(plan.flow);
            i = i + 1;
        }
        self.outline.blocks.set(
            block.0,
            BlockPlan { id: block, parent, scope, kind, anchor, flow, statements: plans },
        );
        block
    }

    fn build_statement(&mut self, statement: &Stmt, parent: BlockId, scope: ScopeId) -> (r:
        StatementPlan)
        ensures
            (final(self).outline@, r) == outline_stmt(
                old(self).outline@,
                *statement,
                parent,
                scope,
            ),
            final(self).outline@.blocks.len() >= old(self).outline@.blocks.len(),
        decreases statement, 0nat,
    {
        match statement {
            Stmt::Return { .. } => StatementPlan {
                entry_reachable: true,
                flow: FlowSummary::returning(),
                kind: StatementPlanKind::Return,
            },
            Stmt::If { cond, then_block, else_block } => {
                let then_scope = self.add_scope(
                    ScopeKind::BranchArm(BranchArm::Then),
                    cond.span,
                    Some(scope),
                );
                let then_id = self.build_block(
                    then_block.as_slice(),
                    BlockKind::BranchArm(BranchArm::Then),
                    cond.span,
                    Some(parent),
                    then_scope,
                );
                let else_id = match else_block {
                    Some(e) => {
                        let else_scope = self.add_scope(
                            ScopeKind::BranchArm(BranchArm::Else),
                            cond.span,
                            Some(scope),
                        );
                        Some(
                            self.build_block(
                                e.as_slice(),
                                BlockKind::BranchArm(BranchArm::Else),
                                cond.span,
                                Some(parent),
                                else_scope,
                            ),
                        )
                    },
                    None => None,
                };
                let then_flow = self.outline.blocks[then_id.0].flow;
                let else_flow = match else_id {
                    Some(id) => self.outline.blocks[id.0].flow,
                    None => FlowSummary::fallthrough(),
                };
                let flow = then_flow.or_else(else_flow);
                let id = BranchId(self.outline.branches.len());
                self.outline.branches.push(
                    BranchOutline {
                        id,
                        parent_scope: scope,
                        anchor: cond.span,
                        then_block: then_id,
                        else_block: else_id,
                        flow,
                    },
                );
                StatementPlan {
                    entry_reachable: true,
                    flow,
                    kind: StatementPlanKind::Branch(id),
                }
            },
            Stmt::While { cond, kw_span, body, .. } => {
                let body_scope = self.add_scope(ScopeKind::LoopBody, *kw_span, Some(scope));
                let body_id = self.build_block(
                    body.as_slice(),
                    BlockKind::LoopBody,
                    *kw_span,
                    Some(parent),
                    body_scope,
                );
                let flow = self.outline.blocks[body_id.0].flow.looped();
                let id = LoopId(self.outline.loops.len());
                self.outline.loops.push(
                    LoopOutline {
                        id,
                        parent_scope: scope,
                        keyword_span: *kw_span,
                        condition_span: cond.span,
                        body: body_id,
                        flow,
                    },
                );
                StatementPlan { entry_reachable: true, flow, kind: StatementPlanKind::Loop(id) }
            },
            Stmt::Unsafe { kw_span, body } => {
                let body_id = self.build_block(
                    body.as_slice(),
                    BlockKind::Unsafe,
                    *kw_span,
                    Some(parent),
                    scope,
                );
                StatementPlan {
                    entry_reachable: true,
                    flow: self.outline.blocks[body_id.0].flow,
                    kind: StatementPlanKind::Unsafe(body_id),
                }
            },
            Stmt::Expose { kw_span, body, .. } => {
                let body_scope = self.add_scope(ScopeKind::Exposure, *kw_span, Some(scope));
                let body_id = self.build_block(
                    body.as_slice(),
                    BlockKind::Exposure,
                    *kw_span,
                    Some(parent),
                    body_scope,
                );
                let flow = self.outline.blocks[body_id.0].flow;
                let id = ExposureId(self.outline.exposures.len());
                self.outline.exposures.push(
                    ExposureOutline {
                        id,
                        parent_scope: scope,
                        keyword_span: *kw_span,
                        body: body_id,
                        flow,
                    },
                );
                StatementPlan {
                    entry_reachable: true,
                    flow,
                    kind: StatementPlanKind::Exposure(id),
                }
            },
            Stmt::Decl { .. } => Self::linear(LinearStatementKind::Decl),
            Stmt::Assign { .. } => Self::linear(LinearStatementKind::Assign),
            Stmt::ExprStmt(_) => Self::linear(LinearStatementKind::Expr),
            Stmt::Assert(_) => Self::linear(LinearStatementKind::Assert),
            Stmt::VarDecl { .. } => Self::linear(LinearStatementKind::VarDecl),
            Stmt::FieldAssign { .. } => Self::linear(LinearStatementKind::FieldAssign),
            Stmt::FieldStore { .. } => Self::linear(LinearStatementKind::FieldStore),
            Stmt::Store { .. } => Self::linear(LinearStatementKind::Store),
            Stmt::StaticAlloc { .. } => Self::linear(LinearStatementKind::StaticAlloc),
            Stmt::SystemAlloc { .. } => Self::linear(LinearStatementKind::SystemAlloc),
            Stmt::SystemDealloc { .. } => Self::linear(LinearStatementKind::SystemDealloc),
        }
    }

    fn linear(kind: LinearStatementKind) -> (r: StatementPlan)
        ensures
            r == (StatementPlan {
                entry_reachable: true,
                flow: fallthrough_flow(),
                kind: StatementPlanKind::Linear(kind),
            }),
    {
        StatementPlan {
            entry_reachable: true,
            flow: FlowSummary::fallthrough(),
            kind: StatementPlanKind::Linear(kind),
        }
    }
}

impl ControlOutline {
    pub fn build(owner: CallOwner, declaration_span: Span, body: &[Stmt]) -> (r: Self)
        ensures
            r@ == outline_of(owner@, declaration_span, body@),
    {
        let mut builder = OutlineBuilder {
            outline: ControlOutline {
                owner,
                declaration_span,
                scopes: Vec::new(),
                blocks: Vec::new(),
                branches: Vec::new(),
                loops: Vec::new(),
                exposures: Vec::new(),
                frame_scope: ScopeId(0),
                body_scope: ScopeId(0),
                body_block: BlockId(0),
            },
        };
        let frame_scope = builder.add_scope(ScopeKind::Frame, declaration_span, None);
        let body_scope = builder.add_scope(ScopeKind::Body, declaration_span, Some(frame_scope));
        let body_block = builder.build_block(
            body,
            BlockKind::Body,
            declaration_span,
            None,
            body_scope,
        );
        let mut outline = builder.outline;
        outline.frame_scope = frame_scope;
        outline.body_scope = body_scope;
        outline.body_block = body_block;
        outline
    }

    pub fn owner(&self) -> (r: &CallOwner)
        ensures
            r@ == self@.owner,
    {
        &self.owner
    }

    pub fn declaration_span(&self) -> (r: Span)
        ensures
            r == self@.declaration_span,
    {
        self.declaration_span
    }

    pub fn body_scope(&self) -> (r: ScopeId)
        ensures
            r == self@.body_scope,
    {
        self.body_scope
    }

    pub fn body_block(&self) -> (r: BlockId)
        ensures
            r == self@.body_block,
    {
        self.body_block
    }

    pub fn block(&self, id: BlockId) -> (r: &BlockPlan)
        requires
            id.0 < self@.blocks.len(),
        ensures
            r@ == self@.blocks[id.0 as int],
    {
        &self.blocks[id.0]
    }

    pub fn statement(&self, block: BlockId, index: usize) -> (r: &StatementPlan)
        requires
            block.0 < self@.blocks.len(),
            index < self@.blocks[block.0 as int].statements.len(),
        ensures
            *r == self@.blocks[block.0 as int].statements[index as int],
    {
        &self.blocks[block.0].statements[index]
    }

    pub fn branch(&self, id: BranchId) -> (r: &BranchOutline)
        requires
            id.0 < self@.branches.len(),
        ensures
            *r == self@.branches[id.0 as int],
    {
        &self.branches[id.0]
    }

    pub fn loop_plan(&self, id: LoopId) -> (r: &LoopOutline)
        requires
            id.0 < self@.loops.len(),
        ensures
            *r == self@.loops[id.0 as int],
    {
        &self.loops[id.0]
    }

    pub fn exposure(&self, id: ExposureId) -> (r: &ExposureOutline)
        requires
            id.0 < self@.exposures.len(),
        ensures
            *r == self@.exposures[id.0 as int],
    {
        &self.exposures[id.0]
    }

    /// Whether outlining `body` again under the same identity gives this outline.
    pub fn structurally_matches(&self, body: &[Stmt]) -> (r: bool)
        ensures
            r == (outline_of(self@.owner, self@.declaration_span, body@) == self@),
    {
        ControlOutline::build(self.owner.copy(), self.declaration_span, body).same(self)
    }
}

} // verus!
