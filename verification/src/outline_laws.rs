//! What holds of every outline.
use vstd::prelude::*;

use crate::ast::Stmt;
use crate::flow::{block_flow, stmt_flow, stmts_flow};
use crate::outline::{
    empty_outline, outline_block, outline_of, outline_prefix, outline_stmt, reserved_block, BlockId,
    BlockKind, BranchArm, OutlineV, ScopeId, ScopeKind, StatementPlanKind,
};
use crate::place::OwnerV;
use crate::span::Span;

verus! {

/// Whether the role of a statement of block `block` names something inside the outline. A nested
/// block comes after the block that holds it.
pub open spec fn role_fits(o: OutlineV, kind: StatementPlanKind, block: int) -> bool {
    match kind {
        StatementPlanKind::Branch(id) => id.0 < o.branches.len() && o.branches[id.0 as int].then_block.0
            > block && (o.branches[id.0 as int].else_block matches Some(e) ==> e.0 > block),
        StatementPlanKind::Loop(id) => id.0 < o.loops.len() && o.loops[id.0 as int].body.0 > block,
        StatementPlanKind::Exposure(id) => id.0 < o.exposures.len()
            && o.exposures[id.0 as int].body.0 > block,
        StatementPlanKind::Unsafe(id) => block < id.0 < o.blocks.len(),
        _ => true,
    }
}

impl OutlineV {
    /// Every table fits a machine word.
    pub open spec fn bounded(self) -> bool {
        &&& self.scopes.len() <= usize::MAX
        &&& self.blocks.len() <= usize::MAX
        &&& self.branches.len() <= usize::MAX
        &&& self.loops.len() <= usize::MAX
        &&& self.exposures.len() <= usize::MAX
    }

    /// Every identity is its table position, every parent comes before its children, and every
    /// reference stays inside the outline.
    pub open spec fn wf(self) -> bool {
        &&& forall|i: int|
            0 <= i < self.scopes.len() ==> ((#[trigger] self.scopes[i]).parent matches Some(p)
                ==> p.0 < i)
        &&& forall|i: int|
            0 <= i < self.blocks.len() ==> (#[trigger] self.blocks[i]).id.0 == i
                && self.blocks[i].scope.0 < self.scopes.len() && (self.blocks[i].parent matches Some(
                p,
            ) ==> p.0 < i)
        &&& forall|i: int, j: int|
            0 <= i < self.blocks.len() && 0 <= j < self.blocks[i].statements.len() ==> role_fits(
                self,
                (#[trigger] self.blocks[i].statements[j]).kind,
                i,
            )
        &&& forall|i: int|
            0 <= i < self.branches.len() ==> (#[trigger] self.branches[i]).id.0 == i
                && self.branches[i].parent_scope.0 < self.scopes.len()
                && self.branches[i].then_block.0 < self.blocks.len() && (
            self.branches[i].else_block matches Some(e) ==> e.0 < self.blocks.len())
        &&& forall|i: int|
            0 <= i < self.loops.len() ==> (#[trigger] self.loops[i]).id.0 == i
                && self.loops[i].parent_scope.0 < self.scopes.len() && self.loops[i].body.0
                < self.blocks.len()
        &&& forall|i: int|
            0 <= i < self.exposures.len() ==> (#[trigger] self.exposures[i]).id.0 == i
                && self.exposures[i].parent_scope.0 < self.scopes.len() && self.exposures[i].body.0
                < self.blocks.len()
    }
}

/// Every table of `b` begins with that of `a`.
pub open spec fn extends(a: OutlineV, b: OutlineV) -> bool {
    &&& a.scopes.len() <= b.scopes.len()
    &&& a.blocks.len() <= b.blocks.len()
    &&& a.branches.len() <= b.branches.len()
    &&& a.loops.len() <= b.loops.len()
    &&& a.exposures.len() <= b.exposures.len()
    &&& forall|i: int| 0 <= i < a.scopes.len() ==> #[trigger] b.scopes[i] == a.scopes[i]
    &&& forall|i: int| 0 <= i < a.blocks.len() ==> #[trigger] b.blocks[i] == a.blocks[i]
    &&& forall|i: int| 0 <= i < a.branches.len() ==> #[trigger] b.branches[i] == a.branches[i]
    &&& forall|i: int| 0 <= i < a.loops.len() ==> #[trigger] b.loops[i] == a.loops[i]
    &&& forall|i: int| 0 <= i < a.exposures.len() ==> #[trigger] b.exposures[i] == a.exposures[i]
}

pub open spec fn grows(a: OutlineV, b: OutlineV) -> bool {
    &&& a.scopes.len() <= b.scopes.len()
    &&& a.blocks.len() <= b.blocks.len()
    &&& a.branches.len() <= b.branches.len()
    &&& a.loops.len() <= b.loops.len()
    &&& a.exposures.len() <= b.exposures.len()
}

proof fn lemma_block_grows(
    o: OutlineV,
    s: Seq<Stmt>,
    kind: BlockKind,
    anchor: Span,
    parent: Option<BlockId>,
    scope: ScopeId,
)
    ensures
        grows(o, outline_block(o, s, kind, anchor, parent, scope)),
        o.blocks.len() < outline_block(o, s, kind, anchor, parent, scope).blocks.len(),
    decreases s, s.len() + 1,
{
    lemma_prefix_grows(
        reserved_block(o, kind, anchor, parent, scope),
        s,
        s.len(),
        o.next_block(),
        scope,
    );
}

proof fn lemma_prefix_grows(o: OutlineV, s: Seq<Stmt>, n: nat, block: BlockId, scope: ScopeId)
    ensures
        grows(o, outline_prefix(o, s, n, block, scope).0),
    decreases s, n,
{
    if n > 0 && n <= s.len() {
        lemma_prefix_grows(o, s, (n - 1) as nat, block, scope);
        lemma_stmt_grows(
            outline_prefix(o, s, (n - 1) as nat, block, scope).0,
            s[n - 1],
            block,
            scope,
        );
    }
}

proof fn lemma_stmt_grows(o: OutlineV, s: Stmt, parent: BlockId, scope: ScopeId)
    ensures
        grows(o, outline_stmt(o, s, parent, scope).0),
    decreases s, 0nat,
{
    match s {
        Stmt::If { cond, then_block, else_block } => {
            let a = o.with_scope(ScopeKind::BranchArm(BranchArm::Then), cond.span, Some(scope));
            let kind = BlockKind::BranchArm(BranchArm::Then);
            lemma_block_grows(a, then_block@, kind, cond.span, Some(parent), o.next_scope());
            let o1 = outline_block(
                a,
                then_block@,
                kind,
                cond.span,
                Some(parent),
                o.next_scope(),
            );
            match else_block {
                Some(e) => lemma_block_grows(
                    o1.with_scope(ScopeKind::BranchArm(BranchArm::Else), cond.span, Some(scope)),
                    e@,
                    BlockKind::BranchArm(BranchArm::Else),
                    cond.span,
                    Some(parent),
                    o1.next_scope(),
                ),
                None => {},
            }
        },
        Stmt::While { kw_span, body, .. } => lemma_block_grows(
            o.with_scope(ScopeKind::LoopBody, kw_span, Some(scope)),
            body@,
            BlockKind::LoopBody,
            kw_span,
            Some(parent),
            o.next_scope(),
        ),
        Stmt::Unsafe { kw_span, body } => lemma_block_grows(
            o,
            body@,
            BlockKind::Unsafe,
            kw_span,
            Some(parent),
            scope,
        ),
        Stmt::Expose { kw_span, body, .. } => lemma_block_grows(
            o.with_scope(ScopeKind::Exposure, kw_span, Some(scope)),
            body@,
            BlockKind::Exposure,
            kw_span,
            Some(parent),
            o.next_scope(),
        ),
        _ => {},
    }
}

proof fn lemma_block_fits(
    o: OutlineV,
    s: Seq<Stmt>,
    kind: BlockKind,
    anchor: Span,
    parent: Option<BlockId>,
    scope: ScopeId,
)
    requires
        o.wf(),
        outline_block(o, s, kind, anchor, parent, scope).bounded(),
        scope.0 < o.scopes.len(),
        parent matches Some(p) ==> p.0 < o.blocks.len(),
    ensures
        ({
            let r = outline_block(o, s, kind, anchor, parent, scope);
            &&& r.wf()
            &&& extends(o, r)
            &&& o.blocks.len() < r.blocks.len()
            &&& r.blocks[o.blocks.len() as int].flow == block_flow(s)
            &&& r.blocks[o.blocks.len() as int].statements.len() == s.len()
        }),
    decreases s, s.len() + 1,
{
    let id = o.next_block();
    let reserved = reserved_block(o, kind, anchor, parent, scope);
    lemma_prefix_grows(reserved, s, s.len(), id, scope);
    lemma_prefix_fits(reserved, s, s.len(), id, scope);
    let (inner, statements, flow) = outline_prefix(reserved, s, s.len(), id, scope);
    let r = outline_block(o, s, kind, anchor, parent, scope);
    assert forall|i: int, j: int|
        0 <= i < r.blocks.len() && 0 <= j < r.blocks[i].statements.len() implies role_fits(
        r,
        (#[trigger] r.blocks[i].statements[j]).kind,
        i,
    ) by {
        if i == id.0 {
            assert(r.blocks[i].statements[j] == statements[j]);
        } else {
            assert(r.blocks[i] == inner.blocks[i]);
            assert(role_fits(inner, inner.blocks[i].statements[j].kind, i));
        }
    }
    assert forall|i: int| 0 <= i < r.blocks.len() implies (#[trigger] r.blocks[i]).id.0 == i
        && r.blocks[i].scope.0 < r.scopes.len() && (r.blocks[i].parent matches Some(p) ==> p.0
        < i) by {
        if i != id.0 {
            assert(r.blocks[i] == inner.blocks[i]);
        }
    }
    assert forall|i: int| 0 <= i < o.blocks.len() implies #[trigger] r.blocks[i] == o.blocks[i] by {
        assert(inner.blocks[i] == reserved.blocks[i]);
    }
}

proof fn lemma_prefix_fits(o: OutlineV, s: Seq<Stmt>, n: nat, block: BlockId, scope: ScopeId)
    requires
        o.wf(),
        n <= s.len(),
        outline_prefix(o, s, n, block, scope).0.bounded(),
        block.0 < o.blocks.len(),
        scope.0 < o.scopes.len(),
    ensures
        ({
            let (r, plans, flow) = outline_prefix(o, s, n, block, scope);
            &&& r.wf()
            &&& extends(o, r)
            &&& flow == stmts_flow(s, n)
            &&& plans.len() == n
            &&& forall|j: int|
                0 <= j < plans.len() ==> role_fits(
                    r,
                    (#[trigger] plans[j]).kind,
                    block.0 as int,
                )
        }),
    decreases s, n,
{
    if n > 0 {
        let (before, plans, flow) = outline_prefix(o, s, (n - 1) as nat, block, scope);
        lemma_stmt_grows(before, s[n - 1], block, scope);
        lemma_prefix_grows(o, s, (n - 1) as nat, block, scope);
        lemma_prefix_fits(o, s, (n - 1) as nat, block, scope);
        lemma_stmt_fits(before, s[n - 1], block, scope);
        let (after, plan) = outline_stmt(before, s[n - 1], block, scope);
        let all = outline_prefix(o, s, n, block, scope).1;
        assert forall|j: int| 0 <= j < all.len() implies role_fits(
            after,
            (#[trigger] all[j]).kind,
            block.0 as int,
        ) by {
            if j < n - 1 {
                assert(all[j] == plans[j]);
                assert(role_fits(before, plans[j].kind, block.0 as int));
            }
        }
    }
}

proof fn lemma_stmt_fits(o: OutlineV, s: Stmt, parent: BlockId, scope: ScopeId)
    requires
        o.wf(),
        outline_stmt(o, s, parent, scope).0.bounded(),
        parent.0 < o.blocks.len(),
        scope.0 < o.scopes.len(),
    ensures
        ({
            let (r, plan) = outline_stmt(o, s, parent, scope);
            &&& r.wf()
            &&& extends(o, r)
            &&& plan.flow == stmt_flow(s)
            &&& role_fits(r, plan.kind, parent.0 as int)
        }),
    decreases s, 0nat,
{
    let (r, plan) = outline_stmt(o, s, parent, scope);
    match s {
        Stmt::If { cond, then_block, else_block } => {
            let a = o.with_scope(ScopeKind::BranchArm(BranchArm::Then), cond.span, Some(scope));
            let kind = BlockKind::BranchArm(BranchArm::Then);
            lemma_block_grows(a, then_block@, kind, cond.span, Some(parent), o.next_scope());
            let o1 = outline_block(
                a,
                then_block@,
                kind,
                cond.span,
                Some(parent),
                o.next_scope(),
            );
            match else_block {
                Some(e) => {
                    let b = o1.with_scope(
                        ScopeKind::BranchArm(BranchArm::Else),
                        cond.span,
                        Some(scope),
                    );
                    let else_kind = BlockKind::BranchArm(BranchArm::Else);
                    lemma_block_grows(b, e@, else_kind, cond.span, Some(parent), o1.next_scope());
                    assert(a.wf());
                    lemma_block_fits(a, then_block@, kind, cond.span, Some(parent), o.next_scope());
                    assert(b.wf());
                    lemma_block_fits(b, e@, else_kind, cond.span, Some(parent), o1.next_scope());
                    let o2 = outline_block(
                        b,
                        e@,
                        else_kind,
                        cond.span,
                        Some(parent),
                        o1.next_scope(),
                    );
                    assert(o2.blocks[o.blocks.len() as int] == o1.blocks[o.blocks.len() as int]);
                    lemma_pushed(o2, r);
                },
                None => {
                    assert(a.wf());
                    lemma_block_fits(a, then_block@, kind, cond.span, Some(parent), o.next_scope());
                    lemma_pushed(o1, r);
                },
            }
        },
        Stmt::While { kw_span, body, .. } => {
            let a = o.with_scope(ScopeKind::LoopBody, kw_span, Some(scope));
            lemma_block_grows(
                a,
                body@,
                BlockKind::LoopBody,
                kw_span,
                Some(parent),
                o.next_scope(),
            );
            assert(a.wf());
            lemma_block_fits(
                a,
                body@,
                BlockKind::LoopBody,
                kw_span,
                Some(parent),
                o.next_scope(),
            );
            lemma_pushed(
                outline_block(
                    a,
                    body@,
                    BlockKind::LoopBody,
                    kw_span,
                    Some(parent),
                    o.next_scope(),
                ),
                r,
            );
        },
        Stmt::Unsafe { kw_span, body } => {
            lemma_block_fits(o, body@, BlockKind::Unsafe, kw_span, Some(parent), scope);
        },
        Stmt::Expose { kw_span, body, .. } => {
            let a = o.with_scope(ScopeKind::Exposure, kw_span, Some(scope));
            lemma_block_grows(
                a,
                body@,
                BlockKind::Exposure,
                kw_span,
                Some(parent),
                o.next_scope(),
            );
            assert(a.wf());
            lemma_block_fits(
                a,
                body@,
                BlockKind::Exposure,
                kw_span,
                Some(parent),
                o.next_scope(),
            );
            lemma_pushed(
                outline_block(
                    a,
                    body@,
                    BlockKind::Exposure,
                    kw_span,
                    Some(parent),
                    o.next_scope(),
                ),
                r,
            );
        },
        _ => {},
    }
}

/// Adding one edge keeps what the roles of the statements name.
proof fn lemma_pushed(a: OutlineV, b: OutlineV)
    requires
        a.wf(),
        extends(a, b),
        b.blocks == a.blocks,
        b.scopes == a.scopes,
        forall|i: int|
            0 <= i < b.branches.len() ==> (#[trigger] b.branches[i]).id.0 == i
                && b.branches[i].parent_scope.0 < b.scopes.len() && b.branches[i].then_block.0
                < b.blocks.len() && (b.branches[i].else_block matches Some(e) ==> e.0
                < b.blocks.len()),
        forall|i: int|
            0 <= i < b.loops.len() ==> (#[trigger] b.loops[i]).id.0 == i
                && b.loops[i].parent_scope.0 < b.scopes.len() && b.loops[i].body.0
                < b.blocks.len(),
        forall|i: int|
            0 <= i < b.exposures.len() ==> (#[trigger] b.exposures[i]).id.0 == i
                && b.exposures[i].parent_scope.0 < b.scopes.len() && b.exposures[i].body.0
                < b.blocks.len(),
    ensures
        b.wf(),
{
    assert forall|i: int, j: int|
        0 <= i < b.blocks.len() && 0 <= j < b.blocks[i].statements.len() implies role_fits(
        b,
        (#[trigger] b.blocks[i].statements[j]).kind,
        i,
    ) by {
        assert(role_fits(a, a.blocks[i].statements[j].kind, i));
    }
}

/// In every outline, identities are table positions, parents precede their children, references
/// stay inside the outline, and the body block has the body's statements and the body's flow.
pub proof fn law_outline_is_well_formed(owner: OwnerV, declaration_span: Span, body: Seq<Stmt>)
    requires
        outline_of(owner, declaration_span, body).bounded(),
    ensures
        outline_of(owner, declaration_span, body).wf(),
        outline_of(owner, declaration_span, body).scopes.len() >= 2,
        outline_of(owner, declaration_span, body).blocks.len() >= 1,
        outline_of(owner, declaration_span, body).blocks[0].flow == block_flow(body),
        outline_of(owner, declaration_span, body).blocks[0].statements.len() == body.len(),
{
    let o = empty_outline(owner, declaration_span).with_scope(
        ScopeKind::Frame,
        declaration_span,
        None,
    ).with_scope(ScopeKind::Body, declaration_span, Some(ScopeId(0)));
    let r = outline_block(o, body, BlockKind::Body, declaration_span, None, ScopeId(1));
    assert(outline_of(owner, declaration_span, body).blocks == r.blocks);
    assert(r.bounded());
    assert(o.wf());
    lemma_block_fits(o, body, BlockKind::Body, declaration_span, None, ScopeId(1));
    let all = outline_of(owner, declaration_span, body);
    assert forall|i: int, j: int|
        0 <= i < all.blocks.len() && 0 <= j < all.blocks[i].statements.len() implies role_fits(
        all,
        (#[trigger] all.blocks[i].statements[j]).kind,
        i,
    ) by {
        assert(role_fits(r, r.blocks[i].statements[j].kind, i));
    }
}

/// A block that the step from `o` to `r` added under `parent`, in a scope that it added under
/// `scope`.
pub open spec fn fresh_child(
    o: OutlineV,
    r: OutlineV,
    b: BlockId,
    parent: BlockId,
    scope: ScopeId,
) -> bool {
    &&& o.blocks.len() <= b.0 < r.blocks.len()
    &&& r.blocks[b.0 as int].parent == Some(parent)
    &&& o.scopes.len() <= r.blocks[b.0 as int].scope.0 < r.scopes.len()
    &&& r.scopes[r.blocks[b.0 as int].scope.0 as int].parent == Some(scope)
}

/// What the role of a statement names: an unsafe block shares the scope around it, and every other
/// nested block is new and lies in a new scope.
pub open spec fn role_nests(
    o: OutlineV,
    r: OutlineV,
    kind: StatementPlanKind,
    parent: BlockId,
    scope: ScopeId,
) -> bool {
    match kind {
        StatementPlanKind::Unsafe(b) => o.blocks.len() <= b.0 < r.blocks.len()
            && r.blocks[b.0 as int].scope == scope && r.blocks[b.0 as int].parent == Some(parent),
        StatementPlanKind::Branch(id) => id.0 < r.branches.len() && fresh_child(
            o,
            r,
            r.branches[id.0 as int].then_block,
            parent,
            scope,
        ) && (r.branches[id.0 as int].else_block matches Some(e) ==> fresh_child(
            o,
            r,
            e,
            parent,
            scope,
        )),
        StatementPlanKind::Loop(id) => id.0 < r.loops.len() && fresh_child(
            o,
            r,
            r.loops[id.0 as int].body,
            parent,
            scope,
        ),
        StatementPlanKind::Exposure(id) => id.0 < r.exposures.len() && fresh_child(
            o,
            r,
            r.exposures[id.0 as int].body,
            parent,
            scope,
        ),
        _ => true,
    }
}

/// The header of a block is what it was asked to be.
proof fn lemma_block_header(
    o: OutlineV,
    s: Seq<Stmt>,
    kind: BlockKind,
    anchor: Span,
    parent: Option<BlockId>,
    scope: ScopeId,
)
    requires
        outline_block(o, s, kind, anchor, parent, scope).bounded(),
    ensures
        ({
            let r = outline_block(o, s, kind, anchor, parent, scope);
            let b = r.blocks[o.blocks.len() as int];
            &&& o.blocks.len() < r.blocks.len()
            &&& o.next_block().0 == o.blocks.len()
            &&& b.parent == parent
            &&& b.scope == scope
            &&& b.kind == kind
            &&& b.anchor == anchor
        }),
{
    lemma_block_grows(o, s, kind, anchor, parent, scope);
    let reserved = reserved_block(o, kind, anchor, parent, scope);
    lemma_prefix_grows(reserved, s, s.len(), o.next_block(), scope);
}

/// What one statement adds to an outline: its flow is that of the statement, what was there stays,
/// and the blocks that it brings lie under the block and the scope that it stands in.
pub proof fn law_statement_extends_the_outline(
    o: OutlineV,
    s: Stmt,
    parent: BlockId,
    scope: ScopeId,
)
    requires
        o.wf(),
        outline_stmt(o, s, parent, scope).0.bounded(),
        parent.0 < o.blocks.len(),
        scope.0 < o.scopes.len(),
    ensures
        ({
            let (r, plan) = outline_stmt(o, s, parent, scope);
            &&& plan.flow == stmt_flow(s)
            &&& plan.entry_reachable
            &&& extends(o, r)
            &&& r.wf()
            &&& (plan.kind is Branch) == (s is If)
            &&& (plan.kind is Loop) == (s is While)
            &&& (plan.kind is Exposure) == (s is Expose)
            &&& (plan.kind is Unsafe) == (s is Unsafe)
            &&& (plan.kind is Return) == (s is Return)
            &&& role_nests(o, r, plan.kind, parent, scope)
        }),
{
    lemma_stmt_fits(o, s, parent, scope);
    let (r, plan) = outline_stmt(o, s, parent, scope);
    match s {
        Stmt::If { cond, then_block, else_block } => {
            let a = o.with_scope(ScopeKind::BranchArm(BranchArm::Then), cond.span, Some(scope));
            let kind = BlockKind::BranchArm(BranchArm::Then);
            let o1 = outline_block(a, then_block@, kind, cond.span, Some(parent), o.next_scope());
            lemma_block_grows(a, then_block@, kind, cond.span, Some(parent), o.next_scope());
            assert(a.wf());
            match else_block {
                Some(e) => {
                    let b = o1.with_scope(
                        ScopeKind::BranchArm(BranchArm::Else),
                        cond.span,
                        Some(scope),
                    );
                    let else_kind = BlockKind::BranchArm(BranchArm::Else);
                    let o2 = outline_block(
                        b,
                        e@,
                        else_kind,
                        cond.span,
                        Some(parent),
                        o1.next_scope(),
                    );
                    lemma_block_grows(b, e@, else_kind, cond.span, Some(parent), o1.next_scope());
                    lemma_block_header(
                        a,
                        then_block@,
                        kind,
                        cond.span,
                        Some(parent),
                        o.next_scope(),
                    );
                    lemma_block_header(b, e@, else_kind, cond.span, Some(parent), o1.next_scope());
                    lemma_block_fits(a, then_block@, kind, cond.span, Some(parent), o.next_scope());
                    assert(b.wf());
                    lemma_block_fits(b, e@, else_kind, cond.span, Some(parent), o1.next_scope());
                    assert(o2.blocks[o.blocks.len() as int] == o1.blocks[o.blocks.len() as int]);
                    assert(a.scopes[o.scopes.len() as int].parent == Some(scope));
                    assert(o1.scopes[o.scopes.len() as int] == a.scopes[o.scopes.len() as int]);
                    assert(o2.scopes[o.scopes.len() as int] == o1.scopes[o.scopes.len() as int]);
                    assert(b.scopes[o1.scopes.len() as int].parent == Some(scope));
                    assert(o2.scopes[o1.scopes.len() as int] == b.scopes[o1.scopes.len() as int]);
                },
                None => {
                    lemma_block_header(
                        a,
                        then_block@,
                        kind,
                        cond.span,
                        Some(parent),
                        o.next_scope(),
                    );
                    lemma_block_fits(a, then_block@, kind, cond.span, Some(parent), o.next_scope());
                    assert(o1.scopes[o.scopes.len() as int] == a.scopes[o.scopes.len() as int]);
                },
            }
        },
        Stmt::While { kw_span, body, .. } => {
            let a = o.with_scope(ScopeKind::LoopBody, kw_span, Some(scope));
            let kind = BlockKind::LoopBody;
            assert(a.wf());
            lemma_block_header(a, body@, kind, kw_span, Some(parent), o.next_scope());
            lemma_block_grows(a, body@, kind, kw_span, Some(parent), o.next_scope());
            lemma_block_fits(a, body@, kind, kw_span, Some(parent), o.next_scope());
            let o1 = outline_block(a, body@, kind, kw_span, Some(parent), o.next_scope());
            assert(o1.scopes[o.scopes.len() as int] == a.scopes[o.scopes.len() as int]);
        },
        Stmt::Unsafe { kw_span, body } => {
            lemma_block_header(o, body@, BlockKind::Unsafe, kw_span, Some(parent), scope);
        },
        Stmt::Expose { kw_span, body, .. } => {
            let a = o.with_scope(ScopeKind::Exposure, kw_span, Some(scope));
            let kind = BlockKind::Exposure;
            assert(a.wf());
            lemma_block_header(a, body@, kind, kw_span, Some(parent), o.next_scope());
            lemma_block_grows(a, body@, kind, kw_span, Some(parent), o.next_scope());
            lemma_block_fits(a, body@, kind, kw_span, Some(parent), o.next_scope());
            let o1 = outline_block(a, body@, kind, kw_span, Some(parent), o.next_scope());
            assert(o1.scopes[o.scopes.len() as int] == a.scopes[o.scopes.len() as int]);
        },
        _ => {},
    }
}

} // verus!
