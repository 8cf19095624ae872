//! What holds of every sealed plan: it keeps its outline, an exit clears whatever it destroys, and
//! a normal edge is there exactly where its body falls through.
use vstd::prelude::*;

use crate::ast::{Param, Stmt, Ty};
use crate::builder::{literal_elements, walk_from, walk_stmt, BuilderV};
use crate::drops::{drop_action_of, ErrV, ExitKind, RouteV};
use crate::flow::FlowSummary;
use crate::lookup::{scope_at, scope_from};
use crate::outline::{
    outline_of, BlockId, BlockV, BranchArm, BranchId, DropId, ExposureId, LoopId, OutlineV, ScopeId,
    ScopeKind, StatementPlanKind,
};
use crate::outline_laws::law_outline_is_well_formed;
use crate::place::{local_place, PlaceV};
use crate::plan::{
    ArmV, BranchV, CandidateV, CompilerTempKind, ExposureV, LoopV, PlanV, ScopeEntry, ScopeV,
};
use crate::seal::{
    bare_plan, declare_params, enter_scopes, retain_traps, seal_block, seal_branch, seal_exposure,
    seal_from, seal_loop, seal_stmt, seal_traps, sealed,
};
use crate::span::Span;
use crate::traps::TrapKeyV;

verus! {

// ------------------------------------------------------------------------------------------
// What planning keeps
// ------------------------------------------------------------------------------------------

/// The candidate that a scope destroys at position `d` is in the table, and its place is one of
/// the places that die with the scope.
pub open spec fn drop_is_local(s: ScopeV, candidates: Seq<CandidateV>, d: int) -> bool {
    &&& s.drops[d].0 < candidates.len()
    &&& s.locals.contains(candidates[s.drops[d].0 as int].place)
}

/// Every scope destroys only what dies with it. The table of candidates fits its identities.
#[verifier::opaque]
pub open spec fn covered(scopes: Seq<ScopeV>, candidates: Seq<CandidateV>) -> bool {
    candidates.len() <= usize::MAX ==> forall|s: int, d: int|
        0 <= s < scopes.len() && 0 <= d < scopes[s].drops.len() ==> #[trigger] drop_is_local(
            scopes[s],
            candidates,
            d,
        )
}

/// The index of scopes names scopes of the plan, and they are covered.
#[verifier::opaque]
pub open spec fn settled(p: PlanV) -> bool {
    &&& forall|i: int|
        0 <= i < p.scope_ids.len() ==> (#[trigger] p.scope_ids[i]).id.0 < p.scopes.len()
    &&& covered(p.scopes, p.candidates)
}

/// The same branches, loops and exposures are sealed.
pub open spec fn same_edges(a: PlanV, b: PlanV) -> bool {
    b.branches == a.branches && b.loops == a.loops && b.exposures == a.exposures
}

/// What a step of planning in `scope` keeps.
pub open spec fn keeps(a: PlanV, b: PlanV, scope: ScopeId) -> bool {
    &&& b.owner == a.owner
    &&& b.blocks == a.blocks
    &&& b.body_block == a.body_block
    &&& b.body_scope == a.body_scope
    &&& b.frame_scope == a.frame_scope
    &&& b.scope_ids == a.scope_ids
    &&& same_edges(a, b)
    &&& a.candidates.len() <= b.candidates.len()
    &&& settled(a) && scope.0 < a.scopes.len() ==> settled(b) && b.scopes.len() == a.scopes.len()
}

proof fn lemma_one_more<A>(s: Seq<A>, x: A)
    ensures
        s.push(x).contains(x),
        forall|y: A| s.contains(y) ==> #[trigger] s.push(x).contains(y),
{
    assert(s.push(x)[s.len() as int] == x);
    assert forall|y: A| s.contains(y) implies #[trigger] s.push(x).contains(y) by {
        let k = s.index_of(y);
        assert(s.push(x)[k] == y);
    }
}

/// A scope with one more place is still covered.
proof fn lemma_more_locals(scopes: Seq<ScopeV>, candidates: Seq<CandidateV>, i: int, s: ScopeV)
    requires
        0 <= i < scopes.len(),
        covered(scopes, candidates),
        s.drops == scopes[i].drops,
        forall|y: PlaceV| scopes[i].locals.contains(y) ==> s.locals.contains(y),
    ensures
        covered(scopes.update(i, s), candidates),
{
    reveal(covered);
    if candidates.len() <= usize::MAX {
        let next = scopes.update(i, s);
        assert forall|k: int, d: int|
            0 <= k < next.len() && 0 <= d < next[k].drops.len() implies #[trigger] drop_is_local(
            next[k],
            candidates,
            d,
        ) by {
            assert(drop_is_local(scopes[k], candidates, d));
        }
    }
}

/// A scope that destroys one more of its own places is still covered.
proof fn lemma_more_drops(
    scopes: Seq<ScopeV>,
    candidates: Seq<CandidateV>,
    i: int,
    s: ScopeV,
    c: CandidateV,
)
    requires
        0 <= i < scopes.len(),
        covered(scopes, candidates),
        s.drops == scopes[i].drops.push(DropId(candidates.len() as usize)),
        s.locals == scopes[i].locals,
        s.locals.contains(c.place),
    ensures
        covered(scopes.update(i, s), candidates.push(c)),
{
    reveal(covered);
    let table = candidates.push(c);
    if table.len() <= usize::MAX {
        let next = scopes.update(i, s);
        assert forall|k: int, d: int|
            0 <= k < next.len() && 0 <= d < next[k].drops.len() implies #[trigger] drop_is_local(
            next[k],
            table,
            d,
        ) by {
            if k == i && d == scopes[i].drops.len() {
                assert(table[candidates.len() as int] == c);
            } else {
                assert(drop_is_local(scopes[k], candidates, d));
            }
        }
    }
}

proof fn lemma_reserve_keeps(b: BuilderV, scope: ScopeId, name: Seq<char>, ty: Ty, span: Span)
    ensures
        keeps(b.plan, b.reserve(scope, name, ty, span).1.plan, scope),
        b.reserve(scope, name, ty, span).1.plan.candidates == b.plan.candidates,
        b.reserve(scope, name, ty, span).0 is Ok && scope.0 < b.plan.scopes.len() ==> b.reserve(
            scope,
            name,
            ty,
            span,
        ).1.plan.scopes[scope.0 as int].locals.contains(local_place(name)),
{
    reveal(settled);
    if scope.0 < b.plan.scopes.len() {
        let s = b.plan.scopes[scope.0 as int];
        lemma_one_more(s.locals, local_place(name));
        if settled(b.plan) && b.reserve(scope, name, ty, span).0 is Ok {
            let after = b.reserve(scope, name, ty, span).1.plan;
            lemma_more_locals(
                b.plan.scopes,
                b.plan.candidates,
                scope.0 as int,
                after.scopes[scope.0 as int],
            );
        }
    }
}

proof fn lemma_declare_keeps(b: BuilderV, scope: ScopeId, name: Seq<char>, ty: Ty, span: Span)
    ensures
        keeps(b.plan, b.declare(scope, name, ty, span).1.plan, scope),
{
    reveal(settled);
    lemma_reserve_keeps(b, scope, name, ty, span);
    let (r, next) = b.reserve(scope, name, ty, span);
    if r is Ok && settled(b.plan) && scope.0 < b.plan.scopes.len() {
        match drop_action_of(ty, span) {
            Ok(Some(_)) => {
                let after = b.declare(scope, name, ty, span).1.plan;
                lemma_more_drops(
                    next.plan.scopes,
                    next.plan.candidates,
                    scope.0 as int,
                    after.scopes[scope.0 as int],
                    after.candidates[next.plan.candidates.len() as int],
                );
            },
            _ => {},
        }
    }
}

proof fn lemma_temp_keeps(
    b: BuilderV,
    scope: ScopeId,
    anchor: Span,
    kind: CompilerTempKind,
    clear_with_scope: bool,
)
    ensures
        keeps(b.plan, b.compiler_temp(scope, anchor, kind, clear_with_scope).1.plan, scope),
{
    reveal(settled);
    let (r, next) = b.compiler_temp(scope, anchor, kind, clear_with_scope);
    if r is Ok && clear_with_scope && scope.0 < b.plan.scopes.len() && settled(b.plan) {
        let s = next.plan.scopes[scope.0 as int];
        lemma_one_more(b.plan.scopes[scope.0 as int].locals, s.locals.last());
        lemma_more_locals(b.plan.scopes, b.plan.candidates, scope.0 as int, s);
    }
}

proof fn lemma_literal_keeps(b: BuilderV, scope: ScopeId, span: Span, i: nat, n: nat)
    ensures
        keeps(b.plan, b.literal_temps(scope, span, i, n).1.plan, scope),
    decreases n - i,
{
    if i < n {
        let kind = CompilerTempKind::BoolLiteralElement(i as usize);
        lemma_temp_keeps(b, scope, span, kind, true);
        match b.compiler_temp(scope, span, kind, true) {
            (Ok(_), next) => lemma_literal_keeps(next, scope, span, i + 1, n),
            (Err(_), _) => {},
        }
    }
}

proof fn lemma_pair_keeps(
    b: BuilderV,
    scope: ScopeId,
    ptr: Seq<char>,
    ptr_span: Span,
    res: Seq<char>,
    res_span: Span,
)
    ensures
        keeps(b.plan, b.raw_pair(scope, ptr, ptr_span, res, res_span).1.plan, scope),
{
    let raw = Ty::Raw(crate::ast::IntTy::U8);
    lemma_reserve_keeps(b, scope, ptr, raw, ptr_span);
    let next = b.reserve(scope, ptr, raw, ptr_span).1;
    lemma_reserve_keeps(next, scope, res, Ty::Res(crate::ast::ResKind::RawSpan), res_span);
}

proof fn lemma_exposure_keeps(
    b: BuilderV,
    scope: ScopeId,
    kw_span: Span,
    ptr: Seq<char>,
    ptr_span: Span,
    res: Seq<char>,
    res_span: Span,
)
    ensures
        keeps(
            b.plan,
            b.exposure_entry(scope, kw_span, ptr, ptr_span, res, res_span).1.plan,
            scope,
        ),
{
    lemma_pair_keeps(b, scope, ptr, ptr_span, res, res_span);
    let b1 = b.raw_pair(scope, ptr, ptr_span, res, res_span).1;
    lemma_temp_keeps(b1, scope, kw_span, CompilerTempKind::ExposureLoan, false);
    let b2 = b1.compiler_temp(scope, kw_span, CompilerTempKind::ExposureLoan, false).1;
    lemma_temp_keeps(b2, scope, kw_span, CompilerTempKind::ExposureIndex, false);
    let b3 = b2.compiler_temp(scope, kw_span, CompilerTempKind::ExposureIndex, false).1;
    lemma_temp_keeps(b3, scope, kw_span, CompilerTempKind::ExposureByte, false);
}

/// A scope that the index names is one of the entries.
proof fn lemma_scope_is_entered(ids: Seq<ScopeEntry>, kind: ScopeKind, anchor: Span, i: nat)
    ensures
        scope_from(ids, kind, anchor, i) matches Some(id) ==> exists|k: int|
            0 <= k < ids.len() && (#[trigger] ids[k]).id == id,
    decreases ids.len() - i,
{
    if i < ids.len() {
        lemma_scope_is_entered(ids, kind, anchor, i + 1);
        if ids[i as int].kind == kind && ids[i as int].anchor == anchor {
            assert(ids[i as int].id == scope_from(ids, kind, anchor, i)->Some_0);
        }
    }
}

proof fn lemma_indexed_scope(p: PlanV, kind: ScopeKind, anchor: Span)
    ensures
        settled(p) && scope_at(p.scope_ids, kind, anchor) is Some ==> scope_at(
            p.scope_ids,
            kind,
            anchor,
        )->Some_0.0 < p.scopes.len(),
{
    reveal(settled);
    lemma_scope_is_entered(p.scope_ids, kind, anchor, 0);
}

/// A statement that opens no block and declares nothing touches neither blocks nor scopes.
proof fn lemma_leaf_keeps(b: BuilderV, s: Stmt, scope: ScopeId, exposed: bool)
    requires
        s is Assign || s is ExprStmt || s is FieldAssign || s is Return,
    ensures
        keeps(b.plan, walk_stmt(b, s, scope, exposed).1.plan, scope),
{
    reveal(settled);
}

/// Planning statements keeps the blocks, and what dies with each scope stays ahead of what is
/// destroyed with it.
pub proof fn lemma_walk_keeps(
    b: BuilderV,
    s: Seq<Stmt>,
    i: nat,
    scope: ScopeId,
    exposed: bool,
)
    ensures
        keeps(b.plan, walk_from(b, s, i, scope, exposed).1.plan, scope),
    decreases s, s.len() - i,
{
    if i < s.len() {
        lemma_walk_stmt_keeps(b, s[i as int], scope, exposed);
        match walk_stmt(b, s[i as int], scope, exposed) {
            (Ok(_), next) => lemma_walk_keeps(next, s, i + 1, scope, exposed),
            (Err(_), _) => {},
        }
    }
}

proof fn lemma_walk_stmt_keeps(b: BuilderV, s: Stmt, scope: ScopeId, exposed: bool)
    ensures
        keeps(b.plan, walk_stmt(b, s, scope, exposed).1.plan, scope),
    decreases s, 0nat,
{
    match s {
        Stmt::Decl { name, ty, name_span, init, .. } => {
            lemma_declare_keeps(b, scope, name@, ty, name_span);
            match (b.declare(scope, name@, ty, name_span), literal_elements(ty, init)) {
                ((Ok(_), next), Some((span, n))) => lemma_literal_keeps(next, scope, span, 0, n),
                _ => {},
            }
        },
        Stmt::VarDecl { name, ty, name_span, init, .. } => {
            if let Some(t) = ty {
                lemma_declare_keeps(b, scope, name@, t, name_span);
                match (b.declare(scope, name@, t, name_span), literal_elements(t, Some(init))) {
                    ((Ok(_), next), Some((span, n))) => lemma_literal_keeps(
                        next,
                        scope,
                        span,
                        0,
                        n,
                    ),
                    _ => {},
                }
            }
        },
        Stmt::If { cond, then_block, else_block } => {
            let then_kind = ScopeKind::BranchArm(BranchArm::Then);
            let else_kind = ScopeKind::BranchArm(BranchArm::Else);
            lemma_indexed_scope(b.plan, then_kind, cond.span);
            match b.outlined_scope(then_kind, cond.span, scope) {
                Ok(then_scope) => {
                    lemma_walk_keeps(b, then_block@, 0, then_scope, exposed);
                    lemma_indexed_scope(
                        walk_from(b, then_block@, 0, then_scope, exposed).1.plan,
                        else_kind,
                        cond.span,
                    );
                    match (walk_from(b, then_block@, 0, then_scope, exposed), else_block) {
                        ((Ok(_), next), Some(e)) => match next.outlined_scope(
                            else_kind,
                            cond.span,
                            scope,
                        ) {
                            Ok(else_scope) => lemma_walk_keeps(next, e@, 0, else_scope, exposed),
                            Err(_) => {},
                        },
                        _ => {},
                    }
                },
                Err(_) => {},
            }
        },
        Stmt::While { kw_span, body, .. } => {
            lemma_indexed_scope(b.plan, ScopeKind::LoopBody, kw_span);
            match b.outlined_scope(ScopeKind::LoopBody, kw_span, scope) {
                Ok(body_scope) => lemma_walk_keeps(b, body@, 0, body_scope, exposed),
                Err(_) => {},
            }
        },
        Stmt::Unsafe { body, .. } => lemma_walk_keeps(b, body@, 0, scope, exposed),
        Stmt::Expose { kw_span, ptr, ptr_span, res, res_span, body, .. } => {
            lemma_indexed_scope(b.plan, ScopeKind::Exposure, kw_span);
            match b.outlined_scope(ScopeKind::Exposure, kw_span, scope) {
                Ok(exposure) => {
                    lemma_exposure_keeps(b, exposure, kw_span, ptr@, ptr_span, res@, res_span);
                    match b.exposure_entry(exposure, kw_span, ptr@, ptr_span, res@, res_span) {
                        (Ok(_), next) => lemma_walk_keeps(next, body@, 0, exposure, true),
                        (Err(_), _) => {},
                    }
                },
                Err(_) => {},
            }
        },
        Stmt::StaticAlloc { ptr, ptr_span, res, res_span, .. } => lemma_pair_keeps(
            b,
            scope,
            ptr@,
            ptr_span,
            res@,
            res_span,
        ),
        Stmt::SystemAlloc { ptr, ptr_span, res, res_span, release, release_span, .. } => {
            lemma_pair_keeps(b, scope, ptr@, ptr_span, res@, res_span);
            let next = b.raw_pair(scope, ptr@, ptr_span, res@, res_span).1;
            lemma_reserve_keeps(
                next,
                scope,
                release@,
                Ty::Res(crate::ast::ResKind::SystemDealloc),
                release_span,
            );
        },
        Stmt::Assign { .. } => lemma_leaf_keeps(b, s, scope, exposed),
        Stmt::ExprStmt(_) => lemma_leaf_keeps(b, s, scope, exposed),
        Stmt::FieldAssign { .. } => lemma_leaf_keeps(b, s, scope, exposed),
        Stmt::Return { .. } => lemma_leaf_keeps(b, s, scope, exposed),
        _ => {},
    }
}

proof fn lemma_params_keep(b: BuilderV, frame: ScopeId, params: Seq<Param>, i: nat)
    ensures
        keeps(b.plan, declare_params(b, frame, params, i).1.plan, frame),
    decreases params.len() - i,
{
    if i < params.len() {
        let p = params[i as int];
        lemma_declare_keeps(b, frame, p.name@, p.ty, p.span);
        match b.declare(frame, p.name@, p.ty, p.span) {
            (Ok(_), next) => lemma_params_keep(next, frame, params, i + 1),
            (Err(_), _) => {},
        }
    }
}

// ------------------------------------------------------------------------------------------
// What sealing keeps
// ------------------------------------------------------------------------------------------

/// What sealing edges and traps leaves alone.
pub open spec fn same_base(a: PlanV, b: PlanV) -> bool {
    &&& b.owner == a.owner
    &&& b.blocks == a.blocks
    &&& b.body_block == a.body_block
    &&& b.body_scope == a.body_scope
    &&& b.frame_scope == a.frame_scope
    &&& b.scopes == a.scopes
    &&& b.scope_ids == a.scope_ids
    &&& b.candidates == a.candidates
    &&& b.candidate_ids == a.candidate_ids
}

proof fn lemma_seal_block_keeps(p: PlanV, o: OutlineV, s: Seq<Stmt>, block: BlockId)
    ensures
        same_base(p, seal_block(p, o, s, block).1),
    decreases s, s.len() + 1,
{
    lemma_seal_from_keeps(p, o, s, 0, block);
}

proof fn lemma_seal_from_keeps(p: PlanV, o: OutlineV, s: Seq<Stmt>, i: nat, block: BlockId)
    ensures
        same_base(p, seal_from(p, o, s, i, block).1),
    decreases s, s.len() - i,
{
    if i < s.len() {
        let kind = o.blocks[block.0 as int].statements[i as int].kind;
        lemma_seal_stmt_keeps(p, o, s[i as int], kind, block);
        match seal_stmt(p, o, s[i as int], kind, block) {
            (Ok(_), next) => lemma_seal_from_keeps(next, o, s, i + 1, block),
            (Err(_), _) => {},
        }
    }
}

proof fn lemma_seal_stmt_keeps(
    p: PlanV,
    o: OutlineV,
    s: Stmt,
    kind: StatementPlanKind,
    block: BlockId,
)
    ensures
        same_base(p, seal_stmt(p, o, s, kind, block).1),
    decreases s, 0nat,
{
    match (kind, s) {
        (StatementPlanKind::Branch(id), Stmt::If { then_block, else_block, .. }) => {
            let source = o.branches[id.0 as int];
            lemma_seal_block_keeps(p, o, then_block@, source.then_block);
            match seal_block(p, o, then_block@, source.then_block) {
                (Ok(_), next) => match (else_block, source.else_block) {
                    (Some(e), Some(child)) => lemma_seal_block_keeps(next, o, e@, child),
                    _ => {},
                },
                (Err(_), _) => {},
            }
        },
        (StatementPlanKind::Loop(id), Stmt::While { body, .. }) => lemma_seal_block_keeps(
            p,
            o,
            body@,
            o.loops[id.0 as int].body,
        ),
        (StatementPlanKind::Exposure(id), Stmt::Expose { body, .. }) => lemma_seal_block_keeps(
            p,
            o,
            body@,
            o.exposures[id.0 as int].body,
        ),
        (StatementPlanKind::Unsafe(child), Stmt::Unsafe { body, .. }) => lemma_seal_block_keeps(
            p,
            o,
            body@,
            child,
        ),
        _ => {},
    }
}

proof fn lemma_traps_keep(p: PlanV, keys: Seq<TrapKeyV>, i: nat)
    ensures
        same_base(p, retain_traps(p, keys, i).1),
        same_edges(p, retain_traps(p, keys, i).1),
    decreases keys.len() - i,
{
    if i < keys.len() {
        let next = PlanV {
            trap_sites: p.trap_sites.push(
                crate::traps::TrapSiteV {
                    key: keys[i as int],
                    route: crate::drops::trap_route_v(),
                },
            ),
            ..p
        };
        lemma_traps_keep(next, keys, i + 1);
    }
}

/// The scopes of an outline are entered one for one, and none of them destroys anything yet.
proof fn lemma_scopes_entered(
    o: OutlineV,
    i: nat,
    scopes: Seq<ScopeV>,
    ids: Seq<ScopeEntry>,
)
    requires
        i <= o.scopes.len(),
        scopes.len() == i,
        forall|k: int| 0 <= k < scopes.len() ==> (#[trigger] scopes[k]).drops.len() == 0,
        forall|k: int| 0 <= k < ids.len() ==> (#[trigger] ids[k]).id.0 < o.scopes.len(),
    ensures
        enter_scopes(o, i, scopes, ids) matches Ok((all, entered)) ==> all.len() == o.scopes.len()
            && (forall|k: int| 0 <= k < all.len() ==> (#[trigger] all[k]).drops.len() == 0) && (
        forall|k: int|
            0 <= k < entered.len() ==> (#[trigger] entered[k]).id.0 < o.scopes.len()),
    decreases o.scopes.len() - i,
{
    if i < o.scopes.len() {
        let s = o.scopes[i as int];
        lemma_scopes_entered(
            o,
            i + 1,
            scopes.push(
                ScopeV {
                    parent: s.parent,
                    kind: s.kind,
                    anchor: s.anchor,
                    locals: Seq::empty(),
                    bindings: Seq::empty(),
                    drops: Seq::empty(),
                },
            ),
            ids.push(ScopeEntry { kind: s.kind, anchor: s.anchor, id: ScopeId(i as usize) }),
        );
    }
}

/// The plan that a body is sealed into has the tables of its outline, and is settled.
proof fn lemma_sealed(o: OutlineV, params: Seq<Param>, body: Seq<Stmt>)
    ensures
        sealed(o, params, body) matches Ok(p) ==> {
            &&& outline_of(o.owner, o.declaration_span, body) == o
            &&& p.owner == o.owner
            &&& p.blocks == o.blocks
            &&& p.body_block == o.body_block
            &&& p.body_scope == o.body_scope
            &&& p.frame_scope == o.frame_scope
            &&& p.check_shape(Some(params), body) is Ok
            &&& o.frame_scope.0 < o.scopes.len() && o.body_scope.0 < o.scopes.len() ==> settled(p)
                && p.scopes.len() == o.scopes.len()
        },
{
    if sealed(o, params, body) is Ok {
        lemma_scopes_entered(o, 0, Seq::empty(), Seq::empty());
        let (scopes, ids) = enter_scopes(o, 0, Seq::empty(), Seq::empty())->Ok_0;
        let b = BuilderV { plan: bare_plan(o, scopes, ids), bindings: Seq::empty() };
        assert(settled(b.plan)) by {
            reveal(settled);
            reveal(covered);
        }
        lemma_params_keep(b, o.frame_scope, params, 0);
        let declared = declare_params(b, o.frame_scope, params, 0).1;
        lemma_walk_keeps(declared, body, 0, o.body_scope, false);
        let walked = walk_from(declared, body, 0, o.body_scope, false).1.plan;
        lemma_seal_block_keeps(walked, o, body, o.body_block);
        let edged = seal_block(walked, o, body, o.body_block).1;
        let inv = crate::inventory::inv_from(
            edged,
            crate::inventory::root_inventory(edged),
            body,
            0,
            edged.body_scope,
        ).1;
        lemma_traps_keep(edged, inv.traps, 0);
        assert(seal_traps(edged, body) == retain_traps(edged, inv.traps, 0));
        let p = seal_traps(edged, body).1;
        assert(sealed(o, params, body) == Ok::<PlanV, ErrV>(p));
        if o.frame_scope.0 < o.scopes.len() && o.body_scope.0 < o.scopes.len() {
            assert(settled(walked));
            assert(settled(p)) by {
                reveal(settled);
            }
        }
    }
}

// ------------------------------------------------------------------------------------------
// Laws
// ------------------------------------------------------------------------------------------

/// A sealed plan keeps the body block of its outline and every block of it, and a body is sealed
/// only into the outline that is found in it.
pub proof fn law_sealed_plan_keeps_its_outline(o: OutlineV, params: Seq<Param>, body: Seq<Stmt>)
    ensures
        sealed(o, params, body) matches Ok(p) ==> {
            &&& outline_of(o.owner, o.declaration_span, body) == o
            &&& p.owner == o.owner
            &&& p.body_block == o.body_block
            &&& p.body_scope == o.body_scope
            &&& p.frame_scope == o.frame_scope
            &&& p.blocks == o.blocks
        },
{
    lemma_sealed(o, params, body);
}

/// An outline that is not that of the body is refused where its callable is declared.
pub proof fn law_changed_outline_is_refused(o: OutlineV, params: Seq<Param>, body: Seq<Stmt>)
    requires
        outline_of(o.owner, o.declaration_span, body) != o,
    ensures
        sealed(o, params, body) matches Err(e) && e.span == o.declaration_span && e.message
            == "checked body for "@ + o.owner.text()
            + " no longer matches its pre-check control outline"@,
{
}

proof fn lemma_reversed<A>(s: Seq<A>, x: A)
    ensures
        s.reverse().contains(x) == s.contains(x),
{
    if s.contains(x) {
        let k = s.index_of(x);
        assert(s.reverse()[s.len() - 1 - k] == x);
    }
    if s.reverse().contains(x) {
        let k = s.reverse().index_of(x);
        assert(s[s.len() - 1 - k] == x);
    }
}

proof fn lemma_drops_are_cleared(p: PlanV, scopes: Seq<ScopeId>, n: nat, d: int)
    requires
        settled(p),
        p.candidates.len() <= usize::MAX,
        n <= scopes.len(),
        forall|i: int| 0 <= i < scopes.len() ==> (#[trigger] scopes[i]).0 < p.scopes.len(),
        0 <= d < p.drops_of(scopes, n).len(),
    ensures
        p.drops_of(scopes, n)[d].0 < p.candidates.len(),
        p.clears_of(scopes, n).contains(
            p.candidates[p.drops_of(scopes, n)[d].0 as int].place,
        ),
    decreases n,
{
    let before = p.drops_of(scopes, (n - 1) as nat);
    let cleared = p.clears_of(scopes, (n - 1) as nat);
    let last = p.scopes[scopes[n - 1].0 as int];
    let all = p.clears_of(scopes, n);
    let id = p.drops_of(scopes, n)[d];
    if d < before.len() {
        lemma_drops_are_cleared(p, scopes, (n - 1) as nat, d);
        let place = p.candidates[id.0 as int].place;
        let k = cleared.index_of(place);
        assert(all[k] == place);
    } else {
        let at = last.drops.len() - 1 - (d - before.len());
        assert(id == last.drops[at]);
        assert(drop_is_local(last, p.candidates, at)) by {
            reveal(settled);
            reveal(covered);
            assert(p.scopes[scopes[n - 1].0 as int] == last);
        }
        let place = p.candidates[id.0 as int].place;
        lemma_reversed(last.locals, place);
        let k = last.locals.reverse().index_of(place);
        assert(all[cleared.len() + k] == place);
    }
}

/// Every place that an exit of a sealed plan destroys is among the places that the exit clears.
pub proof fn law_destroyed_places_are_cleared(
    o: OutlineV,
    params: Seq<Param>,
    body: Seq<Stmt>,
    p: PlanV,
    kind: ExitKind,
    scopes: Seq<ScopeId>,
    d: int,
)
    requires
        o.bounded(),
        sealed(o, params, body) == Ok::<PlanV, ErrV>(p),
        p.candidates.len() <= usize::MAX,
        forall|i: int| 0 <= i < scopes.len() ==> (#[trigger] scopes[i]).0 < p.scopes.len(),
        0 <= d < p.route(kind, scopes).drops.len(),
    ensures
        p.route(kind, scopes).drops[d].0 < p.candidates.len(),
        p.route(kind, scopes).clears.contains(
            p.candidates[p.route(kind, scopes).drops[d].0 as int].place,
        ),
{
    lemma_sealed(o, params, body);
    law_outline_is_well_formed(o.owner, o.declaration_span, body);
    lemma_drops_are_cleared(p, scopes, scopes.len(), d);
}

// ------------------------------------------------------------------------------------------
// Normal edges
// ------------------------------------------------------------------------------------------

/// The exit of one scope alone: it clears what dies with the scope and destroys its candidates,
/// the last declared first.
pub open spec fn single_exit(scopes: Seq<ScopeV>, kind: ExitKind, scope: ScopeId) -> RouteV {
    RouteV {
        kind,
        scopes: seq![scope],
        clears: scopes[scope.0 as int].locals.reverse(),
        drops: scopes[scope.0 as int].drops.reverse(),
    }
}

/// An edge is there exactly where the flow falls through, and leaves the scope alone.
pub open spec fn edge_fits(
    scopes: Seq<ScopeV>,
    edge: Option<RouteV>,
    kind: ExitKind,
    scope: ScopeId,
    flow: FlowSummary,
) -> bool {
    edge == if flow.reaches_next {
        Some(single_exit(scopes, kind, scope))
    } else {
        None
    }
}

/// The scope and the flow that a construct retains are those of its block.
pub open spec fn of_block(
    blocks: Seq<BlockV>,
    block: BlockId,
    scope: ScopeId,
    flow: FlowSummary,
) -> bool {
    blocks[block.0 as int].scope == scope && blocks[block.0 as int].flow == flow
}

pub open spec fn arm_fits(p: PlanV, arm: ArmV) -> bool {
    &&& of_block(p.blocks, arm.block, arm.scope, arm.flow)
    &&& edge_fits(p.scopes, arm.normal_exit, ExitKind::Fallthrough, arm.scope, arm.flow)
}

pub open spec fn branch_fits(p: PlanV, b: BranchV) -> bool {
    arm_fits(p, b.then_arm) && (b.else_arm matches Some(arm) ==> arm_fits(p, arm))
}

pub open spec fn loop_fits(p: PlanV, l: LoopV) -> bool {
    &&& of_block(p.blocks, l.body, l.body_scope, l.body_flow)
    &&& edge_fits(p.scopes, l.backedge, ExitKind::Backedge, l.body_scope, l.body_flow)
}

pub open spec fn exposure_fits(p: PlanV, x: ExposureV) -> bool {
    &&& of_block(p.blocks, x.body, x.body_scope, x.body_flow)
    &&& edge_fits(
        p.scopes,
        match x.normal {
            Some(n) => Some(n.body_exit),
            None => None,
        },
        ExitKind::Fallthrough,
        x.body_scope,
        x.body_flow,
    )
}

/// Every sealed branch, loop and exposure has its normal edge exactly where its body falls
/// through.
pub open spec fn edges_fit(p: PlanV) -> bool {
    &&& forall|i: int| 0 <= i < p.branches.len() ==> branch_fits(p, #[trigger] p.branches[i])
    &&& forall|i: int| 0 <= i < p.loops.len() ==> loop_fits(p, #[trigger] p.loops[i])
    &&& forall|i: int| 0 <= i < p.exposures.len() ==> exposure_fits(p, #[trigger] p.exposures[i])
}

proof fn lemma_single_exit(p: PlanV, kind: ExitKind, scope: ScopeId)
    ensures
        p.route(kind, seq![scope]) == single_exit(p.scopes, kind, scope),
{
    reveal_with_fuel(PlanV::drops_of, 2);
    reveal_with_fuel(PlanV::clears_of, 2);
    let r = p.route(kind, seq![scope]);
    assert(r.drops =~= p.scopes[scope.0 as int].drops.reverse());
    assert(r.clears =~= p.scopes[scope.0 as int].locals.reverse());
}

proof fn lemma_branch_edges(p: PlanV, o: OutlineV, id: BranchId, anchor: Span, has_else: bool)
    requires
        edges_fit(p),
    ensures
        edges_fit(seal_branch(p, o, id, anchor, has_else).1),
{
    let source = o.branches[id.0 as int];
    lemma_single_exit(p, ExitKind::Fallthrough, p.blocks[source.then_block.0 as int].scope);
    if let Some(child) = source.else_block {
        lemma_single_exit(p, ExitKind::Fallthrough, p.blocks[child.0 as int].scope);
    }
    let q = seal_branch(p, o, id, anchor, has_else).1;
    assert forall|i: int| 0 <= i < q.branches.len() implies branch_fits(
        q,
        #[trigger] q.branches[i],
    ) by {
        if i < p.branches.len() {
            assert(q.branches[i] == p.branches[i]);
        }
    }
}

proof fn lemma_loop_edges(p: PlanV, o: OutlineV, id: LoopId, kw_span: Span, condition_span: Span)
    requires
        edges_fit(p),
    ensures
        edges_fit(seal_loop(p, o, id, kw_span, condition_span).1),
{
    let source = o.loops[id.0 as int];
    lemma_single_exit(p, ExitKind::Backedge, p.blocks[source.body.0 as int].scope);
    let q = seal_loop(p, o, id, kw_span, condition_span).1;
    assert forall|i: int| 0 <= i < q.loops.len() implies loop_fits(q, #[trigger] q.loops[i]) by {
        if i < p.loops.len() {
            assert(q.loops[i] == p.loops[i]);
        }
    }
}

proof fn lemma_exposure_edges(p: PlanV, o: OutlineV, id: ExposureId, s: Stmt)
    requires
        edges_fit(p),
    ensures
        edges_fit(seal_exposure(p, o, id, s).1),
{
    let source = o.exposures[id.0 as int];
    lemma_single_exit(p, ExitKind::Fallthrough, p.blocks[source.body.0 as int].scope);
    let q = seal_exposure(p, o, id, s).1;
    assert forall|i: int| 0 <= i < q.exposures.len() implies exposure_fits(
        q,
        #[trigger] q.exposures[i],
    ) by {
        if i < p.exposures.len() {
            assert(q.exposures[i] == p.exposures[i]);
        }
    }
}

/// Sealing the edges of a block keeps every sealed edge where its body falls through, and adds
/// only such edges.
pub proof fn law_sealing_keeps_the_edges(p: PlanV, o: OutlineV, s: Seq<Stmt>, block: BlockId)
    requires
        edges_fit(p),
    ensures
        edges_fit(seal_block(p, o, s, block).1),
    decreases s, s.len() + 1,
{
    lemma_edges_from(p, o, s, 0, block);
}

proof fn lemma_edges_from(p: PlanV, o: OutlineV, s: Seq<Stmt>, i: nat, block: BlockId)
    requires
        edges_fit(p),
    ensures
        edges_fit(seal_from(p, o, s, i, block).1),
    decreases s, s.len() - i,
{
    if i < s.len() {
        let kind = o.blocks[block.0 as int].statements[i as int].kind;
        lemma_edges_stmt(p, o, s[i as int], kind, block);
        match seal_stmt(p, o, s[i as int], kind, block) {
            (Ok(_), next) => lemma_edges_from(next, o, s, i + 1, block),
            (Err(_), _) => {},
        }
    }
}

proof fn lemma_edges_stmt(
    p: PlanV,
    o: OutlineV,
    s: Stmt,
    kind: StatementPlanKind,
    block: BlockId,
)
    requires
        edges_fit(p),
    ensures
        edges_fit(seal_stmt(p, o, s, kind, block).1),
    decreases s, 0nat,
{
    match (kind, s) {
        (StatementPlanKind::Branch(id), Stmt::If { cond, then_block, else_block }) => {
            let source = o.branches[id.0 as int];
            law_sealing_keeps_the_edges(p, o, then_block@, source.then_block);
            match seal_block(p, o, then_block@, source.then_block) {
                (Ok(_), next) => {
                    match (else_block, source.else_block) {
                        (Some(e), Some(child)) => {
                            law_sealing_keeps_the_edges(next, o, e@, child);
                            let last = seal_block(next, o, e@, child).1;
                            lemma_branch_edges(last, o, id, cond.span, true);
                        },
                        _ => lemma_branch_edges(next, o, id, cond.span, else_block is Some),
                    }
                },
                (Err(_), _) => {},
            }
        },
        (StatementPlanKind::Loop(id), Stmt::While { cond, kw_span, body, .. }) => {
            let child = o.loops[id.0 as int].body;
            law_sealing_keeps_the_edges(p, o, body@, child);
            lemma_loop_edges(seal_block(p, o, body@, child).1, o, id, kw_span, cond.span);
        },
        (StatementPlanKind::Exposure(id), Stmt::Expose { body, .. }) => {
            let child = o.exposures[id.0 as int].body;
            law_sealing_keeps_the_edges(p, o, body@, child);
            lemma_exposure_edges(seal_block(p, o, body@, child).1, o, id, s);
        },
        (StatementPlanKind::Unsafe(child), Stmt::Unsafe { body, .. }) =>
            law_sealing_keeps_the_edges(p, o, body@, child),
        _ => {},
    }
}

/// In every sealed plan the normal exit of a branch arm, the backedge of a loop and the normal
/// continuation of an exposure are there exactly where the arm or body falls through. Each leaves
/// the scope of that arm or body alone, by the kind of exit that is its own.
pub proof fn law_normal_edges_follow_the_flow(
    o: OutlineV,
    params: Seq<Param>,
    body: Seq<Stmt>,
    p: PlanV,
)
    requires
        sealed(o, params, body) == Ok::<PlanV, ErrV>(p),
    ensures
        edges_fit(p),
{
    let (scopes, ids) = enter_scopes(o, 0, Seq::empty(), Seq::empty())->Ok_0;
    let b = BuilderV { plan: bare_plan(o, scopes, ids), bindings: Seq::empty() };
    let declared = declare_params(b, o.frame_scope, params, 0).1;
    let walked = walk_from(declared, body, 0, o.body_scope, false).1.plan;
    lemma_params_keep(b, o.frame_scope, params, 0);
    lemma_walk_keeps(declared, body, 0, o.body_scope, false);
    law_sealing_keeps_the_edges(walked, o, body, o.body_block);
    let edged = seal_block(walked, o, body, o.body_block).1;
    let inv = crate::inventory::inv_from(
        edged,
        crate::inventory::root_inventory(edged),
        body,
        0,
        edged.body_scope,
    ).1;
    lemma_traps_keep(edged, inv.traps, 0);
    assert(seal_traps(edged, body) == retain_traps(edged, inv.traps, 0));
}

} // verus!
