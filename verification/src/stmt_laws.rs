//! What a statement does: what it binds and stores, which block runs, and what a call gives back.
use vstd::prelude::*;

use crate::ast::{Expr, FnDecl, Stmt};
use crate::bindings::{distinct, law_bind, law_unbind, unbind, value_of};
use crate::drops::RouteV;
use crate::effects::{assignment_site, preflight, raw_alloc, raw_free, ReadyV};
use crate::eval_laws::law_stores_are_read_back;
use crate::machine::{
    burned, cleared, contract_env, due_clears, due_drops, emptied, held_at, with_var, CodeV,
    DropStepV, FrameV, MachV, RtPlaceV, SiteV,
};
use crate::monitor::clause_value;
use crate::outline::{BlockId, DropId, ScopeId, StatementPlanKind};
use crate::place::PlaceV;
use crate::plan::PlanV;
use crate::rawheap::alloc_of;
use crate::semantics::{
    arm_declared, call, cleanup, construct, drop_action, enter_function, eval, eval_bool, eval_int,
    eval_moved, exec_block, exec_body, exec_stmt, exec_stmts, put_self_field, run_alloc, run_assign,
    run_decl, run_field_assign, run_if, run_return, run_store, settled, spent, stmt_kind,
    stmts_from, within, FlowV,
};
use crate::span::Span;
use crate::steps::{array_get, array_id};
use crate::value::{TrapV, ValV};

verus! {

/// The statement gets under way: its plan accepts it, there is fuel, and its trap sites are in order.
pub open spec fn starts(
    c: CodeV,
    plan: PlanV,
    s: Stmt,
    kind: StatementPlanKind,
    scope: ScopeId,
    m: MachV,
) -> bool {
    &&& preflight(c.control, c.classes, plan, s, kind, scope) is Ok
    &&& m.fuel > 0
    &&& (SiteV { plan, scope }).statement(s) is Ok
}

/// A statement that its plan does not accept, or for which there is no fuel, does nothing.
pub proof fn law_refused_statements_do_nothing(
    c: CodeV,
    plan: PlanV,
    s: Stmt,
    kind: StatementPlanKind,
    scope: ScopeId,
    m: MachV,
    f: FrameV,
)
    requires
        preflight(c.control, c.classes, plan, s, kind, scope) is Err || m.fuel == 0,
    ensures
        exec_stmt(c, plan, s, kind, scope, m, f).r is Err,
        exec_stmt(c, plan, s, kind, scope, m, f).m == m,
        exec_stmt(c, plan, s, kind, scope, m, f).f == f,
{
}

/// The initial value of a declaration, where it has one.
pub open spec fn initial(s: Stmt) -> Option<Expr> {
    match s {
        Stmt::Decl { init, .. } => init,
        Stmt::VarDecl { init, .. } => Some(init),
        _ => None,
    }
}

pub open spec fn declared_name(s: Stmt) -> Seq<char> {
    match s {
        Stmt::Decl { name, .. } => name@,
        Stmt::VarDecl { name, .. } => name@,
        _ => Seq::empty(),
    }
}

/// A declaration binds its name to its initial value, and no other name; one without an initial
/// value binds nothing.
pub proof fn law_declarations_bind_their_value(
    c: CodeV,
    plan: PlanV,
    s: Stmt,
    kind: StatementPlanKind,
    scope: ScopeId,
    m: MachV,
    f: FrameV,
    other: Seq<char>,
)
    requires
        starts(c, plan, s, kind, scope, m),
        s is Decl || s is VarDecl,
    ensures
        ({
            let after = exec_stmt(c, plan, s, kind, scope, m, f);
            match initial(s) {
                None => after.r == Ok::<FlowV, TrapV>(FlowV::Normal) && after.f == f && after.m
                    == burned(m),
                Some(e) => {
                    let o = eval_moved(c, SiteV { plan, scope }, e, burned(m), f);
                    &&& o.r matches Err(t) ==> after.r == Err::<FlowV, TrapV>(t) && after.f == o.f
                    &&& o.r matches Ok(v) ==> {
                        &&& after.r == Ok::<FlowV, TrapV>(FlowV::Normal)
                        &&& after.m == o.m
                        &&& value_of(after.f.vars, declared_name(s)) == Some(v)
                        &&& other != declared_name(s) ==> value_of(after.f.vars, other) == value_of(
                            o.f.vars,
                            other,
                        )
                    }
                },
            }
        }),
{
    let ready = preflight(c.control, c.classes, plan, s, kind, scope)->Ok_0;
    assert(exec_stmt(c, plan, s, kind, scope, m, f) == stmt_kind(
        c,
        plan,
        s,
        kind,
        scope,
        ready,
        burned(m),
        f,
    ));
    assert(stmt_kind(c, plan, s, kind, scope, ready, burned(m), f) == run_decl(
        c,
        plan,
        s,
        scope,
        burned(m),
        f,
    ));
    match initial(s) {
        Some(e) => {
            let o = eval_moved(c, SiteV { plan, scope }, e, burned(m), f);
            if o.r is Ok {
                law_bind(o.f.vars, declared_name(s), o.r->Ok_0, other);
            }
        },
        None => {},
    }
}

/// An assignment that succeeds leaves its destination bound to the value that was evaluated.
pub proof fn law_assignments_bind_their_value(
    c: CodeV,
    plan: PlanV,
    s: Stmt,
    kind: StatementPlanKind,
    scope: ScopeId,
    m: MachV,
    f: FrameV,
)
    requires
        starts(c, plan, s, kind, scope, m),
        s is Assign,
        exec_stmt(c, plan, s, kind, scope, m, f).r is Ok,
    ensures
        ({
            let o = spent(
                eval_moved(c, SiteV { plan, scope }, s->Assign_value, burned(m), f),
                burned(m),
            );
            let site = assignment_site(plan, scope, s->Assign_name@, s->Assign_name_span);
            &&& site is Ok
            &&& o.r is Ok
            &&& exec_stmt(c, plan, s, kind, scope, m, f).r == Ok::<FlowV, TrapV>(FlowV::Normal)
            &&& value_of(
                exec_stmt(c, plan, s, kind, scope, m, f).f.vars,
                site->Ok_0.destination.root,
            ) == Some(o.r->Ok_0)
        }),
{
    let ready = preflight(c.control, c.classes, plan, s, kind, scope)->Ok_0;
    assert(exec_stmt(c, plan, s, kind, scope, m, f) == stmt_kind(
        c,
        plan,
        s,
        kind,
        scope,
        ready,
        burned(m),
        f,
    ));
    assert(stmt_kind(c, plan, s, kind, scope, ready, burned(m), f) == run_assign(
        c,
        plan,
        s,
        scope,
        burned(m),
        f,
    ));
    let o = spent(eval_moved(c, SiteV { plan, scope }, s->Assign_value, burned(m), f), burned(m));
    let a = assignment_site(plan, scope, s->Assign_name@, s->Assign_name_span)->Ok_0;
    if o.r is Ok {
        let v = o.r->Ok_0;
        law_bind(o.f.vars, a.destination.root, v, a.destination.root);
        law_bind(
            unbind(o.f.vars, a.destination.root),
            a.destination.root,
            v,
            a.destination.root,
        );
    }
}

/// A branch runs its first block exactly where its condition is true, and its second, or nothing,
/// exactly where it is false.
pub proof fn law_branches_follow_their_condition(
    c: CodeV,
    plan: PlanV,
    s: Stmt,
    kind: StatementPlanKind,
    scope: ScopeId,
    m: MachV,
    f: FrameV,
)
    requires
        starts(c, plan, s, kind, scope, m),
        s is If,
        plan.branch(scope, s->If_cond.span, s->If_else_block is Some) is Ok,
    ensures
        ({
            let after = exec_stmt(c, plan, s, kind, scope, m, f);
            let b = plan.branch(scope, s->If_cond.span, s->If_else_block is Some)->Ok_0;
            let o = spent(
                eval_bool(c, SiteV { plan, scope }, s->If_cond, burned(m), f),
                burned(m),
            );
            &&& o.r == Ok::<bool, TrapV>(true) ==> after == exec_block(
                c,
                plan,
                s->If_then_block@,
                b.then_arm.block,
                b.then_arm.normal_exit,
                o.m,
                o.f,
            )
            &&& o.r == Ok::<bool, TrapV>(false) ==> (s->If_else_block matches Some(stmts) ==> (
            b.else_arm matches Some(arm) ==> after == exec_block(
                c,
                plan,
                stmts@,
                arm.block,
                arm.normal_exit,
                o.m,
                o.f,
            )))
            &&& o.r == Ok::<bool, TrapV>(false) && s->If_else_block is None ==> after.r == Ok::<
                FlowV,
                TrapV,
            >(FlowV::Normal) && after.m == o.m && after.f == o.f
            &&& o.r matches Err(t) ==> after.r == Err::<FlowV, TrapV>(t) && after.m == o.m
                && after.f == o.f
        }),
{
    let ready = preflight(c.control, c.classes, plan, s, kind, scope)->Ok_0;
    assert(exec_stmt(c, plan, s, kind, scope, m, f) == stmt_kind(
        c,
        plan,
        s,
        kind,
        scope,
        ready,
        burned(m),
        f,
    ));
    assert(stmt_kind(c, plan, s, kind, scope, ready, burned(m), f) == run_if(
        c,
        plan,
        s,
        scope,
        burned(m),
        f,
    ));
}

/// A return that succeeds ends the block with the value that was evaluated, or with the unit where
/// it has none.
pub proof fn law_returns_give_their_value(
    c: CodeV,
    plan: PlanV,
    s: Stmt,
    kind: StatementPlanKind,
    scope: ScopeId,
    m: MachV,
    f: FrameV,
)
    requires
        starts(c, plan, s, kind, scope, m),
        s is Return,
    ensures
        exec_stmt(c, plan, s, kind, scope, m, f).r matches Ok(flow) ==> {
            &&& flow matches FlowV::Return(v)
            &&& s->Return_value matches Some(e) ==> eval_moved(
                c,
                SiteV { plan, scope },
                e,
                burned(m),
                f,
            ).r == Ok::<ValV, TrapV>(v)
            &&& s->Return_value is None ==> v == ValV::Unit
        },
{
    let ready = preflight(c.control, c.classes, plan, s, kind, scope)->Ok_0;
    assert(exec_stmt(c, plan, s, kind, scope, m, f) == stmt_kind(
        c,
        plan,
        s,
        kind,
        scope,
        ready,
        burned(m),
        f,
    ));
    assert(stmt_kind(c, plan, s, kind, scope, ready, burned(m), f) == run_return(
        c,
        plan,
        s,
        scope,
        burned(m),
        f,
    ));
}

/// An assertion whose clause is false stops the run; one whose clause is true changes nothing.
pub proof fn law_false_assertions_trap(
    c: CodeV,
    plan: PlanV,
    s: Stmt,
    kind: StatementPlanKind,
    scope: ScopeId,
    m: MachV,
    f: FrameV,
)
    requires
        starts(c, plan, s, kind, scope, m),
        s is Assert,
    ensures
        ({
            let value = clause_value(contract_env(burned(m), f, None), s->Assert_0.text@);
            let after = exec_stmt(c, plan, s, kind, scope, m, f);
            &&& value == Ok::<bool, Seq<char>>(false) ==> (after.r matches Err(t) && t.span
                == s->Assert_0.span)
            &&& value == Ok::<bool, Seq<char>>(true) ==> after.r == Ok::<FlowV, TrapV>(
                FlowV::Normal,
            ) && after.m == burned(m)
            &&& value is Err ==> after.r == Ok::<FlowV, TrapV>(FlowV::Normal) && after.m.skipped.len()
                == m.skipped.len() + 1
            &&& after.f == f
        }),
{
    let ready = preflight(c.control, c.classes, plan, s, kind, scope)->Ok_0;
    assert(exec_stmt(c, plan, s, kind, scope, m, f) == stmt_kind(
        c,
        plan,
        s,
        kind,
        scope,
        ready,
        burned(m),
        f,
    ));
}

/// A store that succeeds writes the value into the element that its index names: reading it back
/// gives the value.
pub proof fn law_stores_write_their_element(
    c: CodeV,
    plan: PlanV,
    s: Stmt,
    kind: StatementPlanKind,
    scope: ScopeId,
    m: MachV,
    f: FrameV,
    at: Span,
)
    requires
        starts(c, plan, s, kind, scope, m),
        s is Store,
        exec_stmt(c, plan, s, kind, scope, m, f).r is Ok,
    ensures
        ({
            let p = SiteV { plan, scope };
            let o = spent(eval_int(c, p, s->Store_index, burned(m), f), burned(m));
            let q = eval(c, p, s->Store_value, o.m, o.f);
            let after = exec_stmt(c, plan, s, kind, scope, m, f);
            &&& o.r is Ok
            &&& q.r is Ok
            &&& after.f == q.f
            &&& array_get(
                after.m,
                array_id(value_of(q.f.vars, s->Store_array@)),
                o.r->Ok_0,
                at,
            ) == q.r
        }),
{
    let ready = preflight(c.control, c.classes, plan, s, kind, scope)->Ok_0;
    assert(exec_stmt(c, plan, s, kind, scope, m, f) == stmt_kind(
        c,
        plan,
        s,
        kind,
        scope,
        ready,
        burned(m),
        f,
    ));
    assert(stmt_kind(c, plan, s, kind, scope, ready, burned(m), f) == run_store(
        c,
        plan,
        s,
        scope,
        burned(m),
        f,
    ));
    let p = SiteV { plan, scope };
    let o = spent(eval_int(c, p, s->Store_index, burned(m), f), burned(m));
    let q = eval(c, p, s->Store_value, o.m, o.f);
    if o.r is Ok && q.r is Ok {
        match array_id(value_of(q.f.vars, s->Store_array@)) {
            Some(id) => {
                law_stores_are_read_back(
                    q.m,
                    id,
                    o.r->Ok_0,
                    q.r->Ok_0,
                    s->Store_array_span,
                    id,
                    o.r->Ok_0,
                    at,
                );
            },
            None => {},
        }
    }
}

/// A value that is put into a field of the object at hand is what the field then holds; no other
/// field of it and no other object changes.
pub proof fn law_fields_hold_what_was_put(
    m: MachV,
    f: FrameV,
    field: Seq<char>,
    v: ValV,
    span: Span,
    other: Seq<char>,
    id: usize,
)
    requires
        put_self_field(m, f, field, v, span).r is Ok,
    ensures
        ({
            let after = put_self_field(m, f, field, v, span);
            &&& after.f == f
            &&& held_at(after.m, f, RtPlaceV::SelfField(field)) == Some(v)
            &&& other != field ==> held_at(after.m, f, RtPlaceV::SelfField(other)) == held_at(
                m,
                f,
                RtPlaceV::SelfField(other),
            )
            &&& f.self_ctx matches Some((_, own)) && (id != own ==> after.m.heap.object(id)
                == m.heap.object(id))
        }),
{
    let own = f.self_ctx->Some_0.1;
    law_bind(m.heap.object(own)->Some_0, field, v, other);
}

/// Raw storage that a statement allocates is new and live, holds as many bytes as were asked for, none
/// of them written, and its pointer names its first byte.
pub proof fn law_raw_storage_is_fresh(m: MachV, n: i128, span: Span, other: int)
    requires
        m.raw.len() <= i128::MAX,
    ensures
        raw_alloc(m, n, span).0 matches Ok(a) ==> {
            let after = raw_alloc(m, n, span).1;
            &&& alloc_of(m.raw, a as int) is None
            &&& alloc_of(after.raw, a as int) matches Some(al)
            &&& al.live
            &&& al.bytes.len() == n
            &&& forall|i: int| 0 <= i < n ==> (#[trigger] al.bytes[i]) is None
            &&& other != a ==> alloc_of(after.raw, other) == alloc_of(m.raw, other)
            &&& after.heap == m.heap
        },
        raw_alloc(m, n, span).0 is Err <==> n < 0 || n > usize::MAX,
{
}

/// Raw storage is freed exactly once, and only through the pointer to its first byte; freeing it
/// leaves every other allocation as it was.
pub proof fn law_raw_storage_is_freed_once(
    m: MachV,
    a: i128,
    off: i128,
    span: Span,
    again: Span,
    other: int,
)
    ensures
        ({
            let (r, after) = raw_free(m, a, off, span);
            &&& r is Ok <==> off == 0 && (alloc_of(m.raw, a as int) matches Some(al) && al.live)
            &&& r is Ok ==> raw_free(after, a, off, again).0 is Err
            &&& r is Ok ==> (alloc_of(after.raw, a as int) matches Some(al) && !al.live)
            &&& other != a ==> alloc_of(after.raw, other) == alloc_of(m.raw, other)
            &&& r is Err ==> after == m
        }),
{
}

// ------------------------------------------------------------------------------------------
// Blocks
// ------------------------------------------------------------------------------------------

/// The statements of a block run in order. A statement that traps or returns ends the block with what
/// it gave; nothing behind it runs.
pub proof fn law_statements_run_in_order(
    c: CodeV,
    plan: PlanV,
    stmts: Seq<Stmt>,
    block: BlockId,
    i: nat,
    m: MachV,
    f: FrameV,
)
    requires
        i < stmts.len(),
        plan.blocks[block.0 as int].statements[i as int].entry_reachable,
    ensures
        ({
            let b = plan.blocks[block.0 as int];
            let o = exec_stmt(
                c,
                plan,
                stmts[i as int],
                b.statements[i as int].kind,
                b.scope,
                m,
                f,
            );
            let ran = stmts_from(c, plan, stmts, block, i, m, f);
            &&& o.r matches Err(t) ==> ran.r == Err::<FlowV, TrapV>(t) && ran.m == o.m && ran.f == o.f
            &&& o.r matches Ok(FlowV::Return(v)) ==> (ran.r matches Ok(flow) ==> flow
                == FlowV::Return(v)) && ran.m == o.m
            &&& o.r == Ok::<FlowV, TrapV>(FlowV::Normal) && ran.r is Ok && o.m.fuel < m.fuel ==> {
                let g = arm_declared(plan, stmts[i as int], b.scope, o.f);
                g is Ok && ran == stmts_from(c, plan, stmts, block, i + 1, o.m, g->Ok_0)
            }
        }),
        stmts_from(c, plan, stmts, block, stmts.len(), m, f).r == Ok::<FlowV, TrapV>(FlowV::Normal),
{
}

/// A block that ends normally has run the cleanup of its exit, with what that left.
pub proof fn law_blocks_clean_up_at_their_end(
    c: CodeV,
    plan: PlanV,
    stmts: Seq<Stmt>,
    block: BlockId,
    normal: Option<RouteV>,
    m: MachV,
    f: FrameV,
)
    ensures
        exec_block(c, plan, stmts, block, normal, m, f).r == Ok::<FlowV, TrapV>(FlowV::Normal) ==> {
            let ran = exec_stmts(c, plan, stmts, block, m, f);
            let o = settled(ran, m, f);
            &&& ran.r == Ok::<FlowV, TrapV>(FlowV::Normal)
            &&& normal matches Some(route)
            &&& cleanup(c, plan, route, o.m, o.f).r is Ok
            &&& exec_block(c, plan, stmts, block, normal, m, f).m == cleanup(
                c,
                plan,
                route,
                o.m,
                o.f,
            ).m
            &&& exec_block(c, plan, stmts, block, normal, m, f).f == cleanup(
                c,
                plan,
                route,
                o.m,
                o.f,
            ).f
        },
{
}

proof fn lemma_cleared(f: FrameV, names: Seq<Seq<char>>, i: nat, name: Seq<char>)
    requires
        i <= names.len(),
        distinct(f.vars),
    ensures
        (exists|k: int| i <= k < names.len() && names[k] == name) || value_of(f.vars, name) is None
            ==> value_of(cleared(f, names, i).vars, name) is None,
        !(exists|k: int| i <= k < names.len() && names[k] == name) ==> value_of(
            cleared(f, names, i).vars,
            name,
        ) == value_of(f.vars, name),
    decreases names.len() - i,
{
    if i < names.len() {
        law_unbind(f.vars, names[i as int], name);
        law_unbind(f.vars, names[i as int], names[i as int]);
        let g = FrameV { vars: unbind(f.vars, names[i as int]), ..f };
        lemma_cleared(g, names, i + 1, name);
        if names[i as int] != name {
            if exists|k: int| i <= k < names.len() && names[k] == name {
                let k = choose|k: int| i <= k < names.len() && names[k] == name;
                assert(i + 1 <= k);
            }
        }
    }
}

/// The names that an exit clears are bound to nothing afterwards; every other name keeps its value.
pub proof fn law_cleared_names_are_gone(f: FrameV, names: Seq<Seq<char>>, name: Seq<char>)
    requires
        distinct(f.vars),
    ensures
        names.contains(name) ==> value_of(cleared(f, names, 0).vars, name) is None,
        !names.contains(name) ==> value_of(cleared(f, names, 0).vars, name) == value_of(
            f.vars,
            name,
        ),
{
    lemma_cleared(f, names, 0, name);
    if names.contains(name) {
        let k = choose|k: int| 0 <= k < names.len() && names[k] == name;
        assert(0 <= k < names.len() && names[k] == name);
    }
}

proof fn lemma_due(plan: PlanV, reached: Seq<DropId>, drops: Seq<DropId>, n: nat)
    requires
        n <= drops.len(),
    ensures
        due_drops(plan, reached, drops, n) matches Ok(steps) ==> steps.map_values(
            |s: DropStepV| s.id,
        ) == drops.take(n as int).filter(|d: DropId| reached.contains(d)),
    decreases n,
{
    let keep = |d: DropId| reached.contains(d);
    let id = |s: DropStepV| s.id;
    reveal(Seq::filter);
    if n == 0 {
        assert(drops.take(0) =~= Seq::<DropId>::empty());
        assert(Seq::<DropStepV>::empty().map_values(id) =~= Seq::<DropId>::empty());
    } else {
        lemma_due(plan, reached, drops, (n - 1) as nat);
        assert(drops.take(n as int).drop_last() =~= drops.take(n - 1));
        assert(drops.take(n as int).last() == drops[n - 1]);
        match (
            due_drops(plan, reached, drops, (n - 1) as nat),
            due_drops(plan, reached, drops, n),
        ) {
            (Ok(front), Ok(all)) => {
                if reached.contains(drops[n - 1]) {
                    assert(all.map_values(id) =~= front.map_values(id).push(drops[n - 1]));
                }
            },
            _ => {},
        }
    }
}

/// An exit destroys the candidates of its route whose declarations this run has reached, all of them
/// and no other, in the order of the route.
pub proof fn law_exits_destroy_what_was_reached(plan: PlanV, reached: Seq<DropId>, route: RouteV)
    ensures
        due_drops(plan, reached, route.drops, route.drops.len()) matches Ok(steps)
            ==> steps.map_values(|s: DropStepV| s.id) == route.drops.filter(
            |d: DropId| reached.contains(d),
        ),
{
    lemma_due(plan, reached, route.drops, route.drops.len());
    assert(route.drops.take(route.drops.len() as int) =~= route.drops);
}

proof fn lemma_clears(clears: Seq<PlaceV>, n: nat)
    requires
        n <= clears.len(),
    ensures
        due_clears(clears, n) matches Ok(names) ==> names == clears.take(n as int).map_values(
            |p: PlaceV| p.root,
        ),
    decreases n,
{
    let root = |p: PlaceV| p.root;
    if n == 0 {
        assert(clears.take(0).map_values(root) =~= Seq::<Seq<char>>::empty());
    } else {
        lemma_clears(clears, (n - 1) as nat);
        assert(clears.take(n as int).map_values(root) =~= clears.take(n - 1).map_values(root).push(
            clears[n - 1].root,
        ));
    }
}

/// An exit clears every name of its route, in order.
pub proof fn law_exits_clear_their_names(route: RouteV)
    ensures
        due_clears(route.clears, route.clears.len()) matches Ok(names) ==> names
            == route.clears.map_values(|p: PlaceV| p.root),
{
    lemma_clears(route.clears, route.clears.len());
    assert(route.clears.take(route.clears.len() as int) =~= route.clears);
}

// ------------------------------------------------------------------------------------------
// Calls
// ------------------------------------------------------------------------------------------

/// A call gives back what its body returned, and the unit where the body ended without a return.
pub proof fn law_calls_give_back_what_was_returned(
    c: CodeV,
    g: FnDecl,
    args: Seq<ValV>,
    m: MachV,
)
    requires
        call(c, g, args, m).0 is Ok,
    ensures
        ({
            let (entry, m1) = enter_function(c, g, args, m);
            let x = entry->Ok_0;
            let body = exec_body(c, x.plan, g.body@, within(m1, m), x.frame);
            &&& entry is Ok
            &&& body.r matches Ok(FlowV::Return(v)) ==> call(c, g, args, m).0 == Ok::<ValV, TrapV>(v)
            &&& body.r == Ok::<FlowV, TrapV>(FlowV::Normal) ==> call(c, g, args, m).0 == Ok::<
                ValV,
                TrapV,
            >(ValV::Unit)
            &&& body.r is Ok
        }),
{
}

/// A construction gives an object of its class, with an identity that no object had.
pub proof fn law_constructions_give_new_objects(
    c: CodeV,
    ci: usize,
    init: Seq<char>,
    args: Seq<ValV>,
    span: Span,
    m: MachV,
)
    requires
        m.heap.objects.len() <= usize::MAX,
    ensures
        construct(c, ci, init, args, span, m).0 matches Ok(v) ==> {
            &&& v matches ValV::Obj { class, fields }
            &&& class == ci
            &&& m.heap.object(fields) is None
        },
{
}

// ------------------------------------------------------------------------------------------
// Fields and raw storage
// ------------------------------------------------------------------------------------------

/// An assignment to a field of the object at hand that succeeds leaves the field with the value that
/// was evaluated.
pub proof fn law_field_assignments_store_their_value(
    c: CodeV,
    plan: PlanV,
    s: Stmt,
    scope: ScopeId,
    ready: ReadyV,
    m: MachV,
    f: FrameV,
)
    requires
        s is FieldAssign,
        run_field_assign(c, plan, s, scope, ready, m, f).r is Ok,
    ensures
        ({
            let o = spent(
                eval_moved(c, SiteV { plan, scope }, s->FieldAssign_value, m, f),
                m,
            );
            let after = run_field_assign(c, plan, s, scope, ready, m, f);
            &&& o.r is Ok
            &&& after.r == Ok::<FlowV, TrapV>(FlowV::Normal)
            &&& held_at(after.m, after.f, RtPlaceV::SelfField(s->FieldAssign_field@)) == Some(
                o.r->Ok_0,
            )
        }),
{
    let o = spent(eval_moved(c, SiteV { plan, scope }, s->FieldAssign_value, m, f), m);
    let field = s->FieldAssign_field@;
    if o.r is Ok && ready.field is Some {
        let v = o.r->Ok_0;
        let a = ready.field->Some_0;
        match a.drop_action {
            None => {
                law_fields_hold_what_was_put(o.m, o.f, field, v, a.span, field, 0);
            },
            Some(action) => {
                let place = RtPlaceV::SelfField(field);
                match held_at(o.m, o.f, place) {
                    None => {
                        law_fields_hold_what_was_put(o.m, o.f, field, v, a.span, field, 0);
                    },
                    Some(held) => {
                        let (m1, f1) = emptied(o.m, o.f, place);
                        let d = drop_action(
                            c,
                            held,
                            action,
                            a.destination.text(),
                            a.span,
                            within(m1, o.m),
                        );
                        if d.0 is Ok && put_self_field(d.1, f1, field, v, a.span).r is Ok {
                            law_fields_hold_what_was_put(d.1, f1, field, v, a.span, field, 0);
                        }
                    },
                }
            },
        }
    }
}

/// A static allocation that succeeds binds its pointer to the first byte of the new storage, and its
/// resource to the unit.
pub proof fn law_allocations_bind_their_pointer(
    c: CodeV,
    plan: PlanV,
    s: Stmt,
    scope: ScopeId,
    m: MachV,
    f: FrameV,
)
    requires
        s is StaticAlloc,
        s->StaticAlloc_ptr@ != s->StaticAlloc_res@,
        run_alloc(c, plan, s, scope, m, f).r is Ok,
    ensures
        ({
            let o = eval_int(c, SiteV { plan, scope }, s->StaticAlloc_size, m, f);
            let after = run_alloc(c, plan, s, scope, m, f);
            &&& o.r matches Ok(n)
            &&& raw_alloc(o.m, n, s->StaticAlloc_size.span).0 matches Ok(a)
            &&& after.m == raw_alloc(o.m, n, s->StaticAlloc_size.span).1
            &&& value_of(after.f.vars, s->StaticAlloc_ptr@) == Some(ValV::Ptr(a, 0))
            &&& value_of(after.f.vars, s->StaticAlloc_res@) == Some(ValV::Unit)
        }),
{
    let o = eval_int(c, SiteV { plan, scope }, s->StaticAlloc_size, m, f);
    let ptr = s->StaticAlloc_ptr@;
    let res = s->StaticAlloc_res@;
    if o.r is Ok {
        let r = raw_alloc(o.m, o.r->Ok_0, s->StaticAlloc_size.span).0;
        if r is Ok {
            let v = ValV::Ptr(r->Ok_0, 0);
            law_bind(o.f.vars, ptr, v, res);
            law_bind(with_var(o.f, ptr, v).vars, res, ValV::Unit, ptr);
        }
    }
}

} // verus!
