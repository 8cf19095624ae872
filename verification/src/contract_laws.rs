//! What monitoring means: a callable that returns has kept its contract, and a loop that goes on
//! has kept its invariants.
use vstd::prelude::*;

use crate::ast::{ClassDecl, Clause, FnDecl, SelfKind, Stmt};
use crate::heap::detached;
use crate::machine::{
    bind_arguments, burned, check_clauses, check_invariants, check_loop_clauses, contract_env,
    invariant_env, loop_env, new_frame, only_skips, skip, variant_env, CodeV, FrameV, MachV, SiteV,
    SkipV,
};
use crate::monitor::{clause_value, flat, measure_value, EnvV};
use crate::outline::ScopeId;
use crate::plan::{LoopV, PlanV};
use crate::semantics::{
    admitted, call, check_descent, construct, contract_text, enter_function, enter_init,
    enter_method, eval_bool, exec_block, exec_body, init_at, invoke, leave_init, leave_method,
    member_text, method_at, monitored_head, result_of, run_loop, spent, within, EntryV, FlowV,
};
use crate::span::Span;
use crate::value::{TrapV, ValV};

verus! {

/// No clause is known to be false.
pub open spec fn none_false(env: EnvV, clauses: Seq<Clause>) -> bool {
    forall|i: int|
        0 <= i < clauses.len() ==> clause_value(env, (#[trigger] clauses[i]).text@) != Ok::<
            bool,
            Seq<char>,
        >(false)
}

/// The clause at `i` is false, and none before it is.
pub open spec fn first_false(env: EnvV, clauses: Seq<Clause>, i: int) -> bool {
    &&& 0 <= i < clauses.len()
    &&& clause_value(env, clauses[i].text@) == Ok::<bool, Seq<char>>(false)
    &&& none_false(env, clauses.take(i))
}

/// What is noted of the clauses that cannot be decided, in order.
pub open spec fn undecided(env: EnvV, clauses: Seq<Clause>) -> Seq<SkipV>
    decreases clauses.len(),
{
    if clauses.len() == 0 {
        Seq::empty()
    } else {
        let c = clauses.last();
        let before = undecided(env, clauses.drop_last());
        match clause_value(env, c.text@) {
            Ok(_) => before,
            Err(reason) => before.push(SkipV { text: flat(c.text@), reason }),
        }
    }
}

proof fn lemma_take_more(clauses: Seq<Clause>, i: nat)
    requires
        i < clauses.len(),
    ensures
        clauses.take((i + 1) as int).drop_last() == clauses.take(i as int),
        clauses.take((i + 1) as int).last() == clauses[i as int],
{
    assert(clauses.take((i + 1) as int).drop_last() =~= clauses.take(i as int));
}

proof fn lemma_none_false_more(env: EnvV, clauses: Seq<Clause>, i: nat)
    requires
        i < clauses.len(),
        none_false(env, clauses.take(i as int)),
        clause_value(env, clauses[i as int].text@) != Ok::<bool, Seq<char>>(false),
    ensures
        none_false(env, clauses.take((i + 1) as int)),
{
    assert forall|k: int| 0 <= k < clauses.take((i + 1) as int).len() implies clause_value(
        env,
        (#[trigger] clauses.take((i + 1) as int)[k]).text@,
    ) != Ok::<bool, Seq<char>>(false) by {
        if k < i {
            assert(clauses.take(i as int)[k] == clauses[k]);
        }
    }
}

/// What checking clauses in one environment comes to.
pub open spec fn decides(
    env: EnvV,
    clauses: Seq<Clause>,
    m: MachV,
    r: (Result<(), TrapV>, MachV),
) -> bool {
    &&& (r.0 is Ok) == none_false(env, clauses)
    &&& r.0 is Ok ==> r.1.skipped == m.skipped + undecided(env, clauses)
    &&& only_skips(m, r.1)
}

proof fn lemma_clauses(
    base: MachV,
    m: MachV,
    f: FrameV,
    clauses: Seq<Clause>,
    i: nat,
    result: Option<ValV>,
    what: Seq<char>,
)
    requires
        i <= clauses.len(),
        only_skips(base, m),
        none_false(contract_env(base, f, result), clauses.take(i as int)),
        m.skipped == base.skipped + undecided(
            contract_env(base, f, result),
            clauses.take(i as int),
        ),
    ensures
        ({
            let r = check_clauses(m, f, clauses, i, result, what);
            let env = contract_env(base, f, result);
            &&& decides(env, clauses, base, r)
            &&& r.0 matches Err(t) ==> exists|k: int| #[trigger]
                first_false(env, clauses, k) && t.span == clauses[k].span && t.message == what
                    + " violated: "@ + flat(clauses[k].text@) && !t.undef
        }),
    decreases clauses.len() - i,
{
    let env = contract_env(base, f, result);
    assert(contract_env(m, f, result) == env);
    if i < clauses.len() {
        lemma_take_more(clauses, i);
        match clause_value(env, clauses[i as int].text@) {
            Ok(false) => {
                assert(first_false(env, clauses, i as int));
                assert(!none_false(env, clauses));
            },
            Ok(true) => {
                lemma_none_false_more(env, clauses, i);
                lemma_clauses(base, m, f, clauses, i + 1, result, what);
            },
            Err(reason) => {
                lemma_none_false_more(env, clauses, i);
                let next = skip(m, clauses[i as int].text@, reason);
                assert(next.skipped =~= base.skipped + undecided(env, clauses.take((i + 1) as int)));
                lemma_clauses(base, next, f, clauses, i + 1, result, what);
            },
        }
    } else {
        assert(clauses.take(i as int) =~= clauses);
    }
}

/// Checking clauses succeeds exactly where none of them is false. A refusal is that of the first
/// false one, at its place and with its text; the clauses that cannot be decided are noted, in
/// order; and nothing else changes.
pub proof fn law_false_clauses_trap(
    m: MachV,
    f: FrameV,
    clauses: Seq<Clause>,
    result: Option<ValV>,
    what: Seq<char>,
)
    ensures
        ({
            let r = check_clauses(m, f, clauses, 0, result, what);
            let env = contract_env(m, f, result);
            &&& decides(env, clauses, m, r)
            &&& r.0 matches Err(t) ==> exists|k: int| #[trigger]
                first_false(env, clauses, k) && t.span == clauses[k].span && t.message == what
                    + " violated: "@ + flat(clauses[k].text@) && !t.undef
        }),
{
    assert(clauses.take(0) =~= Seq::empty());
    assert(m.skipped + Seq::<SkipV>::empty() =~= m.skipped);
    lemma_clauses(m, m, f, clauses, 0, result, what);
}

proof fn lemma_loop_clauses(base: MachV, m: MachV, f: FrameV, clauses: Seq<Clause>, i: nat)
    requires
        i <= clauses.len(),
        only_skips(base, m),
        none_false(loop_env(base, f), clauses.take(i as int)),
        m.skipped == base.skipped + undecided(loop_env(base, f), clauses.take(i as int)),
    ensures
        ({
            let r = check_loop_clauses(m, f, clauses, i);
            let env = loop_env(base, f);
            &&& decides(env, clauses, base, r)
            &&& r.0 matches Err(t) ==> exists|k: int| #[trigger]
                first_false(env, clauses, k) && t.span == clauses[k].span && t.message
                    == "loop invariant violated: "@ + flat(clauses[k].text@) && !t.undef
        }),
    decreases clauses.len() - i,
{
    let env = loop_env(base, f);
    assert(loop_env(m, f) == env);
    if i < clauses.len() {
        lemma_take_more(clauses, i);
        match clause_value(env, clauses[i as int].text@) {
            Ok(false) => {
                assert(first_false(env, clauses, i as int));
                assert(!none_false(env, clauses));
                reveal_strlit("loop invariant");
                reveal_strlit(" violated: ");
                reveal_strlit("loop invariant violated: ");
                assert("loop invariant"@ + " violated: "@ =~= "loop invariant violated: "@);
            },
            Ok(true) => {
                lemma_none_false_more(env, clauses, i);
                lemma_loop_clauses(base, m, f, clauses, i + 1);
            },
            Err(reason) => {
                lemma_none_false_more(env, clauses, i);
                let next = skip(m, clauses[i as int].text@, reason);
                assert(next.skipped =~= base.skipped + undecided(env, clauses.take((i + 1) as int)));
                lemma_loop_clauses(base, next, f, clauses, i + 1);
            },
        }
    } else {
        assert(clauses.take(i as int) =~= clauses);
    }
}

/// The invariants of a loop are checked in the current state: checking succeeds exactly where none
/// of them is false.
pub proof fn law_false_loop_invariants_trap(m: MachV, f: FrameV, clauses: Seq<Clause>)
    ensures
        ({
            let r = check_loop_clauses(m, f, clauses, 0);
            let env = loop_env(m, f);
            &&& decides(env, clauses, m, r)
            &&& r.0 matches Err(t) ==> exists|k: int| #[trigger]
                first_false(env, clauses, k) && t.span == clauses[k].span && t.message
                    == "loop invariant violated: "@ + flat(clauses[k].text@) && !t.undef
        }),
{
    assert(clauses.take(0) =~= Seq::empty());
    assert(m.skipped + Seq::<SkipV>::empty() =~= m.skipped);
    lemma_loop_clauses(m, m, f, clauses, 0);
}

proof fn lemma_invariants(
    base: MachV,
    m: MachV,
    class: ClassDecl,
    fields: usize,
    what: Seq<char>,
    i: nat,
)
    requires
        i <= class.invariants@.len(),
        only_skips(base, m),
        none_false(invariant_env(base, fields), class.invariants@.take(i as int)),
        m.skipped == base.skipped + undecided(
            invariant_env(base, fields),
            class.invariants@.take(i as int),
        ),
    ensures
        ({
            let r = check_invariants(m, class, fields, what, i);
            let env = invariant_env(base, fields);
            let clauses = class.invariants@;
            &&& decides(env, clauses, base, r)
            &&& r.0 matches Err(t) ==> exists|k: int| #[trigger]
                first_false(env, clauses, k) && t.span == clauses[k].span && t.message
                    == "class invariant of `"@ + class.name@ + "` violated at `"@ + what + "`: "@
                    + flat(clauses[k].text@) && !t.undef
        }),
    decreases class.invariants@.len() - i,
{
    let clauses = class.invariants@;
    let env = invariant_env(base, fields);
    assert(invariant_env(m, fields) == env);
    if i < clauses.len() {
        lemma_take_more(clauses, i);
        match clause_value(env, clauses[i as int].text@) {
            Ok(false) => {
                assert(first_false(env, clauses, i as int));
                assert(!none_false(env, clauses));
            },
            Ok(true) => {
                lemma_none_false_more(env, clauses, i);
                lemma_invariants(base, m, class, fields, what, i + 1);
            },
            Err(reason) => {
                lemma_none_false_more(env, clauses, i);
                let next = skip(m, clauses[i as int].text@, reason);
                assert(next.skipped =~= base.skipped + undecided(env, clauses.take((i + 1) as int)));
                lemma_invariants(base, next, class, fields, what, i + 1);
            },
        }
    } else {
        assert(clauses.take(i as int) =~= clauses);
    }
}

/// The invariants of a class are checked over the object at hand: checking succeeds exactly where
/// none of them is false, and a refusal names the class, the first false one and where it was
/// looked at.
pub proof fn law_false_class_invariants_trap(
    m: MachV,
    class: ClassDecl,
    fields: usize,
    what: Seq<char>,
)
    ensures
        ({
            let r = check_invariants(m, class, fields, what, 0);
            let env = invariant_env(m, fields);
            let clauses = class.invariants@;
            &&& decides(env, clauses, m, r)
            &&& r.0 matches Err(t) ==> exists|k: int| #[trigger]
                first_false(env, clauses, k) && t.span == clauses[k].span && t.message
                    == "class invariant of `"@ + class.name@ + "` violated at `"@ + what + "`: "@
                    + flat(clauses[k].text@) && !t.undef
        }),
{
    assert(class.invariants@.take(0) =~= Seq::empty());
    assert(m.skipped + Seq::<SkipV>::empty() =~= m.skipped);
    lemma_invariants(m, m, class, fields, what, 0);
}

// ------------------------------------------------------------------------------------------
// Callables
// ------------------------------------------------------------------------------------------

/// The state at the end of a body, before anything of the contract is looked at.
pub open spec fn body_end(c: CodeV, g: FnDecl, entry: (Result<EntryV, TrapV>, MachV), before: MachV) -> (
    MachV,
    FrameV,
) {
    let x = entry.0->Ok_0;
    let m1 = within(entry.1, before);
    let o = spent(exec_body(c, x.plan, g.body@, m1, x.frame), m1);
    (o.m, o.f)
}

/// What the body of a callable gave.
pub open spec fn body_flow(c: CodeV, g: FnDecl, entry: (Result<EntryV, TrapV>, MachV), before: MachV) -> Result<
    FlowV,
    TrapV,
> {
    let x = entry.0->Ok_0;
    let m1 = within(entry.1, before);
    exec_body(c, x.plan, g.body@, m1, x.frame).r
}

/// A function whose precondition is false in its entry state is not entered.
pub proof fn law_preconditions_hold_on_entry(c: CodeV, g: FnDecl, args: Seq<ValV>, m: MachV)
    ensures
        enter_function(c, g, args, m) matches (Ok(x), n) ==> none_false(
            contract_env(n, x.frame, None),
            g.pres@,
        ),
{
    reveal(enter_function);
    reveal(admitted);
    if let (Ok(x), n) = enter_function(c, g, args, m) {
        let (r, m0, f0) = bind_arguments(
            m,
            new_frame(None),
            g.params@,
            0,
            args,
            0,
        );
        law_false_clauses_trap(
            m0,
            x.frame,
            g.pres@,
            None,
            contract_text("pre"@, g.name@),
        );
    }
}

/// The same of an initializer.
pub proof fn law_initializer_preconditions_hold(
    c: CodeV,
    ci: usize,
    g: FnDecl,
    args: Seq<ValV>,
    m: MachV,
)
    ensures
        enter_init(c, ci, g, args, m) matches (Ok(x), n) ==> none_false(
            contract_env(n, x.frame, None),
            g.pres@,
        ),
{
    reveal(enter_init);
    reveal(admitted);
    if let (Ok(x), n) = enter_init(c, ci, g, args, m) {
        law_false_clauses_trap(
            MachV { heap: m.heap.with_object(Seq::empty()), ..m },
            x.frame,
            g.pres@,
            None,
            contract_text(
                "pre"@,
                member_text(c.classes[ci as int].name@, g.name@),
            ),
        );
    }
}

/// The same of a method.
pub proof fn law_method_preconditions_hold(
    c: CodeV,
    ci: usize,
    g: FnDecl,
    id: usize,
    args: Seq<ValV>,
    m: MachV,
)
    ensures
        enter_method(c, ci, g, id, args, m) matches (Ok(x), n) ==> none_false(
            contract_env(n, x.frame, None),
            g.pres@,
        ),
{
    reveal(enter_method);
    reveal(admitted);
    if let (Ok(x), n) = enter_method(c, ci, g, id, args, m) {
        let h = detached(m.heap, ValV::Obj { class: ci, fields: id })->Some_0.0;
        law_false_clauses_trap(
            MachV { heap: h, ..m },
            x.frame,
            g.pres@,
            None,
            contract_text(
                "pre"@,
                member_text(c.classes[ci as int].name@, g.name@),
            ),
        );
    }
}

/// A call that returns a value returns what its body returned, was entered with every
/// precondition, and left with every postcondition of that value: none was false.
pub proof fn law_calls_keep_their_contract(c: CodeV, g: FnDecl, args: Seq<ValV>, m: MachV)
    ensures
        call(c, g, args, m).0 matches Ok(v) ==> {
            let entry = enter_function(c, g, args, m);
            let (n, f) = body_end(c, g, entry, m);
            &&& entry.0 is Ok
            &&& none_false(contract_env(entry.1, entry.0->Ok_0.frame, None), g.pres@)
            &&& none_false(contract_env(n, f, Some(v)), g.posts@)
            &&& body_flow(c, g, entry, m) matches Ok(flow) && match flow {
                FlowV::Return(x) => v == x,
                FlowV::Normal => v is Unit,
            }
        },
{
    law_preconditions_hold_on_entry(c, g, args, m);
    let entry = enter_function(c, g, args, m);
    if entry.0 is Ok {
        let (n, f) = body_end(c, g, entry, m);
        if let Ok(flow) = body_flow(c, g, entry, m) {
            law_false_clauses_trap(
                n,
                f,
                g.posts@,
                Some(result_of(flow)),
                contract_text("post"@, g.name@),
            );
        }
    }
}

/// An initializer that ends leaves no postcondition and no class invariant false, and the other way
/// round: a false one makes it fail.
pub proof fn law_initializers_end_in_order(
    class: ClassDecl,
    g: FnDecl,
    id: usize,
    m: MachV,
    f: FrameV,
)
    ensures
        (leave_init(class, g, id, m, f).0 is Ok) == (none_false(
            contract_env(m, f, None),
            g.posts@,
        ) && none_false(invariant_env(m, id), class.invariants@)),
        only_skips(m, leave_init(class, g, id, m, f).1),
{
    reveal(leave_init);
    let name = member_text(class.name@, g.name@);
    let what = contract_text("post"@, name);
    law_false_clauses_trap(m, f, g.posts@, None, what);
    let n = check_clauses(m, f, g.posts@, 0, None, what).1;
    law_false_class_invariants_trap(n, class, id, name + " exit"@);
    assert(invariant_env(n, id) == invariant_env(m, id));
}

/// An object that was constructed keeps the invariants of its class where its initializer ended,
/// and the initializer its postconditions. It is a new object of that class.
pub proof fn law_constructed_objects_keep_their_invariants(
    c: CodeV,
    ci: usize,
    init: Seq<char>,
    args: Seq<ValV>,
    span: Span,
    m: MachV,
)
    ensures
        construct(c, ci, init, args, span, m).0 matches Ok(v) ==> {
            let class = c.classes[ci as int];
            let g = class.inits@[init_at(class, init, 0)->Some_0 as int];
            let id = m.heap.objects.len() as usize;
            let entry = enter_init(c, ci, g, args, burned(m));
            let (n, f) = body_end(c, g, entry, burned(m));
            &&& ci < c.classes.len()
            &&& v == ValV::Obj { class: ci, fields: id }
            &&& entry.0 is Ok
            &&& none_false(contract_env(entry.1, entry.0->Ok_0.frame, None), g.pres@)
            &&& none_false(contract_env(n, f, None), g.posts@)
            &&& none_false(invariant_env(n, id), class.invariants@)
        },
{
    if construct(c, ci, init, args, span, m).0 is Ok {
        let class = c.classes[ci as int];
        let g = class.inits@[init_at(class, init, 0)->Some_0 as int];
        let id = m.heap.objects.len() as usize;
        law_initializer_preconditions_hold(c, ci, g, args, burned(m));
        let entry = enter_init(c, ci, g, args, burned(m));
        let (n, f) = body_end(c, g, entry, burned(m));
        law_initializers_end_in_order(class, g, id, n, f);
    }
}

/// A method that ends leaves no postcondition of its result false, and no class invariant where it
/// may have changed its object; and the other way round.
pub proof fn law_methods_end_in_order(
    class: ClassDecl,
    kind: SelfKind,
    g: FnDecl,
    id: usize,
    result: ValV,
    m: MachV,
    f: FrameV,
)
    ensures
        (leave_method(class, kind, g, id, result, m, f).0 is Ok) == (none_false(
            contract_env(m, f, Some(result)),
            g.posts@,
        ) && (kind is Mut ==> none_false(invariant_env(m, id), class.invariants@))),
        only_skips(m, leave_method(class, kind, g, id, result, m, f).1),
{
    reveal(leave_method);
    let name = member_text(class.name@, g.name@);
    let what = contract_text("post"@, name);
    law_false_class_invariants_trap(m, class, id, name + " exit"@);
    let n = if kind == SelfKind::Mut {
        check_invariants(m, class, id, name + " exit"@, 0).1
    } else {
        m
    };
    law_false_clauses_trap(n, f, g.posts@, Some(result), what);
    assert(contract_env(n, f, Some(result)) == contract_env(m, f, Some(result)));
}

/// A method call that returns kept the contract of the method, and the invariants of the class
/// where the method may change its object.
pub proof fn law_method_calls_keep_their_contract(
    c: CodeV,
    ci: usize,
    method: Seq<char>,
    id: usize,
    args: Seq<ValV>,
    span: Span,
    m: MachV,
)
    ensures
        invoke(c, ci, method, id, args, span, m).0 matches Ok(v) ==> {
            let class = c.classes[ci as int];
            let member = class.methods@[method_at(class, method, 0)->Some_0 as int];
            let g = member.f;
            let entry = enter_method(c, ci, g, id, args, m);
            let (n, f) = body_end(c, g, entry, m);
            &&& ci < c.classes.len()
            &&& entry.0 is Ok
            &&& none_false(contract_env(entry.1, entry.0->Ok_0.frame, None), g.pres@)
            &&& none_false(contract_env(n, f, Some(v)), g.posts@)
            &&& member.self_kind is Mut ==> none_false(invariant_env(n, id), class.invariants@)
            &&& body_flow(c, g, entry, m) matches Ok(flow) && match flow {
                FlowV::Return(x) => v == x,
                FlowV::Normal => v is Unit,
            }
        },
{
    if invoke(c, ci, method, id, args, span, m).0 is Ok {
        let class = c.classes[ci as int];
        let member = class.methods@[method_at(class, method, 0)->Some_0 as int];
        let g = member.f;
        law_method_preconditions_hold(c, ci, g, id, args, m);
        let entry = enter_method(c, ci, g, id, args, m);
        let (n, f) = body_end(c, g, entry, m);
        let flow = body_flow(c, g, entry, m)->Ok_0;
        law_methods_end_in_order(class, member.self_kind, g, id, result_of(flow), n, f);
    }
}

// ------------------------------------------------------------------------------------------
// Loops
// ------------------------------------------------------------------------------------------

/// A loop that ends or goes on had no false invariant at its head.
pub proof fn law_loops_keep_their_invariants(
    c: CodeV,
    plan: PlanV,
    s: Stmt,
    scope: ScopeId,
    l: LoopV,
    m: MachV,
    f: FrameV,
)
    requires
        s is While,
    ensures
        run_loop(c, plan, s, scope, l, m, f).r is Ok ==> m.fuel > 0 && none_false(
            loop_env(m, f),
            s->While_invariants@,
        ),
        m.fuel > 0 && !none_false(loop_env(m, f), s->While_invariants@) ==> run_loop(
            c,
            plan,
            s,
            scope,
            l,
            m,
            f,
        ).r is Err && run_loop(c, plan, s, scope, l, m, f).f == f,
{
    if m.fuel > 0 {
        law_false_loop_invariants_trap(burned(m), f, s->While_invariants@);
        assert(loop_env(burned(m), f) == loop_env(m, f));
    }
}

/// The measure at the head of a turn is not negative, or the turn traps.
pub proof fn law_measures_are_not_negative(
    v: Clause,
    head: Result<int, Seq<char>>,
    m: MachV,
)
    ensures
        (monitored_head(Some(v), Some(head), m).0 is Err) == (head matches Ok(n) && n < 0),
        monitored_head(Some(v), Some(head), m).0 matches Ok(Some(n)) ==> head == Ok::<
            int,
            Seq<char>,
        >(n) && 0 <= n,
        only_skips(m, monitored_head(Some(v), Some(head), m).1),
{
    reveal(monitored_head);
}

/// The measure after a turn is below the one at its head, or the loop traps.
pub proof fn law_measures_fall(v: Clause, head: int, m: MachV, f: FrameV)
    ensures
        (check_descent(Some(v), Some(head), m, f).0 is Err) == (measure_value(
            variant_env(m, f),
            v.text@,
        ) matches Ok(n) && n >= head),
        only_skips(m, check_descent(Some(v), Some(head), m, f).1),
{
    reveal(check_descent);
}

/// A loop whose condition is false ends where the condition left the state; one whose condition is
/// true and whose body falls through has a lower measure afterwards, and is the loop again.
pub proof fn law_loops_turn(
    c: CodeV,
    plan: PlanV,
    s: Stmt,
    scope: ScopeId,
    l: LoopV,
    m: MachV,
    f: FrameV,
)
    requires
        s is While,
        run_loop(c, plan, s, scope, l, m, f).r is Ok,
    ensures
        ({
            let m1 = check_loop_clauses(burned(m), f, s->While_invariants@, 0).1;
            let o = spent(eval_bool(c, SiteV { plan, scope }, s->While_cond, m1, f), m1);
            let whole = run_loop(c, plan, s, scope, l, m, f);
            &&& o.r is Ok
            &&& o.r == Ok::<bool, TrapV>(false) ==> whole.r == Ok::<FlowV, TrapV>(FlowV::Normal)
                && whole.m == o.m && whole.f == o.f
            &&& o.r == Ok::<bool, TrapV>(true) ==> {
                let head = match s->While_variant {
                    Some(v) => Some(measure_value(variant_env(m1, f), v.text@)),
                    None => None,
                };
                let m2 = within(monitored_head(s->While_variant, head, o.m).1, o.m);
                let b = spent(
                    exec_block(c, plan, s->While_body@, l.body, l.backedge, m2, o.f),
                    m2,
                );
                match b.r {
                    Ok(FlowV::Return(v)) => whole.r == Ok::<FlowV, TrapV>(FlowV::Return(v)),
                    Ok(FlowV::Normal) => {
                        let m3 = check_descent(
                            s->While_variant,
                            monitored_head(s->While_variant, head, o.m).0->Ok_0,
                            b.m,
                            b.f,
                        ).1;
                        whole == run_loop(c, plan, s, scope, l, within(m3, b.m), b.f)
                    },
                    Err(_) => false,
                }
            }
        }),
{
    law_false_loop_invariants_trap(burned(m), f, s->While_invariants@);
}

} // verus!
