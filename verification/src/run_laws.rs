//! What holds of every run.
use vstd::prelude::*;

use crate::ast::{BinOp, Expr, ExprKind, FnDecl, IntTy, Program, Stmt};
use crate::bindings::{distinct, law_bind, law_unbind, unbind, value_of};
use crate::drops::{PhaseV, RouteV};
use crate::effects::{
    assignment_site, capture_loan, copy_back, exposure_roots, open_loan, release_loan, LoanV,
    ReadyV,
};
use crate::machine::{
    check_invariants, emptied, held_at, CodeV, FrameV, MachV, RtPlaceV, SiteV,
};
use crate::outline::{BlockId, ScopeId};
use crate::plan::{NormalV, PlanV};
use crate::program::ProgramV;
use crate::run::{
    failed_reports, is_test, planned_reports, program_reports, test_reports, ReportV,
};
use crate::semantics::{
    drop_field, drop_phases, eval_binary, eval_bool, eval_is_some, eval_moved, exec_block,
    exec_stmts, halt, run_assign, run_deinit, run_field_assign, settled_machine, spent, FlowV,
};
use crate::span::Span;
use crate::steps::{adopt, computed, exact, int_type, slot_presence, slot_take};
use crate::value::{ArrV, TrapV, ValV};

verus! {

// ------------------------------------------------------------------------------------------
// Control
// ------------------------------------------------------------------------------------------

/// A trap in a block skips the cleanup of its exit, and a return has run its own: in both cases
/// the block leaves exactly what its statements left.
pub proof fn law_traps_and_returns_skip_the_normal_exit(
    c: CodeV,
    plan: PlanV,
    stmts: Seq<Stmt>,
    block: BlockId,
    normal: Option<RouteV>,
    m: MachV,
    f: FrameV,
)
    requires
        block.0 < plan.blocks.len(),
        plan.blocks[block.0 as int].flow.reaches_next == (normal is Some),
        exec_stmts(c, plan, stmts, block, m, f).r != Ok::<FlowV, TrapV>(
            FlowV::Normal,
        ),
    ensures
        exec_block(c, plan, stmts, block, normal, m, f) == exec_stmts(
            c,
            plan,
            stmts,
            block,
            m,
            f,
        ),
{
}

/// A logical operator whose first operand decides runs nothing of the second.
pub proof fn law_logical_operators_stop_early(c: CodeV, p: SiteV, e: Expr, m: MachV, f: FrameV)
    requires
        e.kind is Binary,
        e.kind->Binary_op is And || e.kind->Binary_op is Or,
        spent(eval_bool(c, p, *e.kind->Binary_lhs, m, f), m).r == Ok::<
            bool,
            TrapV,
        >(e.kind->Binary_op is Or),
    ensures
        ({
            let o = spent(eval_bool(c, p, *e.kind->Binary_lhs, m, f), m);
            let r = eval_binary(c, p, e, m, f);
            &&& r.r == Ok::<ValV, TrapV>(ValV::Bool(e.kind->Binary_op is Or))
            &&& r.m == o.m
            &&& r.f == o.f
        }),
{
}

/// Where the value of an assignment traps, the destination is as the evaluation left it: nothing
/// was destroyed or bound.
pub proof fn law_failed_values_assign_nothing(
    c: CodeV,
    plan: PlanV,
    s: Stmt,
    scope: ScopeId,
    m: MachV,
    f: FrameV,
)
    requires
        s is Assign,
        assignment_site(plan, scope, s->Assign_name@, s->Assign_name_span) is Ok,
        eval_moved(c, SiteV { plan, scope }, s->Assign_value, m, f).r is Err,
    ensures
        ({
            let o = spent(eval_moved(c, SiteV { plan, scope }, s->Assign_value, m, f), m);
            run_assign(c, plan, s, scope, m, f) == halt::<FlowV>(o.r->Err_0, o.m, o.f)
        }),
{
}

/// Where the value of a field assignment traps, the field is as the evaluation left it.
pub proof fn law_failed_values_store_nothing(
    c: CodeV,
    plan: PlanV,
    s: Stmt,
    scope: ScopeId,
    ready: ReadyV,
    m: MachV,
    f: FrameV,
)
    requires
        s is FieldAssign,
        ready.field is Some,
        eval_moved(c, SiteV { plan, scope }, s->FieldAssign_value, m, f).r is Err,
    ensures
        ({
            let o = spent(eval_moved(c, SiteV { plan, scope }, s->FieldAssign_value, m, f), m);
            run_field_assign(c, plan, s, scope, ready, m, f) == halt::<FlowV>(
                o.r->Err_0,
                o.m,
                o.f,
            )
        }),
{
}

// ------------------------------------------------------------------------------------------
// Ownership
// ------------------------------------------------------------------------------------------

/// A local that an owner was moved out of is bound no more, and every other local has the value
/// it had.
pub proof fn law_moved_locals_are_gone(m: MachV, f: FrameV, name: Seq<char>, other: Seq<char>)
    requires
        distinct(f.vars),
    ensures
        ({
            let (m1, f1) = emptied(m, f, RtPlaceV::Local(name));
            &&& m1 == m
            &&& held_at(m1, f1, RtPlaceV::Local(name)) is None
            &&& other != name ==> held_at(m1, f1, RtPlaceV::Local(other)) == held_at(
                m,
                f,
                RtPlaceV::Local(other),
            )
            &&& distinct(f1.vars)
        }),
{
    law_unbind(f.vars, name, other);
}

/// Taking the payload out of an owning option empties the option: it has no payload then, and
/// taking again traps.
pub proof fn law_payload_is_taken_once(f: FrameV, name: Seq<char>, span: Span, at: Span)
    requires
        slot_take(f, name, span, at).0 is Ok,
    ensures
        ({
            let f1 = slot_take(f, name, span, at).1;
            &&& slot_presence(value_of(f.vars, name)) == Some(true)
            &&& slot_presence(value_of(f1.vars, name)) == Some(false)
            &&& slot_take(f1, name, span, at).0 is Err
            &&& slot_take(f1, name, span, at).1 == f1
        }),
{
    law_bind(f.vars, name, value_of(slot_take(f, name, span, at).1.vars, name)->Some_0, name);
    match value_of(f.vars, name) {
        Some(ValV::AffineOptBoolArray(Some(id))) => {
            law_bind(f.vars, name, ValV::AffineOptBoolArray(None), name);
        },
        Some(ValV::AffineOptClass { class, value: Some(fields) }) => {
            law_bind(f.vars, name, ValV::AffineOptClass { class, value: None }, name);
        },
        _ => {},
    }
}

/// Asking a named owning option for its presence takes nothing out of it and runs nothing.
pub proof fn law_presence_takes_nothing(
    c: CodeV,
    p: SiteV,
    e: Expr,
    m: MachV,
    f: FrameV,
    name: Seq<char>,
)
    requires
        e.kind matches ExprKind::IsSome { operand } && operand.kind matches ExprKind::Var(n) && n@
            == name,
        slot_presence(value_of(f.vars, name)) is Some,
    ensures
        eval_is_some(c, p, e, m, f).m == m,
        eval_is_some(c, p, e, m, f).f == f,
        eval_is_some(c, p, e, m, f).r == Ok::<ValV, TrapV>(
            ValV::Bool(slot_presence(value_of(f.vars, name))->Some_0),
        ),
{
}

/// The authority over a descriptor of a scripted world is handed out at most once.
pub proof fn law_descriptors_are_adopted_once(m: MachV, fd: i128, span: Span, later: Span)
    requires
        m.world is Some,
        adopt(m, fd, span).0 is Ok,
    ensures
        adopt(adopt(m, fd, span).1, fd, later).0 is Err,
{
    let w = m.world->Some_0;
    let claimed = w.claimed.push(fd);
    assert(claimed[claimed.len() - 1] == fd);
}

/// Where a phase of a destruction traps, the destruction ends there: no later phase runs.
pub proof fn law_failed_phases_end_a_destruction(
    c: CodeV,
    class: usize,
    id: usize,
    what: Seq<char>,
    phases: Seq<PhaseV>,
    i: nat,
    m: MachV,
)
    requires
        i < phases.len(),
    ensures
        ({
            let all = drop_phases(c, class, id, what, phases, i, m);
            let checked = settled_machine(
                check_invariants(m, c.classes[class as int], id, what, 0),
                m,
            );
            &&& phases[i as int] is CheckInvariant && checked.0 is Err ==> all == checked
            &&& phases[i as int] matches PhaseV::RunDeinitializer(owner) ==> {
                let ran = settled_machine(run_deinit(c, class, id, owner, m), m);
                ran.0 is Err ==> all == ran
            }
            &&& phases[i as int] matches PhaseV::DropField(field) ==> (m.heap.object(
                id,
            ) matches Some(fields) ==> (value_of(fields, field.name) matches Some(held) ==> {
                let m1 = MachV {
                    heap: m.heap.set_object(id, unbind(fields, field.name)),
                    ..m
                };
                let dropped = settled_machine(drop_field(c, held, field, what, m1), m1);
                dropped.0 is Err ==> all == dropped
            }))
        }),
{
}

// ------------------------------------------------------------------------------------------
// Exposures
// ------------------------------------------------------------------------------------------

proof fn lemma_copy_back(m: MachV, loan: LoanV, bytes: Seq<Option<i128>>, kw: Span, i: nat)
    requires
        copy_back(m, loan, bytes, kw, i).0 is Ok,
        m.heap.array(loan.array) is Some,
        m.heap.array(loan.array)->Some_0.values.len() == loan.len,
        bytes.len() == loan.len,
        i <= loan.len,
    ensures
        ({
            let a = m.heap.array(loan.array)->Some_0;
            let m1 = copy_back(m, loan, bytes, kw, i).1;
            &&& m1.heap.array(loan.array) is Some
            &&& m1.heap.array(loan.array)->Some_0.values.len() == loan.len
            &&& forall|k: int|
                0 <= k < i ==> m1.heap.array(loan.array)->Some_0.values[k] == a.values[k]
            &&& forall|k: int|
                i <= k < loan.len ==> bytes[k] is Some && m1.heap.array(
                    loan.array,
                )->Some_0.values[k] == ValV::Int(bytes[k]->Some_0)
        }),
    decreases bytes.len() - i,
{
    if i < loan.len {
        let a = m.heap.array(loan.array)->Some_0;
        let next = MachV {
            heap: m.heap.set_array(
                loan.array,
                ArrV {
                    values: a.values.update(i as int, ValV::Int(bytes[i as int]->Some_0)),
                    ..a
                },
            ),
            ..m
        };
        lemma_copy_back(next, loan, bytes, kw, i + 1);
        let m1 = copy_back(next, loan, bytes, kw, i + 1).1;
        assert(copy_back(m, loan, bytes, kw, i).1 == m1);
        let before = next.heap.array(loan.array)->Some_0.values;
        let after = m1.heap.array(loan.array)->Some_0.values;
        assert(after[i as int] == before[i as int]);
        assert forall|k: int| 0 <= k < i implies after[k] == a.values[k] by {
            assert(after[k] == before[k]);
        }
    }
}

/// A mutable exposure that ends rebuilds its array from the final bytes, element by element.
pub proof fn law_rebuilt_arrays_hold_the_final_bytes(
    m: MachV,
    loan: LoanV,
    bytes: Seq<Option<i128>>,
    kw: Span,
)
    requires
        copy_back(m, loan, bytes, kw, 0).0 is Ok,
        m.heap.array(loan.array) is Some,
        m.heap.array(loan.array)->Some_0.values.len() == loan.len,
        bytes.len() == loan.len,
    ensures
        ({
            let m1 = copy_back(m, loan, bytes, kw, 0).1;
            &&& m1.heap.array(loan.array) is Some
            &&& m1.heap.array(loan.array)->Some_0.values =~= Seq::new(
                loan.len as nat,
                |k: int| ValV::Int(bytes[k]->Some_0),
            )
        }),
{
    lemma_copy_back(m, loan, bytes, kw, 0);
}

/// An exposure whose storage nobody wrote to gives the array back as it was: what is captured are
/// the elements that were lent, and the rebuilt array has them again.
pub proof fn law_untouched_exposures_change_nothing(n: NormalV, kw: Span, m: MachV, f: FrameV)
    requires
        open_loan(n, kw, m, f).0 is Ok,
        m.raw.len() <= i128::MAX,
        forall|id: usize|
            (#[trigger] m.heap.array(id)) matches Some(a) ==> a.values.len() <= usize::MAX,
    ensures
        ({
            let (r, m1, f1) = open_loan(n, kw, m, f);
            let loan = r->Ok_0;
            let bytes = capture_loan(loan, kw, m1, f1);
            &&& bytes is Ok
            &&& copy_back(m1, loan, bytes->Ok_0, kw, 0).0 is Ok
            &&& copy_back(m1, loan, bytes->Ok_0, kw, 0).1.heap.array(loan.array)
                == m.heap.array(loan.array)
        }),
{
    reveal(open_loan);
    reveal(capture_loan);
    let (r, m1, f1) = open_loan(n, kw, m, f);
    let loan = r->Ok_0;
    let (owner, pointer, resource, capture, release) = exposure_roots(n, kw)->Ok_0;
    let p = ValV::Ptr(loan.alloc, 0);
    let a = m.heap.array(loan.array)->Some_0;
    let fa = crate::machine::with_var(f, pointer, p);
    let fb = crate::machine::with_var(fa, resource, ValV::Unit);
    law_bind(fa.vars, resource, ValV::Unit, resource);
    law_bind(fb.vars, release, p, resource);
    law_bind(fb.vars, release, p, release);
    assert(value_of(f1.vars, loan.capture) is Some);
    let bytes = capture_loan(loan, kw, m1, f1)->Ok_0;
    assert(bytes.len() == loan.len);
    lemma_restore(m1, loan, bytes, kw, 0, a.values);
    let b = copy_back(m1, loan, bytes, kw, 0).1.heap.array(loan.array)->Some_0;
    assert(b.values =~= a.values);
}

proof fn lemma_restore(
    m: MachV,
    loan: LoanV,
    bytes: Seq<Option<i128>>,
    kw: Span,
    i: nat,
    values: Seq<ValV>,
)
    requires
        m.heap.array(loan.array) is Some,
        m.heap.array(loan.array)->Some_0.values == values,
        values.len() == loan.len,
        bytes.len() == loan.len,
        forall|k: int|
            0 <= k < loan.len ==> (#[trigger] bytes[k]) is Some && values[k] == ValV::Int(
                bytes[k]->Some_0,
            ),
    ensures
        copy_back(m, loan, bytes, kw, i).0 is Ok,
        copy_back(m, loan, bytes, kw, i).1.heap.array(loan.array) == m.heap.array(loan.array),
    decreases bytes.len() - i,
{
    if i < loan.len {
        let a = m.heap.array(loan.array)->Some_0;
        let same = a.values.update(i as int, ValV::Int(bytes[i as int]->Some_0));
        assert(same =~= a.values);
        let next = MachV {
            heap: m.heap.set_array(loan.array, ArrV { values: same, ..a }),
            ..m
        };
        lemma_restore(next, loan, bytes, kw, i + 1, values);
    }
}

/// The storage of a loan that was released is dead: nothing is captured from it any more.
pub proof fn law_released_loans_are_dead(loan: LoanV, kw: Span, m: MachV, f: FrameV, g: FrameV)
    requires
        release_loan(loan, kw, m, f).0 is Ok,
    ensures
        capture_loan(loan, kw, release_loan(loan, kw, m, f).1, g) is Err,
{
    reveal(release_loan);
    reveal(capture_loan);
}

// ------------------------------------------------------------------------------------------
// Arithmetic
// ------------------------------------------------------------------------------------------

/// Quotient and remainder are Euclidean.
pub proof fn law_division_is_euclidean(a: i128, b: i128, it: IntTy, span: Span, rhs: Span)
    requires
        exact(BinOp::Div, a, b, it, span, rhs) is Ok,
        exact(BinOp::Rem, a, b, it, span, rhs) is Ok,
    ensures
        ({
            let q = exact(BinOp::Div, a, b, it, span, rhs)->Ok_0;
            let r = exact(BinOp::Rem, a, b, it, span, rhs)->Ok_0;
            &&& a == b * q + r
            &&& 0 <= r
            &&& b > 0 ==> r < b
            &&& b < 0 ==> r < -b
        }),
{
    let x: int = a as int;
    let y: int = b as int;
    let q = x / y;
    let r = x % y;
    assert(x == y * q + r && 0 <= r && (y > 0 ==> r < y) && (y < 0 ==> r < -y)) by (nonlinear_arith)
        requires
            y != 0,
            q == x / y,
            r == x % y,
    ;
}

/// Where both operands fit their type, so does every result that arithmetic gives; a result that
/// would not fit is a trap.
pub proof fn law_results_fit_their_type(
    source: Seq<char>,
    op: BinOp,
    a: i128,
    b: i128,
    e: Expr,
    rhs: Span,
    it: IntTy,
)
    requires
        int_type(e) == Some(it),
        it.least() <= a <= it.greatest(),
        it.least() <= b <= it.greatest(),
        computed(source, op, a, b, e, rhs) is Ok,
    ensures
        computed(source, op, a, b, e, rhs)->Ok_0 matches ValV::Int(n) && it.least() <= n
            <= it.greatest(),
{
    if op is Div || op is Rem {
        let x: int = a as int;
        let y: int = b as int;
        let q = x / y;
        let r = x % y;
        let lo = it.least();
        let hi = it.greatest();
        assert(lo == 0 || lo == -hi - 1);
        assert(x == y * q + r && 0 <= r && (y > 0 ==> r < y) && (y < 0 ==> r < -y))
            by (nonlinear_arith)
            requires
                y != 0,
                q == x / y,
                r == x % y,
        ;
        lemma_quotient_fits(x, y, q, r, lo, hi);
    }
}

proof fn lemma_quotient_fits(x: int, y: int, q: int, r: int, lo: int, hi: int)
    requires
        lo <= x <= hi,
        lo <= y <= hi,
        lo == 0 || lo == -hi - 1,
        0 <= hi,
        y != 0,
        x == y * q + r,
        0 <= r,
        y > 0 ==> r < y,
        y < 0 ==> r < -y,
    ensures
        lo <= r <= hi,
        !(lo < 0 && x == lo && y == -1) ==> lo <= q <= hi,
{
    if y > 0 {
        if x >= 0 {
            assert(0 <= q <= x) by (nonlinear_arith)
                requires
                    y > 0,
                    x >= 0,
                    x == y * q + r,
                    0 <= r < y,
            ;
        } else {
            assert(x <= q < 0) by (nonlinear_arith)
                requires
                    y > 0,
                    x < 0,
                    x == y * q + r,
                    0 <= r < y,
            ;
        }
    } else {
        let z = -y;
        if x >= 0 {
            assert(-x <= q <= 0) by (nonlinear_arith)
                requires
                    z > 0,
                    z == -y,
                    x >= 0,
                    x == y * q + r,
                    0 <= r < z,
            ;
        } else {
            assert(0 < q <= -x) by (nonlinear_arith)
                requires
                    z > 0,
                    z == -y,
                    x < 0,
                    x == y * q + r,
                    0 <= r < z,
            ;
            if x == lo && y != -1 {
                assert(q < -x) by (nonlinear_arith)
                    requires
                        z >= 2,
                        z == -y,
                        x <= -2,
                        x == y * q + r,
                        0 <= r < z,
                        q > 0,
                ;
            }
        }
    }
}

// ------------------------------------------------------------------------------------------
// Reports
// ------------------------------------------------------------------------------------------

/// The names of the tests among the first `n` functions, in order.
pub open spec fn test_names(fns: Seq<FnDecl>, n: nat) -> Seq<Seq<char>>
    decreases n,
{
    if n == 0 || n > fns.len() {
        Seq::empty()
    } else if is_test(fns[n - 1].name@) {
        test_names(fns, (n - 1) as nat).push(fns[n - 1].name@)
    } else {
        test_names(fns, (n - 1) as nat)
    }
}

pub open spec fn report_names(reports: Seq<ReportV>) -> Seq<Seq<char>> {
    Seq::new(reports.len(), |i: int| reports[i].name)
}

proof fn lemma_failed_names(fns: Seq<FnDecl>, reason: Seq<char>, n: nat)
    ensures
        report_names(failed_reports(fns, reason, n)) == test_names(fns, n),
    decreases n,
{
    if n == 0 || n > fns.len() {
        assert(report_names(failed_reports(fns, reason, n)) =~= test_names(fns, n));
    } else {
        lemma_failed_names(fns, reason, (n - 1) as nat);
        assert(report_names(failed_reports(fns, reason, n)) =~= test_names(fns, n));
    }
}

proof fn lemma_run_names(c: CodeV, file: Seq<char>, n: nat)
    ensures
        report_names(test_reports(c, file, n)) == test_names(c.fns, n),
    decreases n,
{
    if n == 0 || n > c.fns.len() {
        assert(report_names(test_reports(c, file, n)) =~= test_names(c.fns, n));
    } else {
        lemma_run_names(c, file, (n - 1) as nat);
        assert(report_names(test_reports(c, file, n)) =~= test_names(c.fns, n));
    }
}

/// Every test of a program is reported, by its name and in order, whether it runs or the program
/// is refused.
pub proof fn law_every_test_is_reported(p: Program, file: Seq<char>, source: Seq<char>)
    ensures
        report_names(program_reports(p, file, source)) == test_names(p.fns@, p.fns@.len()),
        forall|control: ProgramV|
            report_names(#[trigger] planned_reports(p, file, source, control)) == test_names(
                p.fns@,
                p.fns@.len(),
            ),
{
    assert forall|control: ProgramV|
        report_names(#[trigger] planned_reports(p, file, source, control)) == test_names(
            p.fns@,
            p.fns@.len(),
        ) by {
        match crate::gates::program_gate(p) {
            Err(reason) => {
                lemma_failed_names(p.fns@, reason, p.fns@.len());
            },
            Ok(_) => {
                lemma_run_names(crate::run::code_of(p, source, control), file, p.fns@.len());
            },
        }
    }
    match crate::program::sealed_program(p, crate::program::program_outlines(p)) {
        Err(e) => {
            lemma_failed_names(
                p.fns@,
                crate::value::plan_message(e.message),
                p.fns@.len(),
            );
        },
        Ok(_) => {},
    }
}

} // verus!
