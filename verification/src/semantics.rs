//! What a run means: the value, the trap and the state that each expression, statement and
//! destruction leaves.
//!
//! Every recursive step is stated from the state before it. A step never gains fuel, and a step
//! that spends none leaves no more fields and locals than there were; `within` and `settled` name
//! that bound where one step follows another.
use vstd::prelude::*;

use crate::ast::{
    ClassDecl, Clause, DeviceOp, Expr, ExprKind, FnDecl, Mutability, RecordDecl, ResOp, SelfKind,
    Stmt, Ty, UnOp,
};
use crate::bindings::{bind, unbind, value_of};
use crate::devices::shim_step;
use crate::drops::{ActionV, ClassActionV, ClassPlanV, FieldV, PhaseV, RecipeV, RouteV};
use crate::effects::{
    assignment_site, capture_loan, copy_back, open_loan, payload_differs, preflight, raw_alloc,
    raw_free, refuse, release_loan, replaced_recipe, span_of, value_fits, ReadyV,
};
use crate::heap::{detached, snapshot, total_fields, FieldsV};
use crate::machine::{
    arm_params, armed, bind_arguments, bind_members, burned, check_clause, check_clauses,
    check_invariants, check_loop_clauses, cleared, due_clears, due_drops, emptied, held_at,
    new_frame, out_of_fuel, shadowed, skip, source_of, unreach, variant_env, with_old, with_var,
    CodeV, DropStepV, FrameV, MachV, RtPlaceV, SiteV,
};
use crate::monitor::{measure_value, Monitored};
use crate::outline::{BlockId, ScopeId, StatementPlanKind};
use crate::place::OwnerV;
use crate::plan::{LoopV, PlanV};
use crate::rawheap::raw_step;
use crate::repr::opt_view;
use crate::span::Span;
use crate::steps::{
    adopt, allocate_array, array_get, array_id, array_len, array_put, compared, computed, copied,
    empty_option, field_of, literal_array, map_id, map_put, map_take, narrowed, negated, object_id,
    payload_value, presence, record_field, slot_presence, slot_take, uart_status, uart_write,
    with_uart, with_world, wrap_owned, wrap_pointer,
};
use crate::text::{int_text, nat_text};
use crate::value::{plan_trap, stuck, trap, undefined, TrapV, ValV};

verus! {

// ------------------------------------------------------------------------------------------
// Outcomes
// ------------------------------------------------------------------------------------------

/// How a statement ends.
pub ghost enum FlowV {
    Normal,
    Return(ValV),
}

/// What a step gives, and the state it leaves.
#[verifier::reject_recursive_types(T)]
pub ghost struct Out<T> {
    pub r: Result<T, TrapV>,
    pub m: MachV,
    pub f: FrameV,
}

pub open spec fn ok<T>(v: T, m: MachV, f: FrameV) -> Out<T> {
    Out { r: Ok(v), m, f }
}

pub open spec fn halt<T>(t: TrapV, m: MachV, f: FrameV) -> Out<T> {
    Out { r: Err(t), m, f }
}

/// A step that leaves the frame.
pub open spec fn lift<T>(s: (Result<T, TrapV>, MachV), f: FrameV) -> Out<T> {
    Out { r: s.0, m: s.1, f }
}

/// A step that leaves the state.
pub open spec fn pure<T>(r: Result<T, TrapV>, m: MachV, f: FrameV) -> Out<T> {
    Out { r, m, f }
}

/// How much a destruction can still take apart: the fields of all objects, and the locals.
pub open spec fn weight(m: MachV, f: FrameV) -> nat {
    total_fields(m.heap.objects) + f.vars.len()
}

/// A machine after a step from `m`: it has no more fuel. Each interpreter function promises that
/// of itself, so where it runs the machine is `after` unchanged; the bound makes the recursion
/// below well-founded.
pub open spec fn within(after: MachV, m: MachV) -> MachV {
    if after.fuel <= m.fuel {
        after
    } else {
        MachV { fuel: m.fuel, ..after }
    }
}

pub open spec fn spent<T>(o: Out<T>, m: MachV) -> Out<T> {
    Out { m: within(o.m, m), ..o }
}

/// The step spent fuel, or left no more to take apart.
pub open spec fn shrinks(after: MachV, g: FrameV, m: MachV, f: FrameV) -> bool {
    after.fuel < m.fuel || (after.fuel == m.fuel && weight(after, g) <= weight(m, f))
}

/// The state after a step from `m` and `f`: it spent fuel, or left no more to take apart. As with
/// [`within`], the interpreter never takes the other branch.
pub open spec fn settled<T>(o: Out<T>, m: MachV, f: FrameV) -> Out<T> {
    if shrinks(o.m, o.f, m, f) {
        o
    } else {
        Out { r: o.r, m, f }
    }
}

pub open spec fn fewer(after: MachV, m: MachV) -> bool {
    after.fuel < m.fuel || (after.fuel == m.fuel && total_fields(after.heap.objects)
        <= total_fields(m.heap.objects))
}

pub open spec fn settled_machine<T>(s: (Result<T, TrapV>, MachV), m: MachV) -> (
    Result<T, TrapV>,
    MachV,
) {
    if fewer(s.1, m) {
        s
    } else {
        (s.0, m)
    }
}

// ------------------------------------------------------------------------------------------
// Declarations
// ------------------------------------------------------------------------------------------

/// The last function of a name among the first `n`.
pub open spec fn fn_at(fns: Seq<FnDecl>, name: Seq<char>, n: nat) -> Option<nat>
    decreases n,
{
    if n == 0 || n > fns.len() {
        None
    } else if fns[n - 1].name@ == name {
        Some((n - 1) as nat)
    } else {
        fn_at(fns, name, (n - 1) as nat)
    }
}

/// The first class of a name, at `i` or later.
pub open spec fn class_at(classes: Seq<ClassDecl>, name: Seq<char>, i: nat) -> Option<nat>
    decreases classes.len() - i,
{
    if i >= classes.len() {
        None
    } else if classes[i as int].name@ == name {
        Some(i)
    } else {
        class_at(classes, name, i + 1)
    }
}

/// The first record of a name, at `i` or later.
pub open spec fn record_at(records: Seq<RecordDecl>, name: Seq<char>, i: nat) -> Option<nat>
    decreases records.len() - i,
{
    if i >= records.len() {
        None
    } else if records[i as int].name@ == name {
        Some(i)
    } else {
        record_at(records, name, i + 1)
    }
}

/// The first initializer of a name, at `i` or later.
pub open spec fn init_at(c: ClassDecl, name: Seq<char>, i: nat) -> Option<nat>
    decreases c.inits@.len() - i,
{
    if i >= c.inits@.len() {
        None
    } else if c.inits@[i as int].name@ == name {
        Some(i)
    } else {
        init_at(c, name, i + 1)
    }
}

/// The first method of a name, at `i` or later.
pub open spec fn method_at(c: ClassDecl, name: Seq<char>, i: nat) -> Option<nat>
    decreases c.methods@.len() - i,
{
    if i >= c.methods@.len() {
        None
    } else if c.methods@[i as int].f.name@ == name {
        Some(i)
    } else {
        method_at(c, name, i + 1)
    }
}

// ------------------------------------------------------------------------------------------
// Entering and leaving a callable
// ------------------------------------------------------------------------------------------

/// A callable about to run: its plan and its frame.
pub ghost struct EntryV {
    pub plan: PlanV,
    pub frame: FrameV,
}

/// The plan of a callable, reconciled with its declaration.
#[verifier::opaque]
pub open spec fn plan_for(c: CodeV, owner: OwnerV, g: FnDecl) -> Result<PlanV, TrapV> {
    match c.control.body(owner, g.span) {
        Err(e) => Err(plan_trap(e)),
        Ok(b) => match b.check(g.span, g.params@, g.body@) {
            Err(e) => Err(plan_trap(e)),
            Ok(_) => Ok(b.plan),
        },
    }
}

pub open spec fn contract_text(kind: Seq<char>, name: Seq<char>) -> Seq<char> {
    kind + " of `"@ + name + "`"@
}

/// A member as a contract names it.
pub open spec fn member_text(class: Seq<char>, member: Seq<char>) -> Seq<char> {
    class + "::"@ + member
}

/// The preconditions, in the frame that the callable starts with.
#[verifier::opaque]
pub open spec fn admitted(plan: PlanV, frame: FrameV, g: FnDecl, name: Seq<char>, m: MachV) -> (
    Result<EntryV, TrapV>,
    MachV,
) {
    match check_clauses(m, frame, g.pres@, 0, None, contract_text("pre"@, name)) {
        (Err(t), m) => (Err(t), m),
        (Ok(_), m) => (Ok(EntryV { plan, frame }), m),
    }
}

#[verifier::opaque]
pub open spec fn enter_function(c: CodeV, g: FnDecl, args: Seq<ValV>, m: MachV) -> (
    Result<EntryV, TrapV>,
    MachV,
) {
    match plan_for(c, OwnerV::Function(g.name@), g) {
        Err(t) => (Err(t), m),
        Ok(plan) => match bind_arguments(m, new_frame(None), g.params@, 0, args, 0) {
            (Err(t), m, _) => (Err(t), m),
            (Ok(_), m, f) => match arm_params(plan, f, g.params@, 0) {
                (Err(t), _) => (Err(t), m),
                (Ok(_), f) => admitted(plan, f, g, g.name@, m),
            },
        },
    }
}

/// An initializer starts with a new object that has no fields yet.
#[verifier::opaque]
pub open spec fn enter_init(c: CodeV, ci: usize, g: FnDecl, args: Seq<ValV>, m: MachV) -> (
    Result<EntryV, TrapV>,
    MachV,
) {
    let class = c.classes[ci as int];
    match plan_for(c, OwnerV::Constructor { class: class.name@, init: g.name@ }, g) {
        Err(t) => (Err(t), m),
        Ok(plan) => {
            let id = m.heap.objects.len() as usize;
            let m = MachV { heap: m.heap.with_object(Seq::empty()), ..m };
            match bind_members(m, plan, new_frame(Some((ci, id))), g.params@, args, 0) {
                (Err(t), _) => (Err(t), m),
                (Ok(_), f) => admitted(plan, f, g, member_text(class.name@, g.name@), m),
            }
        },
    }
}

/// A method starts with a snapshot of its object, which `old self` means.
#[verifier::opaque]
pub open spec fn enter_method(
    c: CodeV,
    ci: usize,
    g: FnDecl,
    id: usize,
    args: Seq<ValV>,
    m: MachV,
) -> (Result<EntryV, TrapV>, MachV) {
    let class = c.classes[ci as int];
    match plan_for(c, OwnerV::Method { class: class.name@, method: g.name@ }, g) {
        Err(t) => (Err(t), m),
        Ok(plan) => match detached(m.heap, ValV::Obj { class: ci, fields: id }) {
            None => (Err(stuck(g.span, "entry copy"@)), m),
            Some((h, copy)) => {
                let m = MachV { heap: h, ..m };
                let f = with_old(new_frame(Some((ci, id))), "self"@, snapshot(h, copy));
                match bind_members(m, plan, f, g.params@, args, 0) {
                    (Err(t), _) => (Err(t), m),
                    (Ok(_), f) => admitted(plan, f, g, member_text(class.name@, g.name@), m),
                }
            },
        },
    }
}

/// What a callable gives back.
pub open spec fn result_of(flow: FlowV) -> ValV {
    match flow {
        FlowV::Return(v) => v,
        FlowV::Normal => ValV::Unit,
    }
}

/// The cleanup of the frame, after the contract was checked.
#[verifier::opaque]
pub open spec fn frame_exit(plan: PlanV) -> RouteV {
    plan.return_from(plan.body_scope, None).frame
}

/// The postconditions of an initializer, and then the class invariants.
#[verifier::opaque]
pub open spec fn leave_init(class: ClassDecl, g: FnDecl, id: usize, m: MachV, f: FrameV) -> (
    Result<(), TrapV>,
    MachV,
) {
    let name = member_text(class.name@, g.name@);
    match check_clauses(m, f, g.posts@, 0, None, contract_text("post"@, name)) {
        (Err(t), m) => (Err(t), m),
        (Ok(_), m) => check_invariants(m, class, id, name + " exit"@, 0),
    }
}

/// The class invariants where the method may have changed its object, and then the postconditions.
#[verifier::opaque]
pub open spec fn leave_method(
    class: ClassDecl,
    kind: SelfKind,
    g: FnDecl,
    id: usize,
    result: ValV,
    m: MachV,
    f: FrameV,
) -> (Result<(), TrapV>, MachV) {
    let name = member_text(class.name@, g.name@);
    let held = if kind == SelfKind::Mut {
        check_invariants(m, class, id, name + " exit"@, 0)
    } else {
        (Ok(()), m)
    };
    match held {
        (Err(t), m) => (Err(t), m),
        (Ok(_), m) => check_clauses(
            m,
            f,
            g.posts@,
            0,
            Some(result),
            contract_text("post"@, name),
        ),
    }
}

// ------------------------------------------------------------------------------------------
// Expressions
// ------------------------------------------------------------------------------------------

/// The value of an expression.
pub open spec fn eval(c: CodeV, p: SiteV, e: Expr, m: MachV, f: FrameV) -> Out<ValV>
    decreases m.fuel, 3nat, 0nat, 0nat, 0nat,
{
    if m.fuel == 0 {
        halt(out_of_fuel(e.span), m, f)
    } else {
        match p.expression(e) {
            Err(t) => halt(t, burned(m), f),
            Ok(_) => eval_kind(c, p, e, burned(m), f),
        }
    }
}

pub open spec fn eval_int(c: CodeV, p: SiteV, e: Expr, m: MachV, f: FrameV) -> Out<i128>
    decreases m.fuel, 3nat, 0nat, 1nat, 0nat,
{
    let o = eval(c, p, e, m, f);
    match o.r {
        Err(t) => halt(t, o.m, o.f),
        Ok(ValV::Int(n)) => ok(n, o.m, o.f),
        Ok(_) => halt(stuck(e.span, "integer expression"@), o.m, o.f),
    }
}

pub open spec fn eval_bool(c: CodeV, p: SiteV, e: Expr, m: MachV, f: FrameV) -> Out<bool>
    decreases m.fuel, 3nat, 0nat, 1nat, 0nat,
{
    let o = eval(c, p, e, m, f);
    match o.r {
        Err(t) => halt(t, o.m, o.f),
        Ok(ValV::Bool(b)) => ok(b, o.m, o.f),
        Ok(_) => halt(stuck(e.span, "boolean expression"@), o.m, o.f),
    }
}

/// A value that leaves the place it came from when it is taken.
pub open spec fn owning(v: ValV) -> bool {
    v is Obj || v is Arr || v is ResMap
}

/// The value of an expression whose owner takes it: an owning value leaves its place.
pub open spec fn eval_moved(c: CodeV, p: SiteV, e: Expr, m: MachV, f: FrameV) -> Out<ValV>
    decreases m.fuel, 3nat, 0nat, 1nat, 0nat,
{
    let o = eval(c, p, e, m, f);
    match o.r {
        Err(t) => halt(t, o.m, o.f),
        Ok(v) => match source_of(e) {
            Some(place) => if owning(v) {
                let (m, f) = emptied(o.m, o.f, place);
                ok(v, m, f)
            } else {
                o
            },
            None => o,
        },
    }
}

/// An argument for a parameter without a runtime value: a named resource is not read at all.
pub open spec fn eval_erased(c: CodeV, p: SiteV, e: Expr, m: MachV, f: FrameV) -> Out<()>
    decreases m.fuel, 3nat, 0nat, 2nat, 0nat,
{
    match e.kind {
        ExprKind::Var(_) | ExprKind::Borrow { .. } | ExprKind::SelfField { .. } => ok((), m, f),
        _ => {
            let o = eval_moved(c, p, e, m, f);
            match o.r {
                Err(t) => halt(t, o.m, o.f),
                Ok(_) => ok((), o.m, o.f),
            }
        },
    }
}

/// An operand of a resource transformation, evaluated for its effects.
pub open spec fn eval_operand(c: CodeV, p: SiteV, e: Expr, m: MachV, f: FrameV) -> Out<()>
    decreases m.fuel, 3nat, 0nat, 3nat, 0nat,
{
    if e.ty matches Some(Ty::Res(_)) {
        eval_erased(c, p, e, m, f)
    } else {
        let o = eval_moved(c, p, e, m, f);
        match o.r {
            Err(t) => halt(t, o.m, o.f),
            Ok(_) => ok((), o.m, o.f),
        }
    }
}

/// The expressions from `i` up to `n`, in order.
pub open spec fn eval_list(
    c: CodeV,
    p: SiteV,
    args: Seq<Expr>,
    i: nat,
    n: nat,
    acc: Seq<ValV>,
    m: MachV,
    f: FrameV,
) -> Out<Seq<ValV>>
    decreases m.fuel, 3nat, 0nat, 4nat, (n - i) as nat,
{
    if i >= n || i >= args.len() {
        ok(acc, m, f)
    } else {
        let o = spent(eval(c, p, args[i as int], m, f), m);
        match o.r {
            Err(t) => halt(t, o.m, o.f),
            Ok(v) => eval_list(c, p, args, i + 1, n, acc.push(v), o.m, o.f),
        }
    }
}

/// The arguments from `i` on, each taken from its place.
pub open spec fn moved_list(
    c: CodeV,
    p: SiteV,
    args: Seq<Expr>,
    i: nat,
    acc: Seq<ValV>,
    m: MachV,
    f: FrameV,
) -> Out<Seq<ValV>>
    decreases m.fuel, 3nat, 0nat, 4nat, (args.len() - i) as nat,
{
    if i >= args.len() {
        ok(acc, m, f)
    } else {
        let o = spent(eval_moved(c, p, args[i as int], m, f), m);
        match o.r {
            Err(t) => halt(t, o.m, o.f),
            Ok(v) => moved_list(c, p, args, i + 1, acc.push(v), o.m, o.f),
        }
    }
}

/// The operands from `i` on, for their effects.
pub open spec fn operand_list(
    c: CodeV,
    p: SiteV,
    args: Seq<Expr>,
    i: nat,
    m: MachV,
    f: FrameV,
) -> Out<()>
    decreases m.fuel, 3nat, 0nat, 4nat, (args.len() - i) as nat,
{
    if i >= args.len() {
        ok((), m, f)
    } else {
        let o = spent(eval_operand(c, p, args[i as int], m, f), m);
        match o.r {
            Err(t) => halt(t, o.m, o.f),
            Ok(_) => operand_list(c, p, args, i + 1, o.m, o.f),
        }
    }
}

/// Whether an argument stays behind: resources do, but for a followed map that a Sable body gets.
pub open spec fn stays_behind(g: FnDecl, ty: Ty) -> bool {
    ty is Res && (g.foreign is Some || !shadowed(ty))
}

/// The arguments of a call from `i` on, each for its parameter.
pub open spec fn call_args(
    c: CodeV,
    p: SiteV,
    g: FnDecl,
    args: Seq<Expr>,
    i: nat,
    acc: Seq<ValV>,
    m: MachV,
    f: FrameV,
) -> Out<Seq<ValV>>
    decreases m.fuel, 3nat, 0nat, 4nat, (args.len() - i) as nat,
{
    if i >= args.len() || i >= g.params@.len() {
        ok(acc, m, f)
    } else if stays_behind(g, g.params@[i as int].ty) {
        let o = spent(eval_erased(c, p, args[i as int], m, f), m);
        match o.r {
            Err(t) => halt(t, o.m, o.f),
            Ok(_) => call_args(c, p, g, args, i + 1, acc, o.m, o.f),
        }
    } else {
        let o = spent(eval_moved(c, p, args[i as int], m, f), m);
        match o.r {
            Err(t) => halt(t, o.m, o.f),
            Ok(v) => call_args(c, p, g, args, i + 1, acc.push(v), o.m, o.f),
        }
    }
}

/// The value of an expression whose step is spent and whose trap sites are consumed.
pub open spec fn eval_kind(c: CodeV, p: SiteV, e: Expr, m: MachV, f: FrameV) -> Out<ValV>
    decreases m.fuel, 4nat, 0nat, 1nat, 0nat,
{
    match e.kind {
        ExprKind::SlotOp { op, .. } => halt(
            undefined(
                e.span,
                "interp.slots_unsupported: `"@ + op.spec_name()
                    + "` has no interpreter semantics yet"@,
            ),
            m,
            f,
        ),
        ExprKind::IntLit(n) => ok(ValV::Int(n), m, f),
        ExprKind::BoolLit(b) => ok(ValV::Bool(b), m, f),
        ExprKind::Var(name) => pure(copied(value_of(f.vars, name@), e.span), m, f),
        ExprKind::ResOp { .. } => eval_res(c, p, e, m, f),
        ExprKind::DeviceOp { .. } => eval_device(c, p, e, m, f),
        ExprKind::RawOp { .. } => eval_raw(c, p, e, m, f),
        ExprKind::Len { array } => pure(
            array_len(m, array_id(value_of(f.vars, array@)), e.span),
            m,
            f,
        ),
        ExprKind::Index { .. } => eval_index(c, p, e, m, f),
        ExprKind::IsSome { .. } => eval_is_some(c, p, e, m, f),
        ExprKind::OptValue { .. } => eval_opt_value(c, p, e, m, f),
        ExprKind::OptTake { option, option_span } => {
            let s = slot_take(f, option@, option_span, e.span);
            Out { r: s.0, m, f: s.1 }
        },
        ExprKind::TraitCall { .. } => halt(stuck(e.span, "trait call"@), m, f),
        ExprKind::ClassField { obj, field, .. } => pure(
            copied(field_of(m, value_of(f.vars, obj@), field@), e.span),
            m,
            f,
        ),
        ExprKind::RecordField { obj, field, .. } => pure(
            copied(record_field(value_of(f.vars, obj@), field@), e.span),
            m,
            f,
        ),
        ExprKind::ClassFieldLen { obj, field } => pure(
            array_len(m, array_id(field_of(m, value_of(f.vars, obj@), field@)), e.span),
            m,
            f,
        ),
        ExprKind::ClassFieldIndex { .. } => eval_class_index(c, p, e, m, f),
        ExprKind::Widen { .. } => eval_widen(c, p, e, m, f),
        ExprKind::Narrow { .. } => eval_narrow(c, p, e, m, f),
        ExprKind::SomeE(_) => eval_some(c, p, e, m, f),
        ExprKind::NoneE => pure(empty_option(e.ty, e.span), m, f),
        ExprKind::ArrayLit(_) => eval_array_lit(c, p, e, m, f),
        ExprKind::Borrow { array, field, .. } => pure(
            borrowed(m, f, array@, opt_view(field), e.span),
            m,
            f,
        ),
        ExprKind::AllocArray { .. } => eval_alloc(c, p, e, m, f),
        ExprKind::SelfField { field } => pure(
            copied(held_at(m, f, RtPlaceV::SelfField(field@)), e.span),
            m,
            f,
        ),
        ExprKind::SelfFieldLen { field } => pure(
            array_len(m, array_id(held_at(m, f, RtPlaceV::SelfField(field@))), e.span),
            m,
            f,
        ),
        ExprKind::SelfFieldIndex { .. } => eval_self_index(c, p, e, m, f),
        ExprKind::CtorCall { .. } => eval_ctor(c, p, e, m, f),
        ExprKind::RecordLit { .. } => eval_record(c, p, e, m, f),
        ExprKind::MethodCall { .. } => eval_method(c, p, e, m, f),
        ExprKind::Unary { .. } => eval_unary(c, p, e, m, f),
        ExprKind::Binary { .. } => eval_binary(c, p, e, m, f),
        ExprKind::Call { .. } => eval_call(c, p, e, m, f),
    }
}

/// A borrow shares the storage of what it names: a local, the object at hand, or one field.
pub open spec fn borrowed(
    m: MachV,
    f: FrameV,
    base: Seq<char>,
    field: Option<Seq<char>>,
    span: Span,
) -> Result<ValV, TrapV> {
    let held = if base == "self"@ {
        match f.self_ctx {
            None => None,
            Some((class, fields)) => Some(ValV::Obj { class, fields }),
        }
    } else {
        value_of(f.vars, base)
    };
    match copied(held, span) {
        Err(t) => Err(t),
        Ok(v) => match field {
            None => Ok(v),
            Some(name) => copied(field_of(m, Some(v), name), span),
        },
    }
}

/// Too few operands for an operation.
pub open spec fn missing(e: Expr) -> TrapV {
    stuck(e.span, "operand"@)
}

pub open spec fn eval_res(c: CodeV, p: SiteV, e: Expr, m: MachV, f: FrameV) -> Out<ValV>
    decreases m.fuel, 4nat, 0nat, 0nat, 0nat,
{
    match e.kind {
        ExprKind::ResOp { op, args } => match op {
            ResOp::TestWorld => if args@.len() < 1 {
                halt(missing(e), m, f)
            } else {
                let o = spent(eval_int(c, p, args@[0], m, f), m);
                match o.r {
                    Err(t) => halt(t, o.m, o.f),
                    Ok(script) => ok(ValV::Unit, with_world(o.m, script), o.f),
                }
            },
            ResOp::TestUart => if m.uart is Some {
                halt(undefined(e.span, "test_uart: a UART profile is already selected"@), m, f)
            } else if args@.len() < 1 {
                halt(missing(e), m, f)
            } else {
                let o = spent(eval_int(c, p, args@[0], m, f), m);
                match o.r {
                    Err(t) => halt(t, o.m, o.f),
                    Ok(script) => ok(ValV::Unit, with_uart(o.m, script), o.f),
                }
            },
            ResOp::OpenFileOf => if args@.len() < 2 {
                halt(missing(e), m, f)
            } else {
                let o = spent(eval_erased(c, p, args@[0], m, f), m);
                match o.r {
                    Err(t) => halt(t, o.m, o.f),
                    Ok(_) => {
                        let q = spent(eval_int(c, p, args@[1], o.m, o.f), o.m);
                        match q.r {
                            Err(t) => halt(t, q.m, q.f),
                            Ok(fd) => match adopt(q.m, fd, e.span) {
                                (Err(t), m) => halt(t, m, q.f),
                                (Ok(_), m) => ok(ValV::Unit, m, q.f),
                            },
                        }
                    },
                }
            },
            ResOp::ResourceMapEmpty => ok(
                ValV::ResMap(m.heap.maps.len() as usize),
                MachV { heap: m.heap.with_map(), ..m },
                f,
            ),
            ResOp::ResourceMapTake => eval_map_take(c, p, e, args@, m, f),
            ResOp::ResourceMapPut => eval_map_put(c, p, e, args@, m, f),
            _ => {
                let o = operand_list(c, p, args@, 0, m, f);
                match o.r {
                    Err(t) => halt(t, o.m, o.f),
                    Ok(_) => ok(ValV::Unit, o.m, o.f),
                }
            },
        },
        _ => halt(missing(e), m, f),
    }
}

/// The followed map of an operation and its key.
pub open spec fn eval_map_key(c: CodeV, p: SiteV, e: Expr, args: Seq<Expr>, m: MachV, f: FrameV) -> Out<
    (usize, i128),
>
    decreases m.fuel, 3nat, 0nat, 5nat, 0nat,
{
    if args.len() < 2 {
        halt(missing(e), m, f)
    } else {
        let o = spent(eval(c, p, args[0], m, f), m);
        match o.r {
            Err(t) => halt(t, o.m, o.f),
            Ok(v) => match map_id(v) {
                None => halt(stuck(e.span, "resource map"@), o.m, o.f),
                Some(id) => {
                    let q = spent(eval_int(c, p, args[1], o.m, o.f), o.m);
                    match q.r {
                        Err(t) => halt(t, q.m, q.f),
                        Ok(key) => ok((id, key), q.m, q.f),
                    }
                },
            },
        }
    }
}

pub open spec fn eval_map_take(
    c: CodeV,
    p: SiteV,
    e: Expr,
    args: Seq<Expr>,
    m: MachV,
    f: FrameV,
) -> Out<ValV>
    decreases m.fuel, 3nat, 0nat, 6nat, 0nat,
{
    let o = spent(eval_map_key(c, p, e, args, m, f), m);
    match o.r {
        Err(t) => halt(t, o.m, o.f),
        Ok((id, key)) => match map_take(o.m, id, key, e.span) {
            (Err(t), m) => halt(t, m, o.f),
            (Ok(_), m) => ok(ValV::Unit, m, o.f),
        },
    }
}

pub open spec fn eval_map_put(
    c: CodeV,
    p: SiteV,
    e: Expr,
    args: Seq<Expr>,
    m: MachV,
    f: FrameV,
) -> Out<ValV>
    decreases m.fuel, 3nat, 0nat, 6nat, 0nat,
{
    if args.len() < 3 {
        halt(missing(e), m, f)
    } else {
        let o = spent(eval_map_key(c, p, e, args, m, f), m);
        match o.r {
            Err(t) => halt(t, o.m, o.f),
            Ok((id, key)) => {
                let q = spent(eval_erased(c, p, args[2], o.m, o.f), o.m);
                match q.r {
                    Err(t) => halt(t, q.m, q.f),
                    Ok(_) => match map_put(q.m, id, key, e.span) {
                        (Err(t), m) => halt(t, m, q.f),
                        (Ok(_), m) => ok(ValV::Unit, m, q.f),
                    },
                }
            },
        }
    }
}

pub open spec fn eval_device(c: CodeV, p: SiteV, e: Expr, m: MachV, f: FrameV) -> Out<ValV>
    decreases m.fuel, 4nat, 0nat, 0nat, 0nat,
{
    match e.kind {
        ExprKind::DeviceOp { op: DeviceOp::UartStatus, .. } => lift(uart_status(m, e.span), f),
        ExprKind::DeviceOp { op: DeviceOp::UartWrite, args } => if m.uart is None {
            halt(undefined(e.span, "uart_write: no UART profile selected"@), m, f)
        } else if args@.len() < 1 {
            halt(missing(e), m, f)
        } else {
            let o = spent(eval_int(c, p, args@[0], m, f), m);
            match o.r {
                Err(t) => halt(t, o.m, o.f),
                Ok(byte) => lift(uart_write(o.m, byte, e.span), o.f),
            }
        },
        _ => halt(missing(e), m, f),
    }
}

pub open spec fn eval_raw(c: CodeV, p: SiteV, e: Expr, m: MachV, f: FrameV) -> Out<ValV>
    decreases m.fuel, 4nat, 0nat, 0nat, 0nat,
{
    match e.kind {
        ExprKind::RawOp { op, args } => {
            let o = eval_list(c, p, args@, 0, args@.len(), Seq::empty(), m, f);
            match o.r {
                Err(t) => halt(t, o.m, o.f),
                Ok(vals) => {
                    let s = raw_step(o.m.raw, c.records, op, vals, e.span);
                    Out { r: s.0, m: MachV { raw: s.1, ..o.m }, f: o.f }
                },
            }
        },
        _ => halt(missing(e), m, f),
    }
}

pub open spec fn eval_index(c: CodeV, p: SiteV, e: Expr, m: MachV, f: FrameV) -> Out<ValV>
    decreases m.fuel, 4nat, 0nat, 0nat, 0nat,
{
    match e.kind {
        ExprKind::Index { array, index, .. } => {
            let o = eval_int(c, p, *index, m, f);
            match o.r {
                Err(t) => halt(t, o.m, o.f),
                Ok(idx) => pure(
                    array_get(o.m, array_id(value_of(o.f.vars, array@)), idx, e.span),
                    o.m,
                    o.f,
                ),
            }
        },
        _ => halt(missing(e), m, f),
    }
}

/// Presence is read off a named owning option in its slot; any other option is evaluated.
pub open spec fn eval_is_some(c: CodeV, p: SiteV, e: Expr, m: MachV, f: FrameV) -> Out<ValV>
    decreases m.fuel, 4nat, 0nat, 0nat, 0nat,
{
    match e.kind {
        ExprKind::IsSome { operand } => {
            let slot = match operand.kind {
                ExprKind::Var(name) => slot_presence(value_of(f.vars, name@)),
                _ => None,
            };
            match slot {
                Some(b) => ok(ValV::Bool(b), m, f),
                None => {
                    let o = eval(c, p, *operand, m, f);
                    match o.r {
                        Err(t) => halt(t, o.m, o.f),
                        Ok(v) => pure(presence(v, e.span), o.m, o.f),
                    }
                },
            }
        },
        _ => halt(missing(e), m, f),
    }
}

pub open spec fn eval_opt_value(c: CodeV, p: SiteV, e: Expr, m: MachV, f: FrameV) -> Out<ValV>
    decreases m.fuel, 4nat, 0nat, 0nat, 0nat,
{
    match e.kind {
        ExprKind::OptValue { operand } => {
            let o = eval(c, p, *operand, m, f);
            match o.r {
                Err(t) => halt(t, o.m, o.f),
                Ok(v) => pure(payload_value(v, e.span), o.m, o.f),
            }
        },
        _ => halt(missing(e), m, f),
    }
}

/// The receiver is looked up before the index runs.
pub open spec fn eval_class_index(c: CodeV, p: SiteV, e: Expr, m: MachV, f: FrameV) -> Out<ValV>
    decreases m.fuel, 4nat, 0nat, 0nat, 0nat,
{
    match e.kind {
        ExprKind::ClassFieldIndex { obj, field, index, .. } => match array_id(
            field_of(m, value_of(f.vars, obj@), field@),
        ) {
            None => halt(stuck(e.span, "array field"@), m, f),
            Some(id) => {
                let o = eval_int(c, p, *index, m, f);
                match o.r {
                    Err(t) => halt(t, o.m, o.f),
                    Ok(idx) => pure(array_get(o.m, Some(id), idx, e.span), o.m, o.f),
                }
            },
        },
        _ => halt(missing(e), m, f),
    }
}

pub open spec fn eval_self_index(c: CodeV, p: SiteV, e: Expr, m: MachV, f: FrameV) -> Out<ValV>
    decreases m.fuel, 4nat, 0nat, 0nat, 0nat,
{
    match e.kind {
        ExprKind::SelfFieldIndex { field, index } => {
            let o = eval_int(c, p, *index, m, f);
            match o.r {
                Err(t) => halt(t, o.m, o.f),
                Ok(idx) => pure(
                    array_get(
                        o.m,
                        array_id(held_at(o.m, o.f, RtPlaceV::SelfField(field@))),
                        idx,
                        e.span,
                    ),
                    o.m,
                    o.f,
                ),
            }
        },
        _ => halt(missing(e), m, f),
    }
}

pub open spec fn eval_widen(c: CodeV, p: SiteV, e: Expr, m: MachV, f: FrameV) -> Out<ValV>
    decreases m.fuel, 4nat, 0nat, 0nat, 0nat,
{
    match e.kind {
        ExprKind::Widen { arg, .. } => eval(c, p, *arg, m, f),
        _ => halt(missing(e), m, f),
    }
}

pub open spec fn eval_narrow(c: CodeV, p: SiteV, e: Expr, m: MachV, f: FrameV) -> Out<ValV>
    decreases m.fuel, 4nat, 0nat, 0nat, 0nat,
{
    match e.kind {
        ExprKind::Narrow { target, arg } => {
            let o = eval_int(c, p, *arg, m, f);
            match o.r {
                Err(t) => halt(t, o.m, o.f),
                Ok(v) => pure(narrowed(v, target, e.span), o.m, o.f),
            }
        },
        _ => halt(missing(e), m, f),
    }
}

/// An owning option takes its payload; any other holds a copy.
pub open spec fn eval_some(c: CodeV, p: SiteV, e: Expr, m: MachV, f: FrameV) -> Out<ValV>
    decreases m.fuel, 4nat, 0nat, 0nat, 0nat,
{
    match (e.kind, e.ty) {
        (ExprKind::SomeE(inner), Some(option)) => if option.affine_option() {
            let o = eval_moved(c, p, *inner, m, f);
            match o.r {
                Err(t) => halt(t, o.m, o.f),
                Ok(v) => pure(wrap_owned(v, e.span), o.m, o.f),
            }
        } else {
            match option {
                Ty::Option(payload) => {
                    let o = eval(c, p, *inner, m, f);
                    match o.r {
                        Err(t) => halt(t, o.m, o.f),
                        Ok(v) => ok(
                            ValV::Opt { payload: *payload, value: Some(Box::new(v)) },
                            o.m,
                            o.f,
                        ),
                    }
                },
                Ty::OptionRaw(_) => {
                    let o = eval(c, p, *inner, m, f);
                    match o.r {
                        Err(t) => halt(t, o.m, o.f),
                        Ok(v) => pure(wrap_pointer(v, e.span), o.m, o.f),
                    }
                },
                _ => halt(stuck(e.span, "option construction"@), m, f),
            }
        },
        _ => halt(stuck(e.span, "option construction"@), m, f),
    }
}

pub open spec fn eval_array_lit(c: CodeV, p: SiteV, e: Expr, m: MachV, f: FrameV) -> Out<ValV>
    decreases m.fuel, 4nat, 0nat, 0nat, 0nat,
{
    match (e.kind, e.ty) {
        (ExprKind::ArrayLit(elems), Some(Ty::Array(payload))) => {
            let o = eval_list(c, p, elems@, 0, elems@.len(), Seq::empty(), m, f);
            match o.r {
                Err(t) => halt(t, o.m, o.f),
                Ok(values) => lift(literal_array(o.m, *payload, values, e.span), o.f),
            }
        },
        _ => halt(stuck(e.span, "array literal"@), m, f),
    }
}

pub open spec fn eval_alloc(c: CodeV, p: SiteV, e: Expr, m: MachV, f: FrameV) -> Out<ValV>
    decreases m.fuel, 4nat, 0nat, 0nat, 0nat,
{
    match e.kind {
        ExprKind::AllocArray { elem, len, init } => {
            let o = spent(eval_int(c, p, *len, m, f), m);
            match o.r {
                Err(t) => halt(t, o.m, o.f),
                Ok(n) => {
                    let q = eval(c, p, *init, o.m, o.f);
                    match q.r {
                        Err(t) => halt(t, q.m, q.f),
                        Ok(v) => lift(allocate_array(q.m, elem, n, v, e.span), q.f),
                    }
                },
            }
        },
        _ => halt(missing(e), m, f),
    }
}

pub open spec fn eval_ctor(c: CodeV, p: SiteV, e: Expr, m: MachV, f: FrameV) -> Out<ValV>
    decreases m.fuel, 4nat, 0nat, 0nat, 0nat,
{
    match e.kind {
        ExprKind::CtorCall { class, init, args, .. } => match class_at(c.classes, class@, 0) {
            None => halt(stuck(e.span, "class"@), m, f),
            Some(ci) => {
                let o = spent(moved_list(c, p, args@, 0, Seq::empty(), m, f), m);
                match o.r {
                    Err(t) => halt(t, o.m, o.f),
                    Ok(vals) => lift(
                        construct(c, ci as usize, init@, vals, e.span, o.m),
                        o.f,
                    ),
                }
            },
        },
        _ => halt(missing(e), m, f),
    }
}

/// Fields named by a record, with the values in order.
pub open spec fn record_fields(r: RecordDecl, vals: Seq<ValV>, n: nat) -> FieldsV
    decreases n,
{
    if n == 0 || n > vals.len() || n > r.fields@.len() {
        Seq::empty()
    } else {
        bind(
            record_fields(r, vals, (n - 1) as nat),
            r.fields@[n - 1].name@,
            vals[n - 1],
        )
    }
}

/// A record literal evaluates one argument per field.
pub open spec fn eval_record(c: CodeV, p: SiteV, e: Expr, m: MachV, f: FrameV) -> Out<ValV>
    decreases m.fuel, 4nat, 0nat, 0nat, 0nat,
{
    match e.kind {
        ExprKind::RecordLit { record, args } => match record_at(c.records, record@, 0) {
            None => halt(stuck(e.span, "record"@), m, f),
            Some(ri) => {
                let r = c.records[ri as int];
                let o = eval_list(c, p, args@, 0, r.fields@.len(), Seq::empty(), m, f);
                match o.r {
                    Err(t) => halt(t, o.m, o.f),
                    Ok(vals) => ok(
                        ValV::Record {
                            record: ri as usize,
                            fields: record_fields(r, vals, vals.len()),
                        },
                        o.m,
                        o.f,
                    ),
                }
            },
        },
        _ => halt(missing(e), m, f),
    }
}

pub open spec fn eval_method(c: CodeV, p: SiteV, e: Expr, m: MachV, f: FrameV) -> Out<ValV>
    decreases m.fuel, 4nat, 0nat, 0nat, 0nat,
{
    match e.kind {
        ExprKind::MethodCall { recv, method, args, .. } => match object_id(
            value_of(f.vars, recv@),
        ) {
            None => halt(stuck(e.span, "class receiver"@), m, f),
            Some((ci, id)) => {
                let o = spent(moved_list(c, p, args@, 0, Seq::empty(), m, f), m);
                match o.r {
                    Err(t) => halt(t, o.m, o.f),
                    Ok(vals) => lift(invoke(c, ci, method@, id, vals, e.span, o.m), o.f),
                }
            },
        },
        _ => halt(missing(e), m, f),
    }
}

pub open spec fn eval_unary(c: CodeV, p: SiteV, e: Expr, m: MachV, f: FrameV) -> Out<ValV>
    decreases m.fuel, 4nat, 0nat, 0nat, 0nat,
{
    match e.kind {
        ExprKind::Unary { op: UnOp::Not, operand } => {
            let o = eval_bool(c, p, *operand, m, f);
            match o.r {
                Err(t) => halt(t, o.m, o.f),
                Ok(b) => ok(ValV::Bool(!b), o.m, o.f),
            }
        },
        ExprKind::Unary { op: UnOp::Neg, operand } => {
            let o = eval_int(c, p, *operand, m, f);
            match o.r {
                Err(t) => halt(t, o.m, o.f),
                Ok(v) => pure(negated(c.source, v, e), o.m, o.f),
            }
        },
        _ => halt(missing(e), m, f),
    }
}

/// The logical operators run their second operand only where the first leaves the answer open.
pub open spec fn eval_binary(c: CodeV, p: SiteV, e: Expr, m: MachV, f: FrameV) -> Out<ValV>
    decreases m.fuel, 4nat, 0nat, 0nat, 0nat,
{
    match e.kind {
        ExprKind::Binary { op, lhs, rhs, .. } => if op is And || op is Or {
            let o = spent(eval_bool(c, p, *lhs, m, f), m);
            match o.r {
                Err(t) => halt(t, o.m, o.f),
                Ok(l) => if l == (op is Or) {
                    ok(ValV::Bool(l), o.m, o.f)
                } else {
                    let q = eval_bool(c, p, *rhs, o.m, o.f);
                    match q.r {
                        Err(t) => halt(t, q.m, q.f),
                        Ok(r) => ok(ValV::Bool(r), q.m, q.f),
                    }
                },
            }
        } else {
            let o = spent(eval_int(c, p, *lhs, m, f), m);
            match o.r {
                Err(t) => halt(t, o.m, o.f),
                Ok(a) => {
                    let q = eval_int(c, p, *rhs, o.m, o.f);
                    match q.r {
                        Err(t) => halt(t, q.m, q.f),
                        Ok(b) => if op.comparison() {
                            ok(ValV::Bool(compared(op, a, b)), q.m, q.f)
                        } else {
                            pure(computed(c.source, op, a, b, e, rhs.span), q.m, q.f)
                        },
                    }
                },
            }
        },
        _ => halt(missing(e), m, f),
    }
}

/// A call of a Sable function, or of the stand-in for a foreign one.
pub open spec fn eval_call(c: CodeV, p: SiteV, e: Expr, m: MachV, f: FrameV) -> Out<ValV>
    decreases m.fuel, 4nat, 0nat, 0nat, 0nat,
{
    match e.kind {
        ExprKind::Call { callee, args, .. } => match fn_at(c.fns, callee@, c.fns.len()) {
            None => halt(stuck(e.span, "function"@), m, f),
            Some(i) => {
                let g = c.fns[i as int];
                let o = spent(call_args(c, p, g, args@, 0, Seq::empty(), m, f), m);
                match o.r {
                    Err(t) => halt(t, o.m, o.f),
                    Ok(vals) => match g.foreign {
                        Some(info) => {
                            let s = shim_step(
                                o.m.raw,
                                o.m.world,
                                g.name@,
                                info.audit_id@,
                                vals,
                                e.span,
                            );
                            Out { r: s.0, m: MachV { raw: s.1, world: s.2, ..o.m }, f: o.f }
                        },
                        None => lift(call(c, g, vals, o.m), o.f),
                    },
                }
            },
        },
        _ => halt(missing(e), m, f),
    }
}

// ------------------------------------------------------------------------------------------
// Calls
// ------------------------------------------------------------------------------------------

/// A call of a Sable function.
pub open spec fn call(c: CodeV, g: FnDecl, args: Seq<ValV>, m: MachV) -> (
    Result<ValV, TrapV>,
    MachV,
)
    decreases m.fuel, 2nat, 0nat, 0nat, 0nat,
{
    match enter_function(c, g, args, m) {
        (Err(t), m) => (Err(t), m),
        (Ok(x), m1) => {
            let m1 = within(m1, m);
            let o = spent(exec_body(c, x.plan, g.body@, m1, x.frame), m1);
            match o.r {
                Err(t) => (Err(t), o.m),
                Ok(flow) => {
                    let result = result_of(flow);
                    match check_clauses(
                        o.m,
                        o.f,
                        g.posts@,
                        0,
                        Some(result),
                        contract_text("post"@, g.name@),
                    ) {
                        (Err(t), m2) => (Err(t), m2),
                        (Ok(_), m2) => {
                            let d = cleanup(
                                c,
                                x.plan,
                                frame_exit(x.plan),
                                within(m2, o.m),
                                o.f,
                            );
                            match d.r {
                                Err(t) => (Err(t), d.m),
                                Ok(_) => (Ok(result), d.m),
                            }
                        },
                    }
                },
            }
        },
    }
}

/// A new object, set up by an initializer.
pub open spec fn construct(
    c: CodeV,
    ci: usize,
    init: Seq<char>,
    args: Seq<ValV>,
    span: Span,
    m: MachV,
) -> (Result<ValV, TrapV>, MachV)
    decreases m.fuel, 2nat, 0nat, 0nat, 0nat,
{
    if m.fuel == 0 {
        (Err(out_of_fuel(span)), m)
    } else if ci >= c.classes.len() {
        (Err(stuck(span, "class"@)), burned(m))
    } else {
        let class = c.classes[ci as int];
        match init_at(class, init, 0) {
            None => (Err(stuck(span, "initializer"@)), burned(m)),
            Some(k) => {
                let g = class.inits@[k as int];
                let id = m.heap.objects.len() as usize;
                match enter_init(c, ci, g, args, burned(m)) {
                    (Err(t), m) => (Err(t), m),
                    (Ok(x), m1) => {
                        let m1 = within(m1, burned(m));
                        let o = spent(exec_body(c, x.plan, g.body@, m1, x.frame), m1);
                        match o.r {
                            Err(t) => (Err(t), o.m),
                            Ok(_) => match leave_init(class, g, id, o.m, o.f) {
                                (Err(t), m2) => (Err(t), m2),
                                (Ok(_), m2) => {
                                    let d = cleanup(
                                        c,
                                        x.plan,
                                        frame_exit(x.plan),
                                        within(m2, o.m),
                                        o.f,
                                    );
                                    match d.r {
                                        Err(t) => (Err(t), d.m),
                                        Ok(_) => (Ok(ValV::Obj { class: ci, fields: id }), d.m),
                                    }
                                },
                            },
                        }
                    },
                }
            },
        }
    }
}

/// A call of a method on an object.
pub open spec fn invoke(
    c: CodeV,
    ci: usize,
    method: Seq<char>,
    id: usize,
    args: Seq<ValV>,
    span: Span,
    m: MachV,
) -> (Result<ValV, TrapV>, MachV)
    decreases m.fuel, 2nat, 0nat, 0nat, 0nat,
{
    if ci >= c.classes.len() {
        (Err(stuck(span, "class"@)), m)
    } else {
        let class = c.classes[ci as int];
        match method_at(class, method, 0) {
            None => (Err(stuck(span, "method"@)), m),
            Some(k) => {
                let member = class.methods@[k as int];
                let g = member.f;
                match enter_method(c, ci, g, id, args, m) {
                    (Err(t), m) => (Err(t), m),
                    (Ok(x), m1) => {
                        let m1 = within(m1, m);
                        let o = spent(exec_body(c, x.plan, g.body@, m1, x.frame), m1);
                        match o.r {
                            Err(t) => (Err(t), o.m),
                            Ok(flow) => {
                                let result = result_of(flow);
                                match leave_method(
                                    class,
                                    member.self_kind,
                                    g,
                                    id,
                                    result,
                                    o.m,
                                    o.f,
                                ) {
                                    (Err(t), m2) => (Err(t), m2),
                                    (Ok(_), m2) => {
                                        let d = cleanup(
                                            c,
                                            x.plan,
                                            frame_exit(x.plan),
                                            within(m2, o.m),
                                            o.f,
                                        );
                                        match d.r {
                                            Err(t) => (Err(t), d.m),
                                            Ok(_) => (Ok(result), d.m),
                                        }
                                    },
                                }
                            },
                        }
                    },
                }
            },
        }
    }
}

// ------------------------------------------------------------------------------------------
// Blocks
// ------------------------------------------------------------------------------------------

/// The normal exit of a body: the lexical half of its implicit return.
#[verifier::opaque]
pub open spec fn body_exit(plan: PlanV) -> Option<RouteV> {
    if plan.blocks[plan.body_block.0 as int].flow.reaches_next {
        Some(plan.return_from(plan.body_scope, None).lexical)
    } else {
        None
    }
}

/// The body of a callable, in its retained body block.
pub open spec fn exec_body(c: CodeV, plan: PlanV, stmts: Seq<Stmt>, m: MachV, f: FrameV) -> Out<
    FlowV,
>
    decreases m.fuel, 1nat, weight(m, f), 4nat, 0nat,
{
    exec_block(c, plan, stmts, plan.body_block, body_exit(plan), m, f)
}

/// One lexical scope. Its end consumes the normal exit; a return consumed its own route where it
/// was; a trap consumes none.
pub open spec fn exec_block(
    c: CodeV,
    plan: PlanV,
    stmts: Seq<Stmt>,
    block: BlockId,
    normal: Option<RouteV>,
    m: MachV,
    f: FrameV,
) -> Out<FlowV>
    decreases m.fuel, 1nat, weight(m, f), 3nat, 0nat,
{
    if block.0 >= plan.blocks.len() {
        halt(stuck(Span { start: 0, end: 0 }, "block"@), m, f)
    } else {
        let b = plan.blocks[block.0 as int];
        if b.flow.reaches_next != (normal is Some) {
            halt(
                refuse(
                    b.anchor,
                    "retained block fallthrough disagrees with its normal exit route"@,
                ),
                m,
                f,
            )
        } else {
            let ran = exec_stmts(c, plan, stmts, block, m, f);
            match ran.r {
                Err(t) => ran,
                Ok(FlowV::Return(v)) => ran,
                Ok(FlowV::Normal) => match normal {
                    None => halt(
                        refuse(
                            b.anchor,
                            "non-fallthrough retained block completed normally"@,
                        ),
                        ran.m,
                        ran.f,
                    ),
                    Some(route) => {
                        let o = settled(ran, m, f);
                        let d = cleanup(c, plan, route, o.m, o.f);
                        match d.r {
                            Err(t) => halt(t, d.m, d.f),
                            Ok(_) => ok(FlowV::Normal, d.m, d.f),
                        }
                    },
                },
            }
        }
    }
}

/// The statements of a block, which leave its scope open.
pub open spec fn exec_stmts(
    c: CodeV,
    plan: PlanV,
    stmts: Seq<Stmt>,
    block: BlockId,
    m: MachV,
    f: FrameV,
) -> Out<FlowV>
    decreases m.fuel, 1nat, weight(m, f), 2nat, 0nat,
{
    if block.0 >= plan.blocks.len() {
        halt(stuck(Span { start: 0, end: 0 }, "block"@), m, f)
    } else if plan.blocks[block.0 as int].statements.len() != stmts.len() {
        halt(
            refuse(
                plan.blocks[block.0 as int].anchor,
                "runtime block length disagrees with its retained block plan"@,
            ),
            m,
            f,
        )
    } else {
        stmts_from(c, plan, stmts, block, 0, m, f)
    }
}

/// The name that a declaration makes due, once the declaration has run.
pub open spec fn declared(s: Stmt) -> Option<(Seq<char>, Span)> {
    match s {
        Stmt::VarDecl { name, name_span, .. } | Stmt::Decl { name, name_span, .. } => Some(
            (name@, name_span),
        ),
        _ => None,
    }
}

pub open spec fn arm_declared(plan: PlanV, s: Stmt, scope: ScopeId, f: FrameV) -> Result<
    FrameV,
    TrapV,
> {
    match declared(s) {
        None => Ok(f),
        Some((name, span)) => armed(plan, f, name, scope, span),
    }
}

/// The statements from `i` on.
pub open spec fn stmts_from(
    c: CodeV,
    plan: PlanV,
    stmts: Seq<Stmt>,
    block: BlockId,
    i: nat,
    m: MachV,
    f: FrameV,
) -> Out<FlowV>
    decreases m.fuel, 1nat, weight(m, f), 1nat, (stmts.len() - i) as nat,
{
    if i >= stmts.len() {
        ok(FlowV::Normal, m, f)
    } else {
        let b = plan.blocks[block.0 as int];
        let s = stmts[i as int];
        let planned = b.statements[i as int];
        if !planned.entry_reachable {
            halt(
                refuse(
                    span_of(s),
                    "runtime reached a statement sealed as structurally unreachable"@,
                ),
                m,
                f,
            )
        } else {
            let o = exec_stmt(c, plan, s, planned.kind, b.scope, m, f);
            match o.r {
                Err(t) => halt(t, o.m, o.f),
                Ok(flow) => match arm_declared(plan, s, b.scope, o.f) {
                    Err(t) => halt(t, o.m, o.f),
                    Ok(g) => match flow {
                        FlowV::Return(v) => ok(flow, o.m, g),
                        FlowV::Normal => if o.m.fuel < m.fuel {
                            stmts_from(c, plan, stmts, block, i + 1, o.m, g)
                        } else {
                            ok(flow, o.m, g)
                        },
                    },
                },
            }
        }
    }
}

/// The cleanup of an exit: what is due is resolved in full, then destroyed in order, and then the
/// names of the scopes are cleared.
pub open spec fn cleanup(c: CodeV, plan: PlanV, route: RouteV, m: MachV, f: FrameV) -> Out<()>
    decreases m.fuel, 1nat, weight(m, f), 2nat, 0nat,
{
    match due_drops(plan, f.reached, route.drops, route.drops.len()) {
        Err(t) => halt(t, m, f),
        Ok(steps) => match due_clears(route.clears, route.clears.len()) {
            Err(t) => halt(t, m, f),
            Ok(names) => {
                let o = run_drops(c, steps, 0, m, f);
                match o.r {
                    Err(t) => halt(t, o.m, o.f),
                    Ok(_) => ok((), o.m, cleared(o.f, names, 0)),
                }
            },
        },
    }
}

/// The destructions from `i` on. A place that holds nothing has nothing to destroy.
pub open spec fn run_drops(c: CodeV, steps: Seq<DropStepV>, i: nat, m: MachV, f: FrameV) -> Out<()>
    decreases m.fuel, 1nat, weight(m, f), 1nat, (steps.len() - i) as nat,
{
    if i >= steps.len() {
        ok((), m, f)
    } else {
        let s = steps[i as int];
        match value_of(f.vars, s.name) {
            None => run_drops(
                c,
                steps,
                i + 1,
                m,
                FrameV { reached: unreach(f.reached, s.id), ..f },
            ),
            Some(held) => {
                proof {
                    crate::bindings::lemma_unbind_len(f.vars, s.name);
                }
                let vars = unbind(f.vars, s.name);
                let d = settled_machine(drop_action(c, held, s.action, s.name, s.span, m), m);
                match d.0 {
                    Err(t) => halt(t, d.1, FrameV { vars, ..f }),
                    Ok(_) => run_drops(
                        c,
                        steps,
                        i + 1,
                        d.1,
                        FrameV { vars, reached: unreach(f.reached, s.id), ..f },
                    ),
                }
            },
        }
    }
}

// ------------------------------------------------------------------------------------------
// Destruction
// ------------------------------------------------------------------------------------------

/// The recipe is still the one that its type calls for, and its classes are still the planned ones.
#[verifier::opaque]
pub open spec fn recipe_holds(c: CodeV, a: ActionV, span: Span) -> Result<(), TrapV> {
    match c.control.check_action(a, c.classes, span) {
        Err(e) => Err(plan_trap(e)),
        Ok(_) => Ok(()),
    }
}

/// The class recipe that an action links to.
#[verifier::opaque]
pub open spec fn linked_recipe(c: CodeV, a: ClassActionV, span: Span) -> Result<ClassPlanV, TrapV> {
    match c.control.class_drop_for_action(a, c.classes, span) {
        Err(e) => Err(plan_trap(e)),
        Ok(plan) => Ok(plan),
    }
}

/// The class recipe is still the one of its class.
#[verifier::opaque]
pub open spec fn class_recipe_holds(plan: ClassPlanV, class: usize, cd: ClassDecl) -> Result<
    (),
    TrapV,
> {
    match plan.check(class, cd) {
        Err(e) => Err(plan_trap(e)),
        Ok(_) => match plan.check_route() {
            Err(e) => Err(plan_trap(e)),
            Ok(_) => Ok(()),
        },
    }
}

/// The plan of a deinitializer, reconciled with its body.
#[verifier::opaque]
pub open spec fn deinit_plan(c: CodeV, owner: OwnerV, span: Span, body: Seq<Stmt>) -> Result<
    PlanV,
    TrapV,
> {
    match c.control.body(owner, span) {
        Err(e) => Err(plan_trap(e)),
        Ok(b) => match b.check(span, Seq::empty(), body) {
            Err(e) => Err(plan_trap(e)),
            Ok(_) => Ok(b.plan),
        },
    }
}

/// How deep a recipe is nested.
pub open spec fn rank(a: ActionV) -> nat
    decreases a,
{
    match a.recipe {
        RecipeV::DropPresent(payload) => 1 + rank(*payload),
        _ => 0,
    }
}

/// Destroys a value by its retained recipe.
pub open spec fn drop_action(
    c: CodeV,
    held: ValV,
    a: ActionV,
    what: Seq<char>,
    span: Span,
    m: MachV,
) -> (Result<(), TrapV>, MachV)
    decreases m.fuel, 1nat, total_fields(m.heap.objects), 7nat, rank(a),
{
    match recipe_holds(c, a, span) {
        Err(t) => (Err(t), m),
        Ok(_) => match a.recipe {
            RecipeV::DropClass(ca) => match held {
                ValV::Obj { class, fields } => if class != ca.class {
                    (Err(not_class(what, ca.class, span)), m)
                } else {
                    match linked_recipe(c, ca, span) {
                        Err(t) => (Err(t), m),
                        Ok(plan) => drop_value(c, class, fields, what, plan, span, m),
                    }
                },
                _ => (Err(not_class(what, ca.class, span)), m),
            },
            RecipeV::ReleaseArray { element } => match held {
                ValV::Arr(id) => match m.heap.array(id) {
                    None => (Err(stuck(span, "array"@)), m),
                    Some(array) => if array.payload != element {
                        (Err(payload_differs(what, array.payload, element, span)), m)
                    } else {
                        (Ok(()), m)
                    },
                },
                _ => (
                    Err(
                        refuse(
                            span,
                            "runtime value `"@ + what + "` does not hold its retained array"@,
                        ),
                    ),
                    m,
                ),
            },
            RecipeV::DropPresent(payload) => match held {
                ValV::AffineOptBoolArray(None) | ValV::AffineOptClass { value: None, .. } => (
                    Ok(()),
                    m,
                ),
                ValV::AffineOptBoolArray(Some(id)) => drop_action(
                    c,
                    ValV::Arr(id),
                    *payload,
                    what + ".value"@,
                    span,
                    m,
                ),
                ValV::AffineOptClass { class, value: Some(fields) } => drop_action(
                    c,
                    ValV::Obj { class, fields },
                    *payload,
                    what + ".value"@,
                    span,
                    m,
                ),
                _ => (
                    Err(
                        refuse(
                            span,
                            "runtime value `"@ + what
                                + "` does not hold its retained owning option"@,
                        ),
                    ),
                    m,
                ),
            },
        },
    }
}

pub open spec fn not_class(what: Seq<char>, class: usize, span: Span) -> TrapV {
    refuse(
        span,
        "runtime value `"@ + what + "` does not hold retained class index "@ + nat_text(
            class as nat,
        ),
    )
}

/// Destroys an object by the recipe of its class: what fails stops the rest.
pub open spec fn drop_value(
    c: CodeV,
    class: usize,
    id: usize,
    what: Seq<char>,
    plan: ClassPlanV,
    span: Span,
    m: MachV,
) -> (Result<(), TrapV>, MachV)
    decreases m.fuel, 1nat, total_fields(m.heap.objects), 6nat, 0nat,
{
    if class >= c.classes.len() {
        (
            Err(
                refuse(
                    span,
                    "runtime class index "@ + nat_text(class as nat)
                        + " has no concrete declaration"@,
                ),
            ),
            m,
        )
    } else {
        let cd = c.classes[class as int];
        match class_recipe_holds(plan, class, cd) {
            Err(t) => (Err(t), m),
            Ok(_) => drop_phases(c, class, id, what, plan.phases, 0, m),
        }
    }
}

/// Destroys an object by the recipe that the program holds for its class.
pub open spec fn drop_object(c: CodeV, class: usize, id: usize, what: Seq<char>, m: MachV) -> (
    Result<(), TrapV>,
    MachV,
) {
    if class >= c.classes.len() {
        (
            Err(
                refuse(
                    Span { start: 0, end: 0 },
                    "runtime class index "@ + nat_text(class as nat)
                        + " has no concrete declaration"@,
                ),
            ),
            m,
        )
    } else {
        let cd = c.classes[class as int];
        match c.control.class_drop(class, cd) {
            Err(e) => (Err(plan_trap(e)), m),
            Ok(plan) => drop_value(c, class, id, what, plan, cd.span, m),
        }
    }
}

/// Takes a value out of its place and destroys it. A place that holds no owner keeps what it
/// holds.
pub open spec fn drop_place(c: CodeV, place: RtPlaceV, m: MachV, f: FrameV) -> Out<()> {
    let (m1, f1) = emptied(m, f, place);
    match held_at(m, f, place) {
        Some(ValV::Obj { class, fields }) => lift(
            drop_object(c, class, fields, place.text(), m1),
            f1,
        ),
        Some(ValV::AffineOptClass { class, value: Some(fields) }) => lift(
            drop_object(c, class, fields, place.text(), m1),
            f1,
        ),
        Some(ValV::Arr(_)) | Some(ValV::AffineOptBoolArray(_)) | Some(
            ValV::AffineOptClass { .. },
        ) => ok((), m1, f1),
        _ => ok((), m, f),
    }
}

/// A value that must not be left in a field without a recipe.
pub open spec fn owner_value(v: ValV) -> bool {
    v is Obj || v is Arr || v is AffineOptBoolArray || v is AffineOptClass
}

/// The phases of a destruction from `i` on.
pub open spec fn drop_phases(
    c: CodeV,
    class: usize,
    id: usize,
    what: Seq<char>,
    phases: Seq<PhaseV>,
    i: nat,
    m: MachV,
) -> (Result<(), TrapV>, MachV)
    decreases m.fuel, 1nat, total_fields(m.heap.objects), 5nat, (phases.len() - i) as nat,
{
    if i >= phases.len() {
        (Ok(()), m)
    } else {
        let cd = c.classes[class as int];
        match phases[i as int] {
            PhaseV::CheckInvariant => {
                let s = settled_machine(check_invariants(m, cd, id, what, 0), m);
                match s.0 {
                    Err(t) => (Err(t), s.1),
                    Ok(_) => drop_phases(c, class, id, what, phases, i + 1, s.1),
                }
            },
            PhaseV::RunDeinitializer(owner) => {
                let s = settled_machine(run_deinit(c, class, id, owner, m), m);
                match s.0 {
                    Err(t) => (Err(t), s.1),
                    Ok(_) => drop_phases(c, class, id, what, phases, i + 1, s.1),
                }
            },
            PhaseV::DropField(field) => match m.heap.object(id) {
                None => (Err(stuck(cd.span, "object"@)), m),
                Some(fields) => match value_of(fields, field.name) {
                    None => drop_phases(c, class, id, what, phases, i + 1, m),
                    Some(held) => {
                        proof {
                            crate::bindings::lemma_unbind_len(fields, field.name);
                            crate::heap::lemma_total_update(
                                m.heap.objects,
                                id as int,
                                unbind(fields, field.name),
                            );
                        }
                        let m1 = MachV {
                            heap: m.heap.set_object(id, unbind(fields, field.name)),
                            ..m
                        };
                        let s = settled_machine(drop_field(c, held, field, what, m1), m1);
                        match s.0 {
                            Err(t) => (Err(t), s.1),
                            Ok(_) => drop_phases(c, class, id, what, phases, i + 1, s.1),
                        }
                    },
                },
            },
        }
    }
}

/// Destroys what a field held, once it is out of the field.
pub open spec fn drop_field(c: CodeV, held: ValV, field: FieldV, what: Seq<char>, m: MachV) -> (
    Result<(), TrapV>,
    MachV,
)
    decreases m.fuel, 1nat, total_fields(m.heap.objects), 8nat, 0nat,
{
    if field.must_consume {
        (
            Err(
                refuse(
                    field.span,
                    "must-consume field `"@ + field.name
                        + "` remained live at class destruction"@,
                ),
            ),
            m,
        )
    } else {
        match field.drop_action {
            Some(a) => drop_action(c, held, a, what + "."@ + field.name, field.span, m),
            None => if owner_value(held) {
                (
                    Err(
                        refuse(
                            field.span,
                            "runtime field `"@ + field.name
                                + "` holds an owner without a retained drop action"@,
                        ),
                    ),
                    m,
                )
            } else {
                (Ok(()), m)
            },
        }
    }
}

/// The deinitializer of a class, which runs to its end.
pub open spec fn run_deinit(c: CodeV, class: usize, id: usize, owner: OwnerV, m: MachV) -> (
    Result<(), TrapV>,
    MachV,
)
    decreases m.fuel, 1nat, total_fields(m.heap.objects), 5nat, 0nat,
{
    let cd = c.classes[class as int];
    match cd.deinit {
        None => (
            Err(
                refuse(
                    cd.span,
                    "class-drop plan for `"@ + cd.name@
                        + "` retained a missing deinitializer"@,
                ),
            ),
            m,
        ),
        Some(body) => match deinit_plan(c, owner, cd.span, body@) {
            Err(t) => (Err(t), m),
            Ok(plan) => {
                let o = exec_body(c, plan, body@, m, new_frame(Some((class, id))));
                match o.r {
                    Err(t) => (Err(t), o.m),
                    Ok(FlowV::Normal) => (Ok(()), o.m),
                    Ok(FlowV::Return(_)) => (
                        Err(
                            refuse(
                                cd.span,
                                "deinitializer for `"@ + cd.name@
                                    + "` returned instead of completing its class-drop phase"@,
                            ),
                        ),
                        o.m,
                    ),
                }
            },
        },
    }
}

// ------------------------------------------------------------------------------------------
// Statements
// ------------------------------------------------------------------------------------------

/// One statement: it is authenticated, spends a step, consumes its trap sites, and runs.
pub open spec fn exec_stmt(
    c: CodeV,
    plan: PlanV,
    s: Stmt,
    kind: StatementPlanKind,
    scope: ScopeId,
    m: MachV,
    f: FrameV,
) -> Out<FlowV>
    decreases m.fuel, 1nat, weight(m, f), 0nat, 0nat,
{
    match preflight(c.control, c.classes, plan, s, kind, scope) {
        Err(t) => halt(t, m, f),
        Ok(ready) => if m.fuel == 0 {
            halt(out_of_fuel(span_of(s)), m, f)
        } else {
            match (SiteV { plan, scope }).statement(s) {
                Err(t) => halt(t, burned(m), f),
                Ok(_) => stmt_kind(c, plan, s, kind, scope, ready, burned(m), f),
            }
        },
    }
}

/// A statement whose step is spent and whose trap sites are consumed.
pub open spec fn stmt_kind(
    c: CodeV,
    plan: PlanV,
    s: Stmt,
    kind: StatementPlanKind,
    scope: ScopeId,
    ready: ReadyV,
    m: MachV,
    f: FrameV,
) -> Out<FlowV>
    decreases m.fuel, 4nat, 0nat, 4nat, 0nat,
{
    match s {
        Stmt::Decl { .. } | Stmt::VarDecl { .. } => run_decl(c, plan, s, scope, m, f),
        Stmt::Assign { .. } => run_assign(c, plan, s, scope, m, f),
        Stmt::Unsafe { body, .. } => match kind {
            StatementPlanKind::Unsafe(block) => exec_stmts(c, plan, body@, block, m, f),
            _ => halt(stuck(span_of(s), "unsafe block"@), m, f),
        },
        Stmt::StaticAlloc { .. } | Stmt::SystemAlloc { .. } => run_alloc(c, plan, s, scope, m, f),
        Stmt::SystemDealloc { .. } => run_dealloc(c, plan, s, scope, m, f),
        Stmt::Expose { .. } => run_expose(c, plan, s, ready, m, f),
        Stmt::ExprStmt(_) => run_expr(c, plan, s, scope, ready, m, f),
        Stmt::Assert(clause) => match check_clause(m, f, clause, None, "inline assert"@) {
            (Err(t), m) => halt(t, m, f),
            (Ok(_), m) => ok(FlowV::Normal, m, f),
        },
        Stmt::FieldAssign { .. } => run_field_assign(c, plan, s, scope, ready, m, f),
        Stmt::FieldStore { .. } | Stmt::Store { .. } => run_store(c, plan, s, scope, m, f),
        Stmt::Return { .. } => run_return(c, plan, s, scope, m, f),
        Stmt::If { .. } => run_if(c, plan, s, scope, m, f),
        Stmt::While { cond, kw_span, .. } => match plan.loop_plan(scope, kw_span, cond.span) {
            Err(e) => halt(plan_trap(e), m, f),
            Ok(l) => run_loop(c, plan, s, scope, l, m, f),
        },
    }
}

/// A declaration binds its name to its initial value.
pub open spec fn run_decl(c: CodeV, plan: PlanV, s: Stmt, scope: ScopeId, m: MachV, f: FrameV) -> Out<
    FlowV,
>
    decreases m.fuel, 4nat, 0nat, 0nat, 0nat,
{
    let p = SiteV { plan, scope };
    match s {
        Stmt::Decl { name, init, .. } => match init {
            None => ok(FlowV::Normal, m, f),
            Some(e) => {
                let o = eval_moved(c, p, e, m, f);
                match o.r {
                    Err(t) => halt(t, o.m, o.f),
                    Ok(v) => ok(FlowV::Normal, o.m, with_var(o.f, name@, v)),
                }
            },
        },
        Stmt::VarDecl { name, init, .. } => {
            let o = eval_moved(c, p, init, m, f);
            match o.r {
                Err(t) => halt(t, o.m, o.f),
                Ok(v) => ok(FlowV::Normal, o.m, with_var(o.f, name@, v)),
            }
        },
        _ => halt(stuck(span_of(s), "declaration"@), m, f),
    }
}

/// An assignment computes its value, then destroys what it replaces, and then binds.
pub open spec fn run_assign(
    c: CodeV,
    plan: PlanV,
    s: Stmt,
    scope: ScopeId,
    m: MachV,
    f: FrameV,
) -> Out<FlowV>
    decreases m.fuel, 4nat, 0nat, 0nat, 0nat,
{
    match s {
        Stmt::Assign { name, name_span, value } => match assignment_site(
            plan,
            scope,
            name@,
            name_span,
        ) {
            Err(t) => halt(t, m, f),
            Ok(a) => {
                let o = spent(eval_moved(c, SiteV { plan, scope }, value, m, f), m);
                match o.r {
                    Err(t) => halt(t, o.m, o.f),
                    Ok(v) => match replaced_recipe(plan, o.f, a) {
                        Err(t) => halt(t, o.m, o.f),
                        Ok(recipe) => match (recipe, value_of(o.f.vars, a.destination.root)) {
                            (Some(action), Some(held)) => {
                                let vars = unbind(o.f.vars, a.destination.root);
                                let g = FrameV { vars, ..o.f };
                                let d = drop_action(
                                    c,
                                    held,
                                    action,
                                    a.destination.text(),
                                    a.span,
                                    o.m,
                                );
                                match d.0 {
                                    Err(t) => halt(t, d.1, g),
                                    Ok(_) => ok(
                                        FlowV::Normal,
                                        d.1,
                                        with_var(g, a.destination.root, v),
                                    ),
                                }
                            },
                            _ => ok(
                                FlowV::Normal,
                                o.m,
                                with_var(o.f, a.destination.root, v),
                            ),
                        },
                    },
                }
            },
        },
        _ => halt(stuck(span_of(s), "assignment"@), m, f),
    }
}

/// Raw storage, and the names that a program holds it by.
pub open spec fn run_alloc(c: CodeV, plan: PlanV, s: Stmt, scope: ScopeId, m: MachV, f: FrameV) -> Out<
    FlowV,
>
    decreases m.fuel, 4nat, 0nat, 0nat, 0nat,
{
    let p = SiteV { plan, scope };
    match s {
        Stmt::StaticAlloc { size, ptr, res, .. } => {
            let o = eval_int(c, p, size, m, f);
            match o.r {
                Err(t) => halt(t, o.m, o.f),
                Ok(n) => match raw_alloc(o.m, n, size.span) {
                    (Err(t), m) => halt(t, m, o.f),
                    (Ok(a), m) => ok(
                        FlowV::Normal,
                        m,
                        with_var(with_var(o.f, ptr@, ValV::Ptr(a, 0)), res@, ValV::Unit),
                    ),
                },
            }
        },
        Stmt::SystemAlloc { size, ptr, res, release, .. } => {
            let o = eval_int(c, p, size, m, f);
            match o.r {
                Err(t) => halt(t, o.m, o.f),
                Ok(n) => match raw_alloc(o.m, n, size.span) {
                    (Err(t), m) => halt(t, m, o.f),
                    (Ok(a), m) => ok(
                        FlowV::Normal,
                        m,
                        with_var(
                            with_var(with_var(o.f, ptr@, ValV::Ptr(a, 0)), res@, ValV::Unit),
                            release@,
                            ValV::Unit,
                        ),
                    ),
                },
            }
        },
        _ => halt(stuck(span_of(s), "allocation"@), m, f),
    }
}

pub open spec fn run_dealloc(
    c: CodeV,
    plan: PlanV,
    s: Stmt,
    scope: ScopeId,
    m: MachV,
    f: FrameV,
) -> Out<FlowV>
    decreases m.fuel, 4nat, 0nat, 0nat, 0nat,
{
    let p = SiteV { plan, scope };
    match s {
        Stmt::SystemDealloc { ptr, res, release, kw_span } => {
            let o = spent(eval(c, p, ptr, m, f), m);
            match o.r {
                Err(t) => halt(t, o.m, o.f),
                Ok(ValV::Ptr(a, off)) => {
                    let q = spent(eval_moved(c, p, res, o.m, o.f), o.m);
                    match q.r {
                        Err(t) => halt(t, q.m, q.f),
                        Ok(_) => {
                            let w = eval_moved(c, p, release, q.m, q.f);
                            match w.r {
                                Err(t) => halt(t, w.m, w.f),
                                Ok(_) => match raw_free(w.m, a, off, kw_span) {
                                    (Err(t), m) => halt(t, m, w.f),
                                    (Ok(_), m) => ok(FlowV::Normal, m, w.f),
                                },
                            }
                        },
                    }
                },
                Ok(_) => halt(stuck(kw_span, "raw pointer"@), o.m, o.f),
            }
        },
        _ => halt(stuck(span_of(s), "deallocation"@), m, f),
    }
}

/// An exposure: the loan is opened, the body runs, the final bytes are captured, the body's
/// bindings end, the array is rebuilt, and the loan is released and closed.
pub open spec fn run_expose(c: CodeV, plan: PlanV, s: Stmt, ready: ReadyV, m: MachV, f: FrameV) -> Out<
    FlowV,
>
    decreases m.fuel, 4nat, 0nat, 0nat, 0nat,
{
    match (s, ready.exposure) {
        (Stmt::Expose { kw_span, body, .. }, Some((x, n))) => match open_loan(n, kw_span, m, f) {
            (Err(t), m, f) => halt(t, m, f),
            (Ok(loan), m1, f1) => {
                let m1 = within(m1, m);
                let o = spent(exec_stmts(c, plan, body@, x.body, m1, f1), m1);
                match o.r {
                    Err(t) => halt(t, o.m, o.f),
                    Ok(FlowV::Return(v)) => o,
                    Ok(FlowV::Normal) => match capture_loan(loan, kw_span, o.m, o.f) {
                        Err(t) => halt(t, o.m, o.f),
                        Ok(bytes) => {
                            let d = spent(cleanup(c, plan, n.body_exit, o.m, o.f), o.m);
                            match d.r {
                                Err(t) => halt(t, d.m, d.f),
                                Ok(_) => {
                                    let rebuilt = if n.rebuild.mutability == Mutability::Mut {
                                        copy_back(d.m, loan, bytes, kw_span, 0)
                                    } else {
                                        (Ok(()), d.m)
                                    };
                                    match rebuilt {
                                        (Err(t), m) => halt(t, m, d.f),
                                        (Ok(_), m2) => match release_loan(
                                            loan,
                                            kw_span,
                                            m2,
                                            d.f,
                                        ) {
                                            (Err(t), m) => halt(t, m, d.f),
                                            (Ok(_), m3) => {
                                                let z = cleanup(
                                                    c,
                                                    plan,
                                                    n.close,
                                                    within(m3, d.m),
                                                    d.f,
                                                );
                                                match z.r {
                                                    Err(t) => halt(t, z.m, z.f),
                                                    Ok(_) => ok(FlowV::Normal, z.m, z.f),
                                                }
                                            },
                                        },
                                    }
                                },
                            }
                        },
                    },
                }
            },
        },
        _ => halt(stuck(span_of(s), "exposure"@), m, f),
    }
}

/// A discarded class result is destroyed at once.
pub open spec fn run_expr(
    c: CodeV,
    plan: PlanV,
    s: Stmt,
    scope: ScopeId,
    ready: ReadyV,
    m: MachV,
    f: FrameV,
) -> Out<FlowV>
    decreases m.fuel, 4nat, 0nat, 0nat, 0nat,
{
    match s {
        Stmt::ExprStmt(e) => {
            let o = spent(eval(c, SiteV { plan, scope }, e, m, f), m);
            match o.r {
                Err(t) => halt(t, o.m, o.f),
                Ok(v) => match ready.temporary {
                    None => ok(FlowV::Normal, o.m, o.f),
                    Some(a) => match drop_action(
                        c,
                        v,
                        a.drop_action,
                        a.temporary.text(),
                        a.span,
                        o.m,
                    ) {
                        (Err(t), m) => halt(t, m, o.f),
                        (Ok(_), m) => ok(FlowV::Normal, m, o.f),
                    },
                },
            }
        },
        _ => halt(stuck(span_of(s), "expression"@), m, f),
    }
}

/// A value put into a field of the object at hand.
pub open spec fn put_self_field(m: MachV, f: FrameV, field: Seq<char>, v: ValV, span: Span) -> Out<
    FlowV,
> {
    match f.self_ctx {
        None => halt(stuck(span, "member context"@), m, f),
        Some((_, id)) => match m.heap.object(id) {
            None => halt(stuck(span, "member context"@), m, f),
            Some(fields) => ok(
                FlowV::Normal,
                MachV { heap: m.heap.set_object(id, bind(fields, field, v)), ..m },
                f,
            ),
        },
    }
}

/// A field assignment computes its value, then destroys what the field held, and then stores.
pub open spec fn run_field_assign(
    c: CodeV,
    plan: PlanV,
    s: Stmt,
    scope: ScopeId,
    ready: ReadyV,
    m: MachV,
    f: FrameV,
) -> Out<FlowV>
    decreases m.fuel, 4nat, 0nat, 0nat, 0nat,
{
    match (s, ready.field) {
        (Stmt::FieldAssign { field, value, .. }, Some(a)) => {
            let o = spent(eval_moved(c, SiteV { plan, scope }, value, m, f), m);
            match o.r {
                Err(t) => halt(t, o.m, o.f),
                Ok(v) => match a.drop_action {
                    None => put_self_field(o.m, o.f, field@, v, a.span),
                    Some(action) => match value_fits(
                        c.control,
                        c.classes,
                        o.m,
                        v,
                        action,
                        "field-assignment RHS"@,
                        a.span,
                    ) {
                        Err(t) => halt(t, o.m, o.f),
                        Ok(_) => if o.f.self_ctx is None {
                            halt(
                                refuse(
                                    a.span,
                                    "field-assignment action has no active self object"@,
                                ),
                                o.m,
                                o.f,
                            )
                        } else {
                            let place = RtPlaceV::SelfField(field@);
                            match held_at(o.m, o.f, place) {
                                None => put_self_field(o.m, o.f, field@, v, a.span),
                                Some(held) => {
                                    let (m1, f1) = emptied(o.m, o.f, place);
                                    let d = drop_action(
                                        c,
                                        held,
                                        action,
                                        a.destination.text(),
                                        a.span,
                                        within(m1, o.m),
                                    );
                                    match d.0 {
                                        Err(t) => halt(t, d.1, f1),
                                        Ok(_) => put_self_field(d.1, f1, field@, v, a.span),
                                    }
                                },
                            }
                        },
                    },
                },
            }
        },
        _ => halt(stuck(span_of(s), "field assignment"@), m, f),
    }
}

/// A store computes its index, then its value, and then writes into the array.
pub open spec fn run_store(c: CodeV, plan: PlanV, s: Stmt, scope: ScopeId, m: MachV, f: FrameV) -> Out<
    FlowV,
>
    decreases m.fuel, 4nat, 0nat, 0nat, 0nat,
{
    let p = SiteV { plan, scope };
    match s {
        Stmt::FieldStore { field, field_span, index, value } => {
            let o = spent(eval_int(c, p, index, m, f), m);
            match o.r {
                Err(t) => halt(t, o.m, o.f),
                Ok(idx) => {
                    let q = eval(c, p, value, o.m, o.f);
                    match q.r {
                        Err(t) => halt(t, q.m, q.f),
                        Ok(v) => match array_put(
                            q.m,
                            array_id(held_at(q.m, q.f, RtPlaceV::SelfField(field@))),
                            idx,
                            v,
                            field_span,
                        ) {
                            (Err(t), m) => halt(t, m, q.f),
                            (Ok(_), m) => ok(FlowV::Normal, m, q.f),
                        },
                    }
                },
            }
        },
        Stmt::Store { array, array_span, index, value } => {
            let o = spent(eval_int(c, p, index, m, f), m);
            match o.r {
                Err(t) => halt(t, o.m, o.f),
                Ok(idx) => {
                    let q = eval(c, p, value, o.m, o.f);
                    match q.r {
                        Err(t) => halt(t, q.m, q.f),
                        Ok(v) => match array_put(
                            q.m,
                            array_id(value_of(q.f.vars, array@)),
                            idx,
                            v,
                            array_span,
                        ) {
                            (Err(t), m) => halt(t, m, q.f),
                            (Ok(_), m) => ok(FlowV::Normal, m, q.f),
                        },
                    }
                },
            }
        },
        _ => halt(stuck(span_of(s), "store"@), m, f),
    }
}

/// A return takes its value first, so that the scopes it leaves do not find it.
pub open spec fn run_return(
    c: CodeV,
    plan: PlanV,
    s: Stmt,
    scope: ScopeId,
    m: MachV,
    f: FrameV,
) -> Out<FlowV>
    decreases m.fuel, 4nat, 0nat, 0nat, 0nat,
{
    match s {
        Stmt::Return { value, span } => {
            let o = match value {
                Some(e) => spent(eval_moved(c, SiteV { plan, scope }, e, m, f), m),
                None => ok(ValV::Unit, m, f),
            };
            match o.r {
                Err(t) => halt(t, o.m, o.f),
                Ok(v) => if scope.0 >= plan.scopes.len() {
                    halt(stuck(span, "scope"@), o.m, o.f)
                } else {
                    match plan.explicit_return(span, scope) {
                        Err(e) => halt(plan_trap(e), o.m, o.f),
                        Ok(routes) => {
                            let d = cleanup(c, plan, routes.lexical, o.m, o.f);
                            match d.r {
                                Err(t) => halt(t, d.m, d.f),
                                Ok(_) => ok(FlowV::Return(v), d.m, d.f),
                            }
                        },
                    }
                },
            }
        },
        _ => halt(stuck(span_of(s), "return"@), m, f),
    }
}

pub open spec fn run_if(c: CodeV, plan: PlanV, s: Stmt, scope: ScopeId, m: MachV, f: FrameV) -> Out<
    FlowV,
>
    decreases m.fuel, 4nat, 0nat, 0nat, 0nat,
{
    match s {
        Stmt::If { cond, then_block, else_block } => match plan.branch(
            scope,
            cond.span,
            else_block is Some,
        ) {
            Err(e) => halt(plan_trap(e), m, f),
            Ok(b) => {
                let o = spent(eval_bool(c, SiteV { plan, scope }, cond, m, f), m);
                match o.r {
                    Err(t) => halt(t, o.m, o.f),
                    Ok(true) => exec_block(
                        c,
                        plan,
                        then_block@,
                        b.then_arm.block,
                        b.then_arm.normal_exit,
                        o.m,
                        o.f,
                    ),
                    Ok(false) => match else_block {
                        None => ok(FlowV::Normal, o.m, o.f),
                        Some(stmts) => match b.else_arm {
                            None => halt(
                                refuse(
                                    cond.span,
                                    "retained branch lost its source else arm"@,
                                ),
                                o.m,
                                o.f,
                            ),
                            Some(arm) => exec_block(
                                c,
                                plan,
                                stmts@,
                                arm.block,
                                arm.normal_exit,
                                o.m,
                                o.f,
                            ),
                        },
                    },
                }
            },
        },
        _ => halt(stuck(span_of(s), "branch"@), m, f),
    }
}

/// The measure at the head of an iteration that is about to run: monitored, or noted as skipped.
#[verifier::opaque]
pub open spec fn monitored_head(
    variant: Option<Clause>,
    head: Option<Monitored<int>>,
    m: MachV,
) -> (Result<Option<int>, TrapV>, MachV) {
    match (variant, head) {
        (Some(v), Some(Ok(n))) => if n < 0 {
            (
                Err(
                    trap(
                        v.span,
                        "loop variant is negative ("@ + int_text(n) + "): "@ + v.text@,
                    ),
                ),
                m,
            )
        } else {
            (Ok(Some(n)), m)
        },
        (Some(v), Some(Err(reason))) => (Ok(None), skip(m, v.text@, reason)),
        _ => (Ok(None), m),
    }
}

/// The measure after the iteration, against the one at its head.
#[verifier::opaque]
pub open spec fn check_descent(variant: Option<Clause>, head: Option<int>, m: MachV, f: FrameV) -> (
    Result<(), TrapV>,
    MachV,
) {
    match (variant, head) {
        (Some(v), Some(v0)) => match measure_value(variant_env(m, f), v.text@) {
            Ok(v1) => if v1 >= v0 {
                (
                    Err(
                        trap(
                            v.span,
                            "loop variant did not decrease ("@ + int_text(v0) + " → "@
                                + int_text(v1) + "): "@ + v.text@,
                        ),
                    ),
                    m,
                )
            } else {
                (Ok(()), m)
            },
            Err(reason) => (Ok(()), skip(m, v.text@, reason)),
        },
        _ => (Ok(()), m),
    }
}

/// A loop. Each turn spends a step; the measure is taken at the head, before the condition runs,
/// and again after the body.
pub open spec fn run_loop(
    c: CodeV,
    plan: PlanV,
    s: Stmt,
    scope: ScopeId,
    l: LoopV,
    m: MachV,
    f: FrameV,
) -> Out<FlowV>
    decreases m.fuel, 4nat, 0nat, 3nat, 0nat,
{
    match s {
        Stmt::While { cond, invariants, variant, kw_span, body } => if m.fuel == 0 {
            halt(out_of_fuel(kw_span), m, f)
        } else {
            match check_loop_clauses(burned(m), f, invariants@, 0) {
                (Err(t), m1) => halt(t, m1, f),
                (Ok(_), m1) => {
                    let m1 = within(m1, burned(m));
                    let head = match variant {
                        Some(v) => Some(measure_value(variant_env(m1, f), v.text@)),
                        None => None,
                    };
                    let o = spent(eval_bool(c, SiteV { plan, scope }, cond, m1, f), m1);
                    match o.r {
                        Err(t) => halt(t, o.m, o.f),
                        Ok(false) => ok(FlowV::Normal, o.m, o.f),
                        Ok(true) => match monitored_head(variant, head, o.m) {
                            (Err(t), m2) => halt(t, m2, o.f),
                            (Ok(v0), m2) => {
                                let m2 = within(m2, o.m);
                                let b = spent(
                                    exec_block(c, plan, body@, l.body, l.backedge, m2, o.f),
                                    m2,
                                );
                                match b.r {
                                    Err(t) => halt(t, b.m, b.f),
                                    Ok(FlowV::Return(v)) => b,
                                    Ok(FlowV::Normal) => match check_descent(
                                        variant,
                                        v0,
                                        b.m,
                                        b.f,
                                    ) {
                                        (Err(t), m3) => halt(t, m3, b.f),
                                        (Ok(_), m3) => run_loop(
                                            c,
                                            plan,
                                            s,
                                            scope,
                                            l,
                                            within(m3, b.m),
                                            b.f,
                                        ),
                                    },
                                }
                            },
                        },
                    }
                },
            }
        },
        _ => halt(stuck(span_of(s), "loop"@), m, f),
    }
}

} // verus!
