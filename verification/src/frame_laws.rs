//! What a callable starts with, what an exposure lends, and what is due at an exit.
use vstd::prelude::*;

use crate::ast::{FnDecl, Param, Ty};
use crate::bindings::{law_bind, value_of};
use crate::drops::{ActionV, RecipeV};
use crate::effects::{
    capture_loan, copy_back, open_loan, release_loan, replaced_recipe, shape_fits, value_fits,
    LoanV,
};
use crate::heap::{detached, snapshot, SpecV};
use crate::machine::{
    arm_params, armed, bind_members, erased, new_frame, reach, shadowed, unreach, with_entry,
    with_old, with_var, CodeV, FrameV, MachV,
};
use crate::outline::{DropId, ScopeId};
use crate::place::{local_place, OwnerV};
use crate::plan::{AssignV, NormalV, PlanV};
use crate::rawheap::alloc_of;
use crate::semantics::{admitted, enter_init, enter_method, plan_for, stays_behind};
use crate::span::Span;
use crate::steps::{slot_presence, wrap_owned};
use crate::value::{ArrV, TrapV, ValV};

verus! {

// ------------------------------------------------------------------------------------------
// Exposures
// ------------------------------------------------------------------------------------------

/// An exposure lends its array: new live storage holds the elements as bytes, one each and in order;
/// the pointer names its first byte; and the heap is untouched. The array is the one that the owner
/// names, and its elements are of the retained type.
pub proof fn law_exposures_lend_their_array(n: NormalV, kw: Span, m: MachV, f: FrameV, i: int)
    requires
        open_loan(n, kw, m, f).0 is Ok,
        m.raw.len() <= i128::MAX,
        n.rebuild.pointer.root != n.release_loan.root,
        n.rebuild.pointer.root != n.rebuild.resource.root,
    ensures
        ({
            let (r, m1, f1) = open_loan(n, kw, m, f);
            let loan = r->Ok_0;
            &&& value_of(f.vars, n.rebuild.owner.root) == Some(ValV::Arr(loan.array))
            &&& m.heap.array(loan.array) matches Some(a)
            &&& n.rebuild.owner_ty.spec_as_array() matches Some((payload, _)) && a.payload == payload
            &&& m1.heap == m.heap
            &&& alloc_of(m.raw, loan.alloc as int) is None
            &&& alloc_of(m1.raw, loan.alloc as int) matches Some(al)
            &&& al.live
            &&& al.bytes.len() == a.values.len()
            &&& 0 <= i < a.values.len() ==> (a.values[i] matches ValV::Int(b) && al.bytes[i] == Some(
                b,
            ))
            &&& value_of(f1.vars, n.rebuild.pointer.root) == Some(ValV::Ptr(loan.alloc, 0))
            &&& value_of(f1.vars, n.release_loan.root) == Some(ValV::Ptr(loan.alloc, 0))
            &&& loan.release == n.release_loan.root
            &&& loan.capture == n.rebuild.resource.root
        }),
{
    reveal(open_loan);
    let (r, m1, f1) = open_loan(n, kw, m, f);
    let loan = r->Ok_0;
    let p = ValV::Ptr(loan.alloc, 0);
    let pointer = n.rebuild.pointer.root;
    let resource = n.rebuild.resource.root;
    let release = n.release_loan.root;
    let one = with_var(f, pointer, p);
    let two = with_var(one, resource, ValV::Unit);
    law_bind(f.vars, pointer, p, pointer);
    law_bind(one.vars, resource, ValV::Unit, pointer);
    law_bind(two.vars, release, p, pointer);
}

/// What is captured at the end of an exposure is what its storage holds, while the storage is live
/// and its resource bound, and nothing otherwise.
pub proof fn law_captures_read_the_loan(loan: LoanV, kw: Span, m: MachV, f: FrameV)
    ensures
        capture_loan(loan, kw, m, f) is Ok <==> value_of(f.vars, loan.capture) is Some && (alloc_of(
            m.raw,
            loan.alloc as int,
        ) matches Some(al) && al.live),
        capture_loan(loan, kw, m, f) matches Ok(bytes) ==> (alloc_of(
            m.raw,
            loan.alloc as int,
        ) matches Some(al) && al.bytes == bytes),
{
    reveal(capture_loan);
}

proof fn lemma_copied_back(
    m: MachV,
    loan: LoanV,
    bytes: Seq<Option<i128>>,
    kw: Span,
    i: nat,
    k: int,
)
    requires
        i <= k < bytes.len(),
        k < loan.len,
        copy_back(m, loan, bytes, kw, i).0 is Ok,
    ensures
        bytes[k] is Some,
    decreases bytes.len() - i,
{
    if i < k {
        let a = m.heap.array(loan.array)->Some_0;
        let v = bytes[i as int]->Some_0;
        let next = MachV {
            heap: m.heap.set_array(
                loan.array,
                ArrV { values: a.values.update(i as int, ValV::Int(v)), ..a },
            ),
            ..m
        };
        lemma_copied_back(next, loan, bytes, kw, i + 1, k);
    }
}

/// An array is rebuilt only from bytes that were all written: one that was not is a trap.
pub proof fn law_rebuilding_needs_every_byte(
    m: MachV,
    loan: LoanV,
    bytes: Seq<Option<i128>>,
    kw: Span,
    k: int,
)
    requires
        0 <= k < bytes.len(),
        k < loan.len,
        bytes[k] is None,
    ensures
        copy_back(m, loan, bytes, kw, 0).0 is Err,
{
    if copy_back(m, loan, bytes, kw, 0).0 is Ok {
        lemma_copied_back(m, loan, bytes, kw, 0, k);
    }
}

/// A loan is released through the pointer that was kept for it, and only that; its storage is dead
/// from then on, and no other storage changes.
pub proof fn law_loans_are_released(loan: LoanV, kw: Span, m: MachV, f: FrameV, other: int)
    ensures
        release_loan(loan, kw, m, f).0 is Ok <==> value_of(f.vars, loan.release) == Some(
            ValV::Ptr(loan.alloc, 0),
        ) && alloc_of(m.raw, loan.alloc as int) is Some,
        release_loan(loan, kw, m, f).0 is Ok ==> (alloc_of(
            release_loan(loan, kw, m, f).1.raw,
            loan.alloc as int,
        ) matches Some(al) && !al.live),
        other != loan.alloc ==> alloc_of(release_loan(loan, kw, m, f).1.raw, other) == alloc_of(
            m.raw,
            other,
        ),
        release_loan(loan, kw, m, f).0 is Err ==> release_loan(loan, kw, m, f).1 == m,
{
    reveal(release_loan);
}

// ------------------------------------------------------------------------------------------
// What is due
// ------------------------------------------------------------------------------------------

proof fn lemma_kept(s: Seq<DropId>, d: DropId, x: DropId)
    ensures
        unreach(s, d).contains(x) <==> s.contains(x) && x != d,
    decreases s.len(),
{
    reveal(Seq::filter);
    if s.len() > 0 {
        let front = s.drop_last();
        let kept = unreach(front, d);
        lemma_kept(front, d, x);
        assert(s == front.push(s.last()));
        if s.contains(x) && x != s.last() {
            let i = s.index_of(x);
            assert(front[i] == x);
        }
        if front.contains(x) {
            let i = front.index_of(x);
            assert(s[i] == x);
        }
        if s.last() != d {
            let all = kept.push(s.last());
            assert(all[kept.len() as int] == s.last());
            if kept.contains(x) {
                let i = kept.index_of(x);
                assert(all[i] == x);
            }
            if all.contains(x) && x != s.last() {
                let i = all.index_of(x);
                assert(kept[i] == x);
            }
        }
    }
}

/// A candidate that is reached is due, once; one that is no longer reached is not; every other
/// candidate is due as it was.
pub proof fn law_reached_candidates_are_due(s: Seq<DropId>, d: DropId, other: DropId)
    ensures
        reach(s, d).contains(d),
        other != d ==> (reach(s, d).contains(other) <==> s.contains(other)),
        !unreach(s, d).contains(d),
        other != d ==> (unreach(s, d).contains(other) <==> s.contains(other)),
{
    let r = reach(s, d);
    if !s.contains(d) {
        assert(r[s.len() as int] == d);
        if s.contains(other) {
            let i = s.index_of(other);
            assert(r[i] == other);
        }
        if r.contains(other) && other != d {
            let i = r.index_of(other);
            assert(s[i] == other);
        }
    }
    lemma_kept(s, d, d);
    lemma_kept(s, d, other);
}

/// A declaration that was reached makes its own candidate due, in the scope that the plan gave it; a
/// name without a candidate makes nothing due.
pub proof fn law_declarations_make_their_candidate_due(
    plan: PlanV,
    f: FrameV,
    name: Seq<char>,
    scope: ScopeId,
    span: Span,
)
    ensures
        plan.candidate_for(local_place(name)) is None ==> armed(plan, f, name, scope, span) == Ok::<
            FrameV,
            TrapV,
        >(f),
        plan.candidate_for(local_place(name)) matches Some(d) ==> (armed(plan, f, name, scope, span)
            is Ok <==> d.scope == scope),
        plan.candidate_for(local_place(name)) matches Some(d) ==> (armed(
            plan,
            f,
            name,
            scope,
            span,
        ) matches Ok(g) ==> g.reached.contains(d.id) && g.vars == f.vars && g.entry == f.entry
            && g.olds == f.olds),
{
    match plan.candidate_for(local_place(name)) {
        Some(d) => {
            law_reached_candidates_are_due(f.reached, d.id, d.id);
        },
        None => {},
    }
}

/// What an assignment replaces is destroyed by the recipe of its own candidate, and only where that
/// candidate was reached; an assignment that replaces nothing destroys nothing.
pub proof fn law_replaced_values_have_their_recipe(plan: PlanV, f: FrameV, a: AssignV)
    ensures
        a.previous is None ==> replaced_recipe(plan, f, a) == Ok::<Option<ActionV>, TrapV>(None),
        a.previous matches Some(d) ==> (replaced_recipe(plan, f, a) matches Ok(found) ==> {
            &&& f.reached.contains(d)
            &&& d.0 < plan.candidates.len()
            &&& plan.candidates[d.0 as int].place == a.destination
            &&& found == Some(plan.candidates[d.0 as int].drop_action)
        }),
        a.previous matches Some(d) ==> (!f.reached.contains(d) ==> replaced_recipe(plan, f, a)
            is Err),
{
    reveal(replaced_recipe);
}

/// A value that goes into a field fits the recipe that will destroy it: an object of its class, an
/// array of its element type.
pub proof fn law_stored_owners_fit_their_recipe(
    c: CodeV,
    m: MachV,
    v: ValV,
    a: ActionV,
    what: Seq<char>,
    span: Span,
)
    requires
        value_fits(c.control, c.classes, m, v, a, what, span) is Ok,
    ensures
        a.recipe matches RecipeV::DropClass(ca) ==> (v matches ValV::Obj { class, .. } && class
            == ca.class),
        a.recipe matches RecipeV::ReleaseArray { element } ==> (v matches ValV::Arr(id) && (
        m.heap.array(id) matches Some(array) && array.payload == element)),
        a.recipe matches RecipeV::DropPresent(payload) ==> v is AffineOptBoolArray || v
            is AffineOptClass,
{
    reveal(value_fits);
    reveal(shape_fits);
}

// ------------------------------------------------------------------------------------------
// Parameters
// ------------------------------------------------------------------------------------------

/// A parameter has no runtime value exactly where it is a resource that no map follows.
pub proof fn law_resources_have_no_runtime_value(ty: Ty)
    ensures
        !(ty is Res) ==> !erased(ty),
        ty matches Ty::Res(k) ==> (erased(ty) <==> !(k is ResourceMapPointsToU64) && !(k
            is ResourceMapPointsToRecord)),
        shadowed(ty) ==> ty is Res,
{
}

/// An argument stays behind exactly where its parameter is a resource: always for a foreign
/// function, and for a Sable one unless a map follows it.
pub proof fn law_resources_stay_behind(g: FnDecl, ty: Ty)
    ensures
        !(ty is Res) ==> !stays_behind(g, ty),
        ty is Res && g.foreign is Some ==> stays_behind(g, ty),
        ty is Res && g.foreign is None ==> (stays_behind(g, ty) <==> erased(ty)),
{
}

proof fn lemma_members_keep(
    m: MachV,
    plan: PlanV,
    f: FrameV,
    params: Seq<Param>,
    args: Seq<ValV>,
    i: nat,
    name: Seq<char>,
)
    requires
        i <= params.len(),
        bind_members(m, plan, f, params, args, i).0 is Ok,
        forall|k: int| i <= k < params.len() ==> (#[trigger] params[k]).name@ != name,
    ensures
        value_of(bind_members(m, plan, f, params, args, i).1.vars, name) == value_of(f.vars, name),
    decreases params.len() - i,
{
    if i < params.len() && i < args.len() {
        let p = params[i as int];
        let v = args[i as int];
        let noted = if v is Obj && p.ty.unique_borrow() {
            with_old(f, p.name@, snapshot(m.heap, v))
        } else {
            with_entry(f, p.name@, v)
        };
        let placed = with_var(noted, p.name@, v);
        law_bind(noted.vars, p.name@, v, name);
        match armed(plan, placed, p.name@, plan.frame_scope, p.span) {
            Ok(g) => {
                lemma_members_keep(m, plan, g, params, args, i + 1, name);
            },
            Err(_) => {},
        }
    }
}

proof fn lemma_members(
    m: MachV,
    plan: PlanV,
    f: FrameV,
    params: Seq<Param>,
    args: Seq<ValV>,
    i: nat,
    k: int,
)
    requires
        i <= k < params.len(),
        k < args.len(),
        bind_members(m, plan, f, params, args, i).0 is Ok,
        forall|x: int, y: int|
            0 <= x < y < params.len() ==> (#[trigger] params[x]).name@ != (#[trigger] params[y]).name@,
    ensures
        value_of(bind_members(m, plan, f, params, args, i).1.vars, params[k].name@) == Some(args[k]),
    decreases params.len() - i,
{
    let p = params[i as int];
    let v = args[i as int];
    let noted = if v is Obj && p.ty.unique_borrow() {
        with_old(f, p.name@, snapshot(m.heap, v))
    } else {
        with_entry(f, p.name@, v)
    };
    let placed = with_var(noted, p.name@, v);
    law_bind(noted.vars, p.name@, v, p.name@);
    match armed(plan, placed, p.name@, plan.frame_scope, p.span) {
        Ok(g) => {
            if i < k {
                lemma_members(m, plan, g, params, args, i + 1, k);
            } else {
                lemma_members_keep(m, plan, g, params, args, i + 1, params[k].name@);
            }
        },
        Err(_) => {},
    }
}

/// Each parameter of an initializer or a method is bound to the argument in its position.
pub proof fn law_member_arguments_go_to_their_parameters(
    m: MachV,
    plan: PlanV,
    f: FrameV,
    params: Seq<Param>,
    args: Seq<ValV>,
    k: int,
)
    requires
        0 <= k < params.len(),
        k < args.len(),
        bind_members(m, plan, f, params, args, 0).0 is Ok,
        forall|x: int, y: int|
            0 <= x < y < params.len() ==> (#[trigger] params[x]).name@ != (#[trigger] params[y]).name@,
    ensures
        value_of(bind_members(m, plan, f, params, args, 0).1.vars, params[k].name@) == Some(args[k]),
{
    lemma_members(m, plan, f, params, args, 0, k);
}

proof fn lemma_members_context(
    m: MachV,
    plan: PlanV,
    f: FrameV,
    params: Seq<Param>,
    args: Seq<ValV>,
    i: nat,
)
    requires
        i <= params.len(),
    ensures
        bind_members(m, plan, f, params, args, i).1.self_ctx == f.self_ctx,
    decreases params.len() - i,
{
    if i < params.len() && i < args.len() {
        let p = params[i as int];
        let v = args[i as int];
        let noted = if v is Obj && p.ty.unique_borrow() {
            with_old(f, p.name@, snapshot(m.heap, v))
        } else {
            with_entry(f, p.name@, v)
        };
        let placed = with_var(noted, p.name@, v);
        match armed(plan, placed, p.name@, plan.frame_scope, p.span) {
            Ok(g) => {
                lemma_members_context(m, plan, g, params, args, i + 1);
            },
            Err(_) => {},
        }
    }
}

/// An initializer and a method run on their own object: an initializer on a new one of its class, a
/// method on the one that it was called on.
pub proof fn law_members_run_on_their_object(
    c: CodeV,
    ci: usize,
    g: FnDecl,
    id: usize,
    args: Seq<ValV>,
    m: MachV,
)
    requires
        m.heap.objects.len() <= usize::MAX,
    ensures
        enter_init(c, ci, g, args, m).0 matches Ok(x) ==> x.frame.self_ctx == Some(
            (ci, m.heap.objects.len() as usize),
        ),
        enter_method(c, ci, g, id, args, m).0 matches Ok(x) ==> x.frame.self_ctx == Some((ci, id)),
{
    reveal(enter_init);
    reveal(enter_method);
    reveal(admitted);
    let class = c.classes[ci as int];
    match plan_for(
        c,
        OwnerV::Constructor { class: class.name@, init: g.name@ },
        g,
    ) {
        Ok(plan) => {
            let grown = MachV { heap: m.heap.with_object(Seq::empty()), ..m };
            let f = new_frame(Some((ci, m.heap.objects.len() as usize)));
            lemma_members_context(grown, plan, f, g.params@, args, 0);
        },
        Err(_) => {},
    }
    match (
        plan_for(
            c,
            OwnerV::Method { class: class.name@, method: g.name@ },
            g,
        ),
        detached(m.heap, ValV::Obj { class: ci, fields: id }),
    ) {
        (Ok(plan), Some((h, copy))) => {
            let copied = MachV { heap: h, ..m };
            let f = with_old(
                new_frame(Some((ci, id))),
                "self"@,
                snapshot(h, copy),
            );
            lemma_members_context(copied, plan, f, g.params@, args, 0);
        },
        _ => {},
    }
}

proof fn lemma_params(plan: PlanV, f: FrameV, params: Seq<Param>, i: nat, name: Seq<char>)
    requires
        i <= params.len(),
        arm_params(plan, f, params, i).0 is Ok,
        forall|k: int|
            i <= k < params.len() && (#[trigger] params[k]).name@ == name ==> !erased(params[k].ty),
    ensures
        value_of(arm_params(plan, f, params, i).1.vars, name) == value_of(f.vars, name),
    decreases params.len() - i,
{
    if i < params.len() {
        let p = params[i as int];
        let placed = if erased(p.ty) {
            with_var(f, p.name@, ValV::Unit)
        } else {
            f
        };
        law_bind(f.vars, p.name@, ValV::Unit, name);
        match armed(plan, placed, p.name@, plan.frame_scope, p.span) {
            Ok(g) => {
                lemma_params(plan, g, params, i + 1, name);
            },
            Err(_) => {},
        }
    }
}

/// Making the parameters due rebinds none that has a runtime value.
pub proof fn law_arming_keeps_the_arguments(
    plan: PlanV,
    f: FrameV,
    params: Seq<Param>,
    name: Seq<char>,
)
    requires
        arm_params(plan, f, params, 0).0 is Ok,
        forall|k: int|
            0 <= k < params.len() && (#[trigger] params[k]).name@ == name ==> !erased(params[k].ty),
    ensures
        value_of(arm_params(plan, f, params, 0).1.vars, name) == value_of(f.vars, name),
{
    lemma_params(plan, f, params, 0, name);
}

// ------------------------------------------------------------------------------------------
// Owning options
// ------------------------------------------------------------------------------------------

/// An owning option that was made of an object or an array is present, and holds it.
pub proof fn law_owning_options_hold_their_payload(id: usize, class: usize, n: i128, span: Span)
    ensures
        wrap_owned(ValV::Arr(id), span) == Ok::<ValV, TrapV>(ValV::AffineOptBoolArray(Some(id))),
        wrap_owned(ValV::Obj { class, fields: id }, span) == Ok::<ValV, TrapV>(
            ValV::AffineOptClass { class, value: Some(id) },
        ),
        wrap_owned(ValV::Int(n), span) is Err,
        slot_presence(Some(ValV::AffineOptBoolArray(Some(id)))) == Some(true),
        slot_presence(Some(ValV::AffineOptBoolArray(None))) == Some(false),
        slot_presence(Some(ValV::AffineOptClass { class, value: Some(id) })) == Some(true),
        slot_presence(Some(ValV::AffineOptClass { class, value: None })) == Some(false),
        slot_presence(None) is None,
        slot_presence(Some(ValV::Int(n))) is None,
{
}

proof fn lemma_members_olds(
    m: MachV,
    plan: PlanV,
    f: FrameV,
    params: Seq<Param>,
    args: Seq<ValV>,
    i: nat,
    name: Seq<char>,
)
    requires
        i <= params.len(),
        forall|k: int| i <= k < params.len() ==> (#[trigger] params[k]).name@ != name,
    ensures
        value_of(bind_members(m, plan, f, params, args, i).1.olds, name) == value_of(f.olds, name),
    decreases params.len() - i,
{
    if i < params.len() && i < args.len() {
        let p = params[i as int];
        let v = args[i as int];
        let noted = if v is Obj && p.ty.unique_borrow() {
            with_old(f, p.name@, snapshot(m.heap, v))
        } else {
            with_entry(f, p.name@, v)
        };
        let placed = with_var(noted, p.name@, v);
        match snapshot(m.heap, v) {
            Some(s) => {
                law_bind(f.olds, p.name@, s, name);
            },
            None => {},
        }
        match armed(plan, placed, p.name@, plan.frame_scope, p.span) {
            Ok(g) => {
                lemma_members_olds(m, plan, g, params, args, i + 1, name);
            },
            Err(_) => {},
        }
    }
}

/// In a method, `old self` is the object as it was on entry.
pub proof fn law_methods_remember_their_object(
    c: CodeV,
    ci: usize,
    g: FnDecl,
    id: usize,
    args: Seq<ValV>,
    m: MachV,
    s: SpecV,
)
    requires
        enter_method(c, ci, g, id, args, m).0 is Ok,
        forall|k: int| 0 <= k < g.params@.len() ==> (#[trigger] g.params@[k]).name@ != "self"@,
        detached(m.heap, ValV::Obj { class: ci, fields: id }) matches Some((h, copy)) ==> snapshot(
            h,
            copy,
        ) == Some(s),
    ensures
        value_of(enter_method(c, ci, g, id, args, m).0->Ok_0.frame.olds, "self"@) == Some(s),
{
    reveal(enter_method);
    reveal(admitted);
    let class = c.classes[ci as int];
    match (
        plan_for(c, OwnerV::Method { class: class.name@, method: g.name@ }, g),
        detached(m.heap, ValV::Obj { class: ci, fields: id }),
    ) {
        (Ok(plan), Some((h, copy))) => {
            let copied = MachV { heap: h, ..m };
            let start = new_frame(Some((ci, id)));
            let f = with_old(start, "self"@, snapshot(h, copy));
            law_bind(start.olds, "self"@, s, "self"@);
            lemma_members_olds(copied, plan, f, g.params@, args, 0, "self"@);
        },
        _ => {},
    }
}

} // verus!
