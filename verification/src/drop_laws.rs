//! What a destruction does while a program runs.
use vstd::prelude::*;

use crate::bindings::{distinct, law_unbind, unbind, value_of};
use crate::contract_laws::{law_false_class_invariants_trap, none_false};
use crate::drops::{ActionV, FieldV, PhaseV, RecipeV};
use crate::machine::{
    check_invariants, invariant_env, unreach, CodeV, DropStepV, FrameV, MachV, RtPlaceV,
};
use crate::semantics::{
    drop_action, drop_field, drop_phases, drop_place, drop_value, linked_recipe, recipe_holds,
    run_deinit, run_drops, settled_machine,
};
use crate::span::Span;
use crate::value::ValV;

verus! {

/// An object is destroyed by the recipe of its own class; a value of another class, and any other
/// value, is refused and nothing happens to it.
pub proof fn law_objects_are_destroyed_by_their_class(
    c: CodeV,
    held: ValV,
    a: ActionV,
    what: Seq<char>,
    span: Span,
    m: MachV,
)
    requires
        a.recipe is DropClass,
    ensures
        ({
            let class = a.recipe->DropClass_0.class;
            let d = drop_action(c, held, a, what, span, m);
            &&& d.0 is Ok ==> (held matches ValV::Obj { class: own, fields } && own == class
                && linked_recipe(c, a.recipe->DropClass_0, span) is Ok && d == drop_value(
                c,
                class,
                fields,
                what,
                linked_recipe(c, a.recipe->DropClass_0, span)->Ok_0,
                span,
                m,
            ))
            &&& !(held matches ValV::Obj { class: own, .. } && own == class) ==> d.0 is Err && d.1 == m
        }),
{
}

/// Releasing an array leaves everything else as it was, and needs an array of the retained element
/// type. An empty owning option has nothing to destroy; a full one destroys its payload.
pub proof fn law_arrays_and_options_are_destroyed(
    c: CodeV,
    held: ValV,
    a: ActionV,
    what: Seq<char>,
    span: Span,
    m: MachV,
)
    requires
        recipe_holds(c, a, span) is Ok,
    ensures
        a.recipe matches RecipeV::ReleaseArray { element } ==> {
            let d = drop_action(c, held, a, what, span, m);
            &&& d.1 == m
            &&& d.0 is Ok <==> (held matches ValV::Arr(id) && (m.heap.array(id) matches Some(array)
                && array.payload == element))
        },
        a.recipe matches RecipeV::DropPresent(payload) ==> {
            let d = drop_action(c, held, a, what, span, m);
            &&& held matches ValV::AffineOptClass { value: None, .. } ==> d.0 is Ok && d.1 == m
            &&& held matches ValV::AffineOptBoolArray(None) ==> d.0 is Ok && d.1 == m
            &&& held matches ValV::AffineOptClass { class, value: Some(fields) } ==> d
                == drop_action(
                c,
                ValV::Obj { class, fields },
                *payload,
                what + ".value"@,
                span,
                m,
            )
            &&& held matches ValV::AffineOptBoolArray(Some(id)) ==> d == drop_action(
                c,
                ValV::Arr(id),
                *payload,
                what + ".value"@,
                span,
                m,
            )
            &&& !(held is AffineOptClass) && !(held is AffineOptBoolArray) ==> d.0 is Err
        },
{
}

/// A destruction whose phase is to check the invariant goes on only where no clause of it is false;
/// one whose phase is to run the deinitializer, only where that ran well.
pub proof fn law_phases_stop_a_destruction(
    c: CodeV,
    class: usize,
    id: usize,
    what: Seq<char>,
    phases: Seq<PhaseV>,
    i: nat,
    m: MachV,
)
    requires
        i < phases.len(),
        drop_phases(c, class, id, what, phases, i, m).0 is Ok,
    ensures
        phases[i as int] is CheckInvariant ==> none_false(
            invariant_env(m, id),
            c.classes[class as int].invariants@,
        ),
        phases[i as int] matches PhaseV::RunDeinitializer(owner) ==> run_deinit(
            c,
            class,
            id,
            owner,
            m,
        ).0 is Ok,
        phases[i as int] matches PhaseV::DropField(field) ==> (m.heap.object(id) matches Some(
            fields,
        ) && (value_of(fields, field.name) matches Some(held) ==> drop_field(
            c,
            held,
            field,
            what,
            MachV { heap: m.heap.set_object(id, unbind(fields, field.name)), ..m },
        ).0 is Ok)),
{
    let cd = c.classes[class as int];
    match phases[i as int] {
        PhaseV::CheckInvariant => {
            law_false_class_invariants_trap(m, cd, id, what);
            assert(settled_machine(check_invariants(m, cd, id, what, 0), m).0 is Ok);
        },
        _ => {},
    }
}

/// A field that must be consumed is never destroyed for the program: found live, it stops the
/// destruction. An owner without a recipe stops it too; a field with one is destroyed by it.
pub proof fn law_fields_are_destroyed_by_their_recipe(
    c: CodeV,
    held: ValV,
    field: FieldV,
    what: Seq<char>,
    m: MachV,
)
    ensures
        field.must_consume ==> drop_field(c, held, field, what, m).0 is Err,
        !field.must_consume ==> (field.drop_action matches Some(a) ==> drop_field(
            c,
            held,
            field,
            what,
            m,
        ) == drop_action(c, held, a, what + "."@ + field.name, field.span, m)),
        !field.must_consume && field.drop_action is None ==> (drop_field(
            c,
            held,
            field,
            what,
            m,
        ).0 is Ok <==> !(held is Obj || held is Arr || held is AffineOptBoolArray || held
            is AffineOptClass)),
        field.drop_action is None ==> drop_field(c, held, field, what, m).1 == m,
{
}

proof fn lemma_drops_keep(
    c: CodeV,
    steps: Seq<DropStepV>,
    i: nat,
    m: MachV,
    f: FrameV,
    name: Seq<char>,
)
    requires
        i <= steps.len(),
        distinct(f.vars),
    ensures
        distinct(run_drops(c, steps, i, m, f).f.vars),
        value_of(f.vars, name) is None ==> value_of(run_drops(c, steps, i, m, f).f.vars, name)
            is None,
        (forall|k: int| i <= k < steps.len() ==> (#[trigger] steps[k]).name != name) ==> value_of(
            run_drops(c, steps, i, m, f).f.vars,
            name,
        ) == value_of(f.vars, name),
    decreases steps.len() - i,
{
    if i < steps.len() {
        let s = steps[i as int];
        law_unbind(f.vars, s.name, name);
        law_unbind(f.vars, s.name, s.name);
        match value_of(f.vars, s.name) {
            None => {
                let g = FrameV {
                    reached: unreach(f.reached, s.id),
                    ..f
                };
                lemma_drops_keep(c, steps, i + 1, m, g, name);
            },
            Some(held) => {
                let vars = unbind(f.vars, s.name);
                let d = settled_machine(drop_action(c, held, s.action, s.name, s.span, m), m);
                if d.0 is Ok {
                    let g = FrameV {
                        vars,
                        reached: unreach(f.reached, s.id),
                        ..f
                    };
                    lemma_drops_keep(c, steps, i + 1, d.1, g, name);
                }
            },
        }
    }
}

proof fn lemma_drops_take(
    c: CodeV,
    steps: Seq<DropStepV>,
    i: nat,
    m: MachV,
    f: FrameV,
    k: int,
)
    requires
        i <= k < steps.len(),
        distinct(f.vars),
        run_drops(c, steps, i, m, f).r is Ok,
    ensures
        value_of(run_drops(c, steps, i, m, f).f.vars, steps[k].name) is None,
    decreases steps.len() - i,
{
    let s = steps[i as int];
    let name = steps[k].name;
    law_unbind(f.vars, s.name, name);
    law_unbind(f.vars, s.name, s.name);
    match value_of(f.vars, s.name) {
        None => {
            let g = FrameV { reached: unreach(f.reached, s.id), ..f };
            if i < k {
                lemma_drops_take(c, steps, i + 1, m, g, k);
            } else {
                lemma_drops_keep(c, steps, i + 1, m, g, name);
            }
        },
        Some(held) => {
            let vars = unbind(f.vars, s.name);
            let d = settled_machine(drop_action(c, held, s.action, s.name, s.span, m), m);
            let g = FrameV { vars, reached: unreach(f.reached, s.id), ..f };
            if i < k {
                lemma_drops_take(c, steps, i + 1, d.1, g, k);
            } else {
                lemma_drops_keep(c, steps, i + 1, d.1, g, name);
            }
        },
    }
}

/// Where the destructions of an exit succeed, none of the names that they destroy is bound any more,
/// and every other name keeps its value.
pub proof fn law_destroyed_names_are_gone(
    c: CodeV,
    steps: Seq<DropStepV>,
    m: MachV,
    f: FrameV,
    k: int,
    other: Seq<char>,
)
    requires
        distinct(f.vars),
        run_drops(c, steps, 0, m, f).r is Ok,
    ensures
        0 <= k < steps.len() ==> value_of(run_drops(c, steps, 0, m, f).f.vars, steps[k].name)
            is None,
        (forall|j: int| 0 <= j < steps.len() ==> (#[trigger] steps[j]).name != other) ==> value_of(
            run_drops(c, steps, 0, m, f).f.vars,
            other,
        ) == value_of(f.vars, other),
{
    if 0 <= k < steps.len() {
        lemma_drops_take(c, steps, 0, m, f, k);
    }
    lemma_drops_keep(c, steps, 0, m, f, other);
}

/// A value that is in the way is destroyed exactly where it is an owner: one that is due is destroyed
/// by the recipe of its step, and a destruction that fails ends the exit there.
pub proof fn law_first_destruction_decides(
    c: CodeV,
    steps: Seq<DropStepV>,
    m: MachV,
    f: FrameV,
)
    requires
        steps.len() > 0,
        value_of(f.vars, steps[0].name) is Some,
        run_drops(c, steps, 0, m, f).r is Ok,
    ensures
        drop_action(
            c,
            value_of(f.vars, steps[0].name)->Some_0,
            steps[0].action,
            steps[0].name,
            steps[0].span,
            m,
        ).0 is Ok,
{
}

/// A local that holds no owner keeps what it holds when its place is destroyed.
pub proof fn law_places_without_owners_stay(
    c: CodeV,
    name: Seq<char>,
    m: MachV,
    f: FrameV,
    n: i128,
)
    ensures
        value_of(f.vars, name) == Some(ValV::Int(n)) || value_of(f.vars, name) is None ==> drop_place(
            c,
            RtPlaceV::Local(name),
            m,
            f,
        ).f == f && drop_place(c, RtPlaceV::Local(name), m, f).m == m,
{
}

} // verus!
