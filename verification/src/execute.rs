//! The execution of blocks and statements, the cleanup of exits, and destruction.
use vstd::prelude::*;

use crate::ast::{ClassDecl, Mutability, Param, Stmt};
use crate::bindings::{lemma_unbind_len, take, unbind};
use crate::drops::{
    ClassDropAction, ClassDropField, ClassDropPhase, ClassDropPlan, ExitRoute, ValueDropAction,
    ValueDropRecipe,
};
use crate::effects::{
    find_assignment, find_replaced, payload_refusal, preflight, refusal, stmt_span, Ready,
};
use crate::heap::{lemma_total_update, total_fields};
use crate::interp::{acts, gives, Flow};
use crate::machine::{
    check_loop_clauses, in_order, remove_drop, resolve_clears, resolve_drops, DropStep, Frame, Interp,
    Machine, RtPlace, SiteV, TrapContext,
};
use crate::monitor::Unmonitorable;
use crate::outline::{BlockId, ScopeId, StatementPlanKind};
use crate::place::CallOwner;
use crate::plan::{BodyPlan, LoopPlan};
use crate::repr::{group_views, opt_view, views};
use crate::semantics::{
    arm_declared, body_exit, check_descent, class_recipe_holds, cleanup, deinit_plan, drop_action,
    drop_field, drop_object, drop_phases, drop_place, drop_value, exec_block, exec_body, exec_stmt,
    exec_stmts, fewer, linked_recipe, monitored_head, not_class, put_self_field, rank, recipe_holds,
    run_alloc, run_assign, run_dealloc, run_decl, run_deinit, run_drops, run_expose, run_expr,
    run_field_assign, run_if, run_loop, run_return, run_store, shrinks, stmt_kind, stmts_from,
    weight,
};
use crate::span::Span;
use crate::steps::array_id_of;
use crate::text::{cat2, cat3, cat4, cat6, owned, signed_decimal, usize_decimal};
use crate::value::{control_plan_trap, yields, RtVal, Trap};

verus! {

broadcast use group_views;

impl<'a> Interp<'a> {
    // --------------------------------------------------------------------------------------
    // Blocks
    // --------------------------------------------------------------------------------------

    pub fn exec_body(&self, stmts: &Vec<Stmt>, plan: &BodyPlan, m: &mut Machine, f: &mut Frame) -> (r:
        Result<Flow, Trap>)
        requires
            self.ready(plan@),
        ensures
            gives(r, final(m)@, final(f)@, exec_body(self@, plan@, stmts@, old(m)@, old(f)@)),
            shrinks(final(m)@, final(f)@, old(m)@, old(f)@),
            in_order(old(m)@, final(m)@),
        decreases old(m)@.fuel, 1nat, weight(old(m)@, old(f)@), 4nat, 0nat,
    {
        proof {
            reveal(body_exit);
        }
        let falls = plan.body_block().flow.reaches_next;
        let routes = plan.implicit_return();
        let normal: Option<&ExitRoute> = if falls {
            Some(&routes.lexical)
        } else {
            None
        };
        self.exec_block(stmts, plan, plan.body_block, normal, m, f)
    }

    pub fn exec_block(
        &self,
        stmts: &Vec<Stmt>,
        plan: &BodyPlan,
        block: BlockId,
        normal_exit: Option<&ExitRoute>,
        m: &mut Machine,
        f: &mut Frame,
    ) -> (r: Result<Flow, Trap>)
        requires
            self.ready(plan@),
        ensures
            gives(
                r,
                final(m)@,
                final(f)@,
                exec_block(
                    self@,
                    plan@,
                    stmts@,
                    block,
                    opt_view(normal_exit),
                    old(m)@,
                    old(f)@,
                ),
            ),
            shrinks(final(m)@, final(f)@, old(m)@, old(f)@),
            in_order(old(m)@, final(m)@),
        decreases old(m)@.fuel, 1nat, weight(old(m)@, old(f)@), 3nat, 0nat,
    {
        if block.0 >= plan.blocks.len() {
            return Err(Trap::stuck(Span { start: 0, end: 0 }, "block"));
        }
        let planned = plan.block(block);
        if planned.flow.reaches_next != normal_exit.is_some() {
            return Err(
                refusal(
                    planned.anchor,
                    owned("retained block fallthrough disagrees with its normal exit route"),
                ),
            );
        }
        match self.exec_stmts(stmts, plan, block, m, f) {
            Err(t) => Err(t),
            Ok(Flow::Return(v)) => Ok(Flow::Return(v)),
            Ok(Flow::Normal) => match normal_exit {
                None => Err(
                    refusal(
                        planned.anchor,
                        owned("non-fallthrough retained block completed normally"),
                    ),
                ),
                Some(route) => match self.cleanup_route(route, plan, m, f) {
                    Err(t) => Err(t),
                    Ok(_) => Ok(Flow::Normal),
                },
            },
        }
    }

    fn arm_declared(&self, s: &Stmt, plan: &BodyPlan, scope: ScopeId, f: &mut Frame) -> (r: Result<
        (),
        Trap,
    >)
        requires
            plan@.wf(),
        ensures
            match arm_declared(plan@, *s, scope, old(f)@) {
                Ok(g) => r is Ok && final(f)@ == g,
                Err(t) => (r matches Err(x) && x@ == t) && final(f)@ == old(f)@,
            },
    {
        match s {
            Stmt::VarDecl { name, name_span, .. } | Stmt::Decl { name, name_span, .. } => f.arm(
                plan,
                name.as_str(),
                scope,
                *name_span,
            ),
            _ => Ok(()),
        }
    }

    /// Runs a block whose declarations belong to the enclosing scope where the block has none of
    /// its own, as an `unsafe` block.
    pub fn exec_stmts(
        &self,
        stmts: &Vec<Stmt>,
        plan: &BodyPlan,
        block: BlockId,
        m: &mut Machine,
        f: &mut Frame,
    ) -> (r: Result<Flow, Trap>)
        requires
            self.ready(plan@),
        ensures
            gives(
                r,
                final(m)@,
                final(f)@,
                exec_stmts(self@, plan@, stmts@, block, old(m)@, old(f)@),
            ),
            shrinks(final(m)@, final(f)@, old(m)@, old(f)@),
            in_order(old(m)@, final(m)@),
        decreases old(m)@.fuel, 1nat, weight(old(m)@, old(f)@), 2nat, 0nat,
    {
        if block.0 >= plan.blocks.len() {
            return Err(Trap::stuck(Span { start: 0, end: 0 }, "block"));
        }
        let planned = plan.block(block);
        let n: usize = stmts.len();
        if planned.statements.len() != n {
            return Err(
                refusal(
                    planned.anchor,
                    owned("runtime block length disagrees with its retained block plan"),
                ),
            );
        }
        let ghost whole = stmts_from(self@, plan@, stmts@, block, 0, old(m)@, old(f)@);
        let mut i: usize = 0;
        while i < n
            invariant
                self.ready(plan@),
                n == stmts@.len(),
                block.0 < plan@.blocks.len(),
                planned@ == plan@.blocks[block.0 as int],
                planned.statements@.len() == n,
                i <= n,
                shrinks(m@, f@, old(m)@, old(f)@),
                in_order(old(m)@, m@),
                whole == stmts_from(self@, plan@, stmts@, block, 0, old(m)@, old(f)@),
                whole == stmts_from(self@, plan@, stmts@, block, i as nat, m@, f@),
            decreases n - i,
        {
            let s = &stmts[i];
            let sp = planned.statements[i];
            assert(planned@.statements[i as int] == sp);
            if !sp.entry_reachable {
                return Err(
                    refusal(
                        stmt_span(s),
                        owned("runtime reached a statement sealed as structurally unreachable"),
                    ),
                );
            }
            let flow = match self.exec_stmt(s, sp.kind, plan, planned.scope, m, f) {
                Err(t) => {
                    return Err(t);
                },
                Ok(flow) => flow,
            };
            match self.arm_declared(s, plan, planned.scope, f) {
                Err(t) => {
                    return Err(t);
                },
                Ok(_) => {},
            }
            match flow {
                Flow::Return(v) => {
                    return Ok(Flow::Return(v));
                },
                Flow::Normal => {},
            }
            i = i + 1;
        }
        Ok(Flow::Normal)
    }

    pub fn cleanup_route(
        &self,
        route: &ExitRoute,
        plan: &BodyPlan,
        m: &mut Machine,
        f: &mut Frame,
    ) -> (r: Result<(), Trap>)
        requires
            self.ready(plan@),
        ensures
            gives(r, final(m)@, final(f)@, cleanup(self@, plan@, route@, old(m)@, old(f)@)),
            shrinks(final(m)@, final(f)@, old(m)@, old(f)@),
            in_order(old(m)@, final(m)@),
        decreases old(m)@.fuel, 1nat, weight(old(m)@, old(f)@), 2nat, 0nat,
    {
        let drops = match resolve_drops(plan, &f.reached, &route.drops) {
            Err(t) => {
                return Err(t);
            },
            Ok(drops) => drops,
        };
        let names = match resolve_clears(&route.clears) {
            Err(t) => {
                return Err(t);
            },
            Ok(names) => names,
        };
        match self.run_drops(&drops, m, f) {
            Err(t) => {
                return Err(t);
            },
            Ok(_) => {},
        }
        f.clear(&names);
        Ok(())
    }

    fn run_drops(&self, drops: &Vec<DropStep>, m: &mut Machine, f: &mut Frame) -> (r: Result<
        (),
        Trap,
    >)
        requires
            self.control@.wf(),
        ensures
            gives(
                r,
                final(m)@,
                final(f)@,
                run_drops(self@, views(drops@), 0, old(m)@, old(f)@),
            ),
            shrinks(final(m)@, final(f)@, old(m)@, old(f)@),
            in_order(old(m)@, final(m)@),
        decreases old(m)@.fuel, 1nat, weight(old(m)@, old(f)@), 1nat, drops@.len(),
    {
        let ghost steps = views(drops@);
        let ghost whole = run_drops(self@, steps, 0, old(m)@, old(f)@);
        let n: usize = drops.len();
        let mut i: usize = 0;
        while i < n
            invariant
                self.control@.wf(),
                n == drops@.len(),
                steps == views(drops@),
                i <= n,
                shrinks(m@, f@, old(m)@, old(f)@),
                in_order(old(m)@, m@),
                whole == run_drops(self@, steps, 0, old(m)@, old(f)@),
                whole == run_drops(self@, steps, i as nat, m@, f@),
            decreases n - i,
        {
            proof {
                lemma_unbind_len(f@.vars, drops@[i as int].name@);
            }
            let d = &drops[i];
            assert(steps[i as int] == d@);
            match take(&mut f.vars, d.name.as_str()) {
                None => {},
                Some(held) => {
                    match self.drop_runtime_value_with_action(
                        &held,
                        &d.action,
                        d.name.as_str(),
                        d.span,
                        m,
                    ) {
                        Err(t) => {
                            return Err(t);
                        },
                        Ok(_) => {},
                    }
                },
            }
            remove_drop(&mut f.reached, d.id);
            i = i + 1;
        }
        Ok(())
    }

    // --------------------------------------------------------------------------------------
    // Destruction
    // --------------------------------------------------------------------------------------

    fn recipe_holds(&self, action: &ValueDropAction, span: Span) -> (r: Result<(), Trap>)
        ensures
            yields(r, recipe_holds(self@, action@, span)),
    {
        proof {
            reveal(recipe_holds);
        }
        match self.control.validate_value_drop_action(action, self.classes.as_slice(), span) {
            Err(e) => Err(control_plan_trap(e)),
            Ok(_) => Ok(()),
        }
    }

    fn linked_recipe(&self, action: &ClassDropAction, span: Span) -> (r: Result<
        &'a ClassDropPlan,
        Trap,
    >)
        ensures
            yields(r, linked_recipe(self@, action@, span)),
    {
        proof {
            reveal(linked_recipe);
        }
        let control = self.control;
        match control.class_drop_for_action(action, self.classes.as_slice(), span) {
            Err(e) => Err(control_plan_trap(e)),
            Ok(plan) => Ok(plan),
        }
    }

    fn class_recipe_holds(plan: &ClassDropPlan, class: usize, cd: &ClassDecl) -> (r: Result<
        (),
        Trap,
    >)
        ensures
            yields(r, class_recipe_holds(plan@, class, *cd)),
    {
        proof {
            reveal(class_recipe_holds);
        }
        match plan.validate(class, cd) {
            Err(e) => {
                return Err(control_plan_trap(e));
            },
            Ok(_) => {},
        }
        match plan.validate_terminal_trap_route() {
            Err(e) => Err(control_plan_trap(e)),
            Ok(_) => Ok(()),
        }
    }

    fn deinit_plan(&self, owner: &CallOwner, span: Span, body: &Vec<Stmt>) -> (r: Result<
        &'a BodyPlan,
        Trap,
    >)
        requires
            self.control@.wf(),
        ensures
            yields(r, deinit_plan(self@, owner@, span, body@)),
            r matches Ok(p) ==> p@.wf(),
    {
        proof {
            reveal(deinit_plan);
        }
        let control = self.control;
        let none: Vec<Param> = Vec::new();
        assert(none@ =~= Seq::empty());
        match control.body(owner, span) {
            Err(e) => Err(control_plan_trap(e)),
            Ok(b) => match b.validate_callable(span, none.as_slice(), body.as_slice()) {
                Err(e) => Err(control_plan_trap(e)),
                Ok(_) => Ok(b.plan()),
            },
        }
    }

    pub fn drop_runtime_value_with_action(
        &self,
        held: &RtVal,
        action: &ValueDropAction,
        what: &str,
        use_span: Span,
        m: &mut Machine,
    ) -> (r: Result<(), Trap>)
        requires
            self.control@.wf(),
        ensures
            acts(
                r,
                final(m)@,
                drop_action(self@, held@, action@, what@, use_span, old(m)@),
            ),
            fewer(final(m)@, old(m)@),
            in_order(old(m)@, final(m)@),
        decreases
                old(m)@.fuel,
                1nat,
                total_fields(old(m)@.heap.objects),
                7nat,
                rank(action@),
    {
        match self.recipe_holds(action, use_span) {
            Err(t) => {
                return Err(t);
            },
            Ok(_) => {},
        }
        match &action.recipe {
            ValueDropRecipe::DropClass(ca) => {
                let (class, fields) = match held {
                    RtVal::Obj { class, fields } => (*class, *fields),
                    _ => {
                        return Err(Self::class_refusal(what, ca.class, use_span));
                    },
                };
                if class != ca.class {
                    return Err(Self::class_refusal(what, ca.class, use_span));
                }
                match self.linked_recipe(ca, use_span) {
                    Err(t) => Err(t),
                    Ok(plan) => self.drop_value_with_plan(class, fields, what, plan, use_span, m),
                }
            },
            ValueDropRecipe::ReleaseArray { element } => match held {
                RtVal::Arr(id) => match m.heap.array(*id) {
                    None => Err(Trap::stuck(use_span, "array")),
                    Some(array) => {
                        if !array.payload.same_ty(element) {
                            return Err(
                                payload_refusal(what, &array.payload, element, use_span),
                            );
                        }
                        Ok(())
                    },
                },
                _ => Err(
                    refusal(
                        use_span,
                        cat3("runtime value `", what, "` does not hold its retained array"),
                    ),
                ),
            },
            ValueDropRecipe::DropPresent(payload) => match held {
                RtVal::AffineOptBoolArray(value) => match value {
                    None => Ok(()),
                    Some(id) => self.drop_runtime_value_with_action(
                        &RtVal::Arr(*id),
                        payload,
                        cat2(what, ".value").as_str(),
                        use_span,
                        m,
                    ),
                },
                RtVal::AffineOptClass { class, value } => match value {
                    None => Ok(()),
                    Some(fields) => self.drop_runtime_value_with_action(
                        &RtVal::Obj { class: *class, fields: *fields },
                        payload,
                        cat2(what, ".value").as_str(),
                        use_span,
                        m,
                    ),
                },
                _ => Err(
                    refusal(
                        use_span,
                        cat3(
                            "runtime value `",
                            what,
                            "` does not hold its retained owning option",
                        ),
                    ),
                ),
            },
        }
    }

    fn class_refusal(what: &str, class: usize, span: Span) -> (r: Trap)
        ensures
            r@ == not_class(what@, class, span),
    {
        refusal(
            span,
            cat4(
                "runtime value `",
                what,
                "` does not hold retained class index ",
                usize_decimal(class).as_str(),
            ),
        )
    }

    pub fn drop_value_with_plan(
        &self,
        class: usize,
        fields: usize,
        what: &str,
        drop_plan: &ClassDropPlan,
        use_span: Span,
        m: &mut Machine,
    ) -> (r: Result<(), Trap>)
        requires
            self.control@.wf(),
        ensures
            acts(
                r,
                final(m)@,
                drop_value(self@, class, fields, what@, drop_plan@, use_span, old(m)@),
            ),
            fewer(final(m)@, old(m)@),
            in_order(old(m)@, final(m)@),
        decreases old(m)@.fuel, 1nat, total_fields(old(m)@.heap.objects), 6nat, 0nat,
    {
        if class >= self.classes.len() {
            return Err(
                refusal(
                    use_span,
                    cat3(
                        "runtime class index ",
                        usize_decimal(class).as_str(),
                        " has no concrete declaration",
                    ),
                ),
            );
        }
        match Self::class_recipe_holds(drop_plan, class, &self.classes[class]) {
            Err(t) => {
                return Err(t);
            },
            Ok(_) => {},
        }
        self.drop_phases(class, fields, what, &drop_plan.phases, m)
    }

    pub fn drop_value(&self, class: usize, fields: usize, what: &str, m: &mut Machine) -> (r: Result<
        (),
        Trap,
    >)
        requires
            self.control@.wf(),
        ensures
            acts(r, final(m)@, drop_object(self@, class, fields, what@, old(m)@)),
            fewer(final(m)@, old(m)@),
            in_order(old(m)@, final(m)@),
    {
        if class >= self.classes.len() {
            return Err(
                refusal(
                    Span { start: 0, end: 0 },
                    cat3(
                        "runtime class index ",
                        usize_decimal(class).as_str(),
                        " has no concrete declaration",
                    ),
                ),
            );
        }
        let cd = &self.classes[class];
        match self.control.class_drop(class, cd) {
            Err(e) => Err(control_plan_trap(e)),
            Ok(plan) => self.drop_value_with_plan(class, fields, what, plan, cd.span, m),
        }
    }

    pub fn drop_place(&self, place: &RtPlace, m: &mut Machine, f: &mut Frame) -> (r: Result<(), Trap>)
        requires
            self.control@.wf(),
        ensures
            gives(r, final(m)@, final(f)@, drop_place(self@, place@, old(m)@, old(f)@)),
    {
        let object: Option<(usize, usize)> = {
            let held = match place {
                RtPlace::Local(name) => f.local(name.as_str()),
                RtPlace::SelfField(field) => m.self_field(f, field.as_str()),
            };
            match held {
                Some(RtVal::Obj { class, fields }) => Some((*class, *fields)),
                Some(RtVal::AffineOptClass { class, value: Some(fields) }) => Some(
                    (*class, *fields),
                ),
                Some(RtVal::Arr(_)) | Some(RtVal::AffineOptBoolArray(_)) | Some(
                    RtVal::AffineOptClass { .. },
                ) => None,
                _ => {
                    return Ok(());
                },
            }
        };
        m.take_place(place, f);
        match object {
            Some((class, fields)) => self.drop_value(class, fields, place.name().as_str(), m),
            None => Ok(()),
        }
    }

    fn drop_phases(
        &self,
        class: usize,
        id: usize,
        what: &str,
        phases: &Vec<ClassDropPhase>,
        m: &mut Machine,
    ) -> (r: Result<(), Trap>)
        requires
            self.control@.wf(),
            class < self@.classes.len(),
        ensures
            acts(
                r,
                final(m)@,
                drop_phases(self@, class, id, what@, views(phases@), 0, old(m)@),
            ),
            fewer(final(m)@, old(m)@),
            in_order(old(m)@, final(m)@),
        decreases
                old(m)@.fuel,
                1nat,
                total_fields(old(m)@.heap.objects),
                5nat,
                (phases@.len() + 1) as nat,
    {
        let cd = &self.classes[class];
        let ghost all = views(phases@);
        let ghost whole = drop_phases(self@, class, id, what@, all, 0, old(m)@);
        let n: usize = phases.len();
        let mut i: usize = 0;
        while i < n
            invariant
                self.control@.wf(),
                class < self@.classes.len(),
                *cd == self@.classes[class as int],
                n == phases@.len(),
                all == views(phases@),
                i <= n,
                fewer(m@, old(m)@),
                in_order(old(m)@, m@),
                whole == drop_phases(self@, class, id, what@, all, 0, old(m)@),
                whole == drop_phases(self@, class, id, what@, all, i as nat, m@),
            decreases n - i,
        {
            assert(all[i as int] == phases@[i as int]@);
            match &phases[i] {
                ClassDropPhase::CheckInvariant => {
                    match m.check_invariants_at(cd, id, what) {
                        Err(t) => {
                            return Err(t);
                        },
                        Ok(_) => {},
                    }
                },
                ClassDropPhase::RunDeinitializer(owner) => {
                    match self.run_deinit(class, id, owner, m) {
                        Err(t) => {
                            return Err(t);
                        },
                        Ok(_) => {},
                    }
                },
                ClassDropPhase::DropField(field) => {
                    if id >= m.heap.objects.len() {
                        return Err(Trap::stuck(cd.span, "object"));
                    }
                    proof {
                        let fields = m@.heap.objects[id as int];
                        lemma_unbind_len(fields, field.name@);
                        lemma_total_update(
                            m@.heap.objects,
                            id as int,
                            unbind(fields, field.name@),
                        );
                        assert(m@.heap.objects.update(id as int, fields) =~= m@.heap.objects);
                    }
                    match m.take_field(id, field.name.as_str()) {
                        None => {},
                        Some(held) => {
                            match self.drop_field(&held, field, what, m) {
                                Err(t) => {
                                    return Err(t);
                                },
                                Ok(_) => {},
                            }
                        },
                    }
                },
            }
            i = i + 1;
        }
        Ok(())
    }

    /// Destroys what a field held, once it is out of the field.
    fn drop_field(&self, held: &RtVal, field: &ClassDropField, what: &str, m: &mut Machine) -> (r:
        Result<(), Trap>)
        requires
            self.control@.wf(),
        ensures
            acts(
                r,
                final(m)@,
                drop_field(self@, held@, field@, what@, old(m)@),
            ),
            fewer(final(m)@, old(m)@),
            in_order(old(m)@, final(m)@),
        decreases old(m)@.fuel, 1nat, total_fields(old(m)@.heap.objects), 8nat, 0nat,
    {
        if field.must_consume {
            return Err(
                refusal(
                    field.span,
                    cat3(
                        "must-consume field `",
                        field.name.as_str(),
                        "` remained live at class destruction",
                    ),
                ),
            );
        }
        match &field.drop_action {
            Some(action) => self.drop_runtime_value_with_action(
                held,
                action,
                cat3(what, ".", field.name.as_str()).as_str(),
                field.span,
                m,
            ),
            None => {
                if matches!(
                    held,
                    RtVal::Obj { .. } | RtVal::Arr(_) | RtVal::AffineOptBoolArray(_)
                    | RtVal::AffineOptClass { .. }
                ) {
                    return Err(
                        refusal(
                            field.span,
                            cat3(
                                "runtime field `",
                                field.name.as_str(),
                                "` holds an owner without a retained drop action",
                            ),
                        ),
                    );
                }
                Ok(())
            },
        }
    }

    fn run_deinit(&self, class: usize, id: usize, owner: &CallOwner, m: &mut Machine) -> (r: Result<
        (),
        Trap,
    >)
        requires
            self.control@.wf(),
            class < self@.classes.len(),
        ensures
            acts(r, final(m)@, run_deinit(self@, class, id, owner@, old(m)@)),
            fewer(final(m)@, old(m)@),
            in_order(old(m)@, final(m)@),
        decreases old(m)@.fuel, 1nat, total_fields(old(m)@.heap.objects), 5nat, 0nat,
    {
        let cd = &self.classes[class];
        let body = match &cd.deinit {
            None => {
                return Err(
                    refusal(
                        cd.span,
                        cat3(
                            "class-drop plan for `",
                            cd.name.as_str(),
                            "` retained a missing deinitializer",
                        ),
                    ),
                );
            },
            Some(body) => body,
        };
        let plan = match self.deinit_plan(owner, cd.span, body) {
            Err(t) => {
                return Err(t);
            },
            Ok(plan) => plan,
        };
        let mut frame = Frame::new(Some((class, id)));
        match self.exec_body(body, plan, m, &mut frame) {
            Err(t) => Err(t),
            Ok(Flow::Normal) => Ok(()),
            Ok(Flow::Return(_)) => Err(
                refusal(
                    cd.span,
                    cat3(
                        "deinitializer for `",
                        cd.name.as_str(),
                        "` returned instead of completing its class-drop phase",
                    ),
                ),
            ),
        }
    }

    // --------------------------------------------------------------------------------------
    // Statements
    // --------------------------------------------------------------------------------------

    pub fn exec_stmt(
        &self,
        s: &Stmt,
        kind: StatementPlanKind,
        plan: &BodyPlan,
        scope: ScopeId,
        m: &mut Machine,
        f: &mut Frame,
    ) -> (r: Result<Flow, Trap>)
        requires
            self.ready(plan@),
        ensures
            gives(
                r,
                final(m)@,
                final(f)@,
                exec_stmt(self@, plan@, *s, kind, scope, old(m)@, old(f)@),
            ),
            shrinks(final(m)@, final(f)@, old(m)@, old(f)@),
            in_order(old(m)@, final(m)@),
            r is Ok ==> final(m)@.fuel < old(m)@.fuel,
        decreases old(m)@.fuel, 1nat, weight(old(m)@, old(f)@), 0nat, 0nat,
    {
        let ready = match self.preflight(plan, s, kind, scope) {
            Err(t) => {
                return Err(t);
            },
            Ok(ready) => ready,
        };
        match m.burn(stmt_span(s)) {
            Err(t) => {
                return Err(t);
            },
            Ok(_) => {},
        }
        let traps = TrapContext::new(plan, scope);
        match traps.consume_statement(s) {
            Err(t) => {
                return Err(t);
            },
            Ok(_) => {},
        }
        self.stmt_kind(s, kind, plan, scope, &ready, m, f)
    }

    fn stmt_kind(
        &self,
        s: &Stmt,
        kind: StatementPlanKind,
        plan: &BodyPlan,
        scope: ScopeId,
        ready: &Ready<'_>,
        m: &mut Machine,
        f: &mut Frame,
    ) -> (r: Result<Flow, Trap>)
        requires
            self.ready(plan@),
        ensures
            gives(
                r,
                final(m)@,
                final(f)@,
                stmt_kind(self@, plan@, *s, kind, scope, ready@, old(m)@, old(f)@),
            ),
            final(m)@.fuel <= old(m)@.fuel,
            in_order(old(m)@, final(m)@),
        decreases old(m)@.fuel, 4nat, 0nat, 4nat, 0nat,
    {
        match s {
            Stmt::Decl { .. } | Stmt::VarDecl { .. } => self.run_decl(s, plan, scope, m, f),
            Stmt::Assign { .. } => self.run_assign(s, plan, scope, m, f),
            Stmt::Unsafe { body, .. } => match kind {
                StatementPlanKind::Unsafe(block) => self.exec_stmts(body, plan, block, m, f),
                _ => Err(Trap::stuck(stmt_span(s), "unsafe block")),
            },
            Stmt::StaticAlloc { .. } | Stmt::SystemAlloc { .. } => self.run_alloc(
                s,
                plan,
                scope,
                m,
                f,
            ),
            Stmt::SystemDealloc { .. } => self.run_dealloc(s, plan, scope, m, f),
            Stmt::Expose { .. } => self.run_expose(s, plan, ready, m, f),
            Stmt::ExprStmt(_) => self.run_expr(s, plan, scope, ready, m, f),
            Stmt::Assert(clause) => match m.check_clause(f, clause, None, "inline assert") {
                Err(t) => Err(t),
                Ok(_) => Ok(Flow::Normal),
            },
            Stmt::FieldAssign { .. } => self.run_field_assign(s, plan, scope, ready, m, f),
            Stmt::FieldStore { .. } | Stmt::Store { .. } => self.run_store(s, plan, scope, m, f),
            Stmt::Return { .. } => self.run_return(s, plan, scope, m, f),
            Stmt::If { .. } => self.run_if(s, plan, scope, m, f),
            Stmt::While { cond, kw_span, .. } => {
                match plan.loop_plan(scope, *kw_span, cond.span) {
                    Err(e) => Err(control_plan_trap(e)),
                    Ok(l) => self.run_loop(s, plan, scope, l, m, f),
                }
            },
        }
    }

    fn run_decl(&self, s: &Stmt, plan: &BodyPlan, scope: ScopeId, m: &mut Machine, f: &mut Frame) -> (r:
        Result<Flow, Trap>)
        requires
            self.ready(plan@),
        ensures
            gives(
                r,
                final(m)@,
                final(f)@,
                run_decl(self@, plan@, *s, scope, old(m)@, old(f)@),
            ),
            final(m)@.fuel <= old(m)@.fuel,
            in_order(old(m)@, final(m)@),
        decreases old(m)@.fuel, 4nat, 0nat, 0nat, 0nat,
    {
        let traps = TrapContext::new(plan, scope);
        let (name, init) = match s {
            Stmt::Decl { name, init, .. } => match init {
                None => {
                    return Ok(Flow::Normal);
                },
                Some(e) => (name, e),
            },
            Stmt::VarDecl { name, init, .. } => (name, init),
            _ => {
                return Err(Trap::stuck(stmt_span(s), "declaration"));
            },
        };
        match self.eval_moved(init, m, f, traps) {
            Err(t) => Err(t),
            Ok(v) => {
                f.set_var(name.as_str(), v);
                Ok(Flow::Normal)
            },
        }
    }

    fn run_assign(&self, s: &Stmt, plan: &BodyPlan, scope: ScopeId, m: &mut Machine, f: &mut Frame) -> (r:
        Result<Flow, Trap>)
        requires
            self.ready(plan@),
        ensures
            gives(
                r,
                final(m)@,
                final(f)@,
                run_assign(self@, plan@, *s, scope, old(m)@, old(f)@),
            ),
            final(m)@.fuel <= old(m)@.fuel,
            in_order(old(m)@, final(m)@),
        decreases old(m)@.fuel, 4nat, 0nat, 0nat, 0nat,
    {
        let traps = TrapContext::new(plan, scope);
        let (name, name_span, value) = match s {
            Stmt::Assign { name, name_span, value } => (name, *name_span, value),
            _ => {
                return Err(Trap::stuck(stmt_span(s), "assignment"));
            },
        };
        let a = match find_assignment(plan, scope, name.as_str(), name_span) {
            Err(t) => {
                return Err(t);
            },
            Ok(a) => a,
        };
        let v = match self.eval_moved(value, m, f, traps) {
            Err(t) => {
                return Err(t);
            },
            Ok(v) => v,
        };
        let recipe = match find_replaced(plan, f, a) {
            Err(t) => {
                return Err(t);
            },
            Ok(recipe) => recipe,
        };
        match recipe {
            None => {},
            Some(action) => {
                match take(&mut f.vars, a.destination.root()) {
                    None => {},
                    Some(held) => {
                        match self.drop_runtime_value_with_action(
                            &held,
                            action,
                            a.destination.render().as_str(),
                            a.span,
                            m,
                        ) {
                            Err(t) => {
                                return Err(t);
                            },
                            Ok(_) => {},
                        }
                    },
                }
            },
        }
        f.set_var(a.destination.root(), v);
        Ok(Flow::Normal)
    }

    fn run_alloc(&self, s: &Stmt, plan: &BodyPlan, scope: ScopeId, m: &mut Machine, f: &mut Frame) -> (r:
        Result<Flow, Trap>)
        requires
            self.ready(plan@),
        ensures
            gives(
                r,
                final(m)@,
                final(f)@,
                run_alloc(self@, plan@, *s, scope, old(m)@, old(f)@),
            ),
            final(m)@.fuel <= old(m)@.fuel,
            in_order(old(m)@, final(m)@),
        decreases old(m)@.fuel, 4nat, 0nat, 0nat, 0nat,
    {
        let traps = TrapContext::new(plan, scope);
        let (size, ptr, res, release) = match s {
            Stmt::StaticAlloc { size, ptr, res, .. } => (size, ptr, res, None),
            Stmt::SystemAlloc { size, ptr, res, release, .. } => (size, ptr, res, Some(release)),
            _ => {
                return Err(Trap::stuck(stmt_span(s), "allocation"));
            },
        };
        let n: i128 = match self.eval_int(size, m, f, traps) {
            Err(t) => {
                return Err(t);
            },
            Ok(n) => n,
        };
        match m.raw_alloc(n, size.span) {
            Err(t) => Err(t),
            Ok(a) => {
                f.set_var(ptr.as_str(), RtVal::Ptr(a, 0));
                f.set_var(res.as_str(), RtVal::Unit);
                match release {
                    None => {},
                    Some(release) => {
                        f.set_var(release.as_str(), RtVal::Unit);
                    },
                }
                Ok(Flow::Normal)
            },
        }
    }

    fn run_dealloc(&self, s: &Stmt, plan: &BodyPlan, scope: ScopeId, m: &mut Machine, f: &mut Frame) -> (r:
        Result<Flow, Trap>)
        requires
            self.ready(plan@),
        ensures
            gives(
                r,
                final(m)@,
                final(f)@,
                run_dealloc(self@, plan@, *s, scope, old(m)@, old(f)@),
            ),
            final(m)@.fuel <= old(m)@.fuel,
            in_order(old(m)@, final(m)@),
        decreases old(m)@.fuel, 4nat, 0nat, 0nat, 0nat,
    {
        let traps = TrapContext::new(plan, scope);
        let (ptr, res, release, kw_span) = match s {
            Stmt::SystemDealloc { ptr, res, release, kw_span } => (ptr, res, release, *kw_span),
            _ => {
                return Err(Trap::stuck(stmt_span(s), "deallocation"));
            },
        };
        let (a, off) = match self.eval(ptr, m, f, traps) {
            Err(t) => {
                return Err(t);
            },
            Ok(RtVal::Ptr(a, off)) => (a, off),
            Ok(_) => {
                return Err(Trap::stuck(kw_span, "raw pointer"));
            },
        };
        match self.eval_moved(res, m, f, traps) {
            Err(t) => {
                return Err(t);
            },
            Ok(_) => {},
        }
        match self.eval_moved(release, m, f, traps) {
            Err(t) => {
                return Err(t);
            },
            Ok(_) => {},
        }
        match m.raw_free(a, off, kw_span) {
            Err(t) => Err(t),
            Ok(_) => Ok(Flow::Normal),
        }
    }

    fn run_expose(
        &self,
        s: &Stmt,
        plan: &BodyPlan,
        ready: &Ready<'_>,
        m: &mut Machine,
        f: &mut Frame,
    ) -> (r: Result<Flow, Trap>)
        requires
            self.ready(plan@),
        ensures
            gives(
                r,
                final(m)@,
                final(f)@,
                run_expose(self@, plan@, *s, ready@, old(m)@, old(f)@),
            ),
            final(m)@.fuel <= old(m)@.fuel,
            in_order(old(m)@, final(m)@),
        decreases old(m)@.fuel, 4nat, 0nat, 0nat, 0nat,
    {
        let (kw_span, body, x, n) = match (s, ready.exposure) {
            (Stmt::Expose { kw_span, body, .. }, Some((x, n))) => (*kw_span, body, x, n),
            _ => {
                return Err(Trap::stuck(stmt_span(s), "exposure"));
            },
        };
        let loan = match m.open_loan(n, kw_span, f) {
            Err(t) => {
                return Err(t);
            },
            Ok(loan) => loan,
        };
        match self.exec_stmts(body, plan, x.body, m, f) {
            Err(t) => {
                return Err(t);
            },
            Ok(Flow::Return(v)) => {
                return Ok(Flow::Return(v));
            },
            Ok(Flow::Normal) => {},
        }
        let bytes = match m.capture_loan(&loan, kw_span, f) {
            Err(t) => {
                return Err(t);
            },
            Ok(bytes) => bytes,
        };
        match self.cleanup_route(&n.body_exit, plan, m, f) {
            Err(t) => {
                return Err(t);
            },
            Ok(_) => {},
        }
        if n.rebuild.mutability == Mutability::Mut {
            match m.copy_back(&loan, &bytes, kw_span) {
                Err(t) => {
                    return Err(t);
                },
                Ok(_) => {},
            }
        }
        match m.release_loan(&loan, kw_span, f) {
            Err(t) => {
                return Err(t);
            },
            Ok(_) => {},
        }
        match self.cleanup_route(&n.close, plan, m, f) {
            Err(t) => Err(t),
            Ok(_) => Ok(Flow::Normal),
        }
    }

    fn run_expr(
        &self,
        s: &Stmt,
        plan: &BodyPlan,
        scope: ScopeId,
        ready: &Ready<'_>,
        m: &mut Machine,
        f: &mut Frame,
    ) -> (r: Result<Flow, Trap>)
        requires
            self.ready(plan@),
        ensures
            gives(
                r,
                final(m)@,
                final(f)@,
                run_expr(self@, plan@, *s, scope, ready@, old(m)@, old(f)@),
            ),
            final(m)@.fuel <= old(m)@.fuel,
            in_order(old(m)@, final(m)@),
        decreases old(m)@.fuel, 4nat, 0nat, 0nat, 0nat,
    {
        let e = match s {
            Stmt::ExprStmt(e) => e,
            _ => {
                return Err(Trap::stuck(stmt_span(s), "expression"));
            },
        };
        let v = match self.eval(e, m, f, TrapContext::new(plan, scope)) {
            Err(t) => {
                return Err(t);
            },
            Ok(v) => v,
        };
        match ready.temporary {
            None => Ok(Flow::Normal),
            Some(a) => match self.drop_runtime_value_with_action(
                &v,
                &a.drop_action,
                a.temporary.render().as_str(),
                a.span,
                m,
            ) {
                Err(t) => Err(t),
                Ok(_) => Ok(Flow::Normal),
            },
        }
    }

    fn put_self_field(&self, field: &str, v: RtVal, span: Span, m: &mut Machine, f: &mut Frame) -> (r:
        Result<Flow, Trap>)
        ensures
            gives(
                r,
                final(m)@,
                final(f)@,
                put_self_field(old(m)@, old(f)@, field@, v@, span),
            ),
            final(m)@.fuel == old(m)@.fuel,
    {
        let id: usize = match f.self_ctx {
            None => {
                return Err(Trap::stuck(span, "member context"));
            },
            Some((_, id)) => id,
        };
        if id >= m.heap.objects.len() {
            return Err(Trap::stuck(span, "member context"));
        }
        m.put_field(id, field, v);
        Ok(Flow::Normal)
    }

    fn run_field_assign(
        &self,
        s: &Stmt,
        plan: &BodyPlan,
        scope: ScopeId,
        ready: &Ready<'_>,
        m: &mut Machine,
        f: &mut Frame,
    ) -> (r: Result<Flow, Trap>)
        requires
            self.ready(plan@),
        ensures
            gives(
                r,
                final(m)@,
                final(f)@,
                run_field_assign(self@, plan@, *s, scope, ready@, old(m)@, old(f)@),
            ),
            final(m)@.fuel <= old(m)@.fuel,
            in_order(old(m)@, final(m)@),
        decreases old(m)@.fuel, 4nat, 0nat, 0nat, 0nat,
    {
        let (field, value, a) = match (s, ready.field) {
            (Stmt::FieldAssign { field, value, .. }, Some(a)) => (field, value, a),
            _ => {
                return Err(Trap::stuck(stmt_span(s), "field assignment"));
            },
        };
        let v = match self.eval_moved(value, m, f, TrapContext::new(plan, scope)) {
            Err(t) => {
                return Err(t);
            },
            Ok(v) => v,
        };
        match &a.drop_action {
            None => {},
            Some(action) => {
                match self.validate_runtime_value_for_action(
                    m,
                    &v,
                    action,
                    "field-assignment RHS",
                    a.span,
                ) {
                    Err(t) => {
                        return Err(t);
                    },
                    Ok(_) => {},
                }
                if f.self_ctx.is_none() {
                    return Err(
                        refusal(
                            a.span,
                            owned("field-assignment action has no active self object"),
                        ),
                    );
                }
                let ghost before = m@;
                match m.take_place(&RtPlace::SelfField(field.clone()), f) {
                    None => {
                        proof {
                            let id = f@.self_ctx->Some_0.1;
                            if before.heap.object(id) is Some {
                                lemma_unbind_len(before.heap.objects[id as int], field@);
                                assert(before.heap.objects.update(
                                    id as int,
                                    before.heap.objects[id as int],
                                ) =~= before.heap.objects);
                            }
                        }
                    },
                    Some(held) => {
                        match self.drop_runtime_value_with_action(
                            &held,
                            action,
                            a.destination.render().as_str(),
                            a.span,
                            m,
                        ) {
                            Err(t) => {
                                return Err(t);
                            },
                            Ok(_) => {},
                        }
                    },
                }
            },
        }
        self.put_self_field(field.as_str(), v, a.span, m, f)
    }

    fn run_store(&self, s: &Stmt, plan: &BodyPlan, scope: ScopeId, m: &mut Machine, f: &mut Frame) -> (r:
        Result<Flow, Trap>)
        requires
            self.ready(plan@),
        ensures
            gives(
                r,
                final(m)@,
                final(f)@,
                run_store(self@, plan@, *s, scope, old(m)@, old(f)@),
            ),
            final(m)@.fuel <= old(m)@.fuel,
            in_order(old(m)@, final(m)@),
        decreases old(m)@.fuel, 4nat, 0nat, 0nat, 0nat,
    {
        let traps = TrapContext::new(plan, scope);
        let (index, value) = match s {
            Stmt::FieldStore { index, value, .. } | Stmt::Store { index, value, .. } => (
                index,
                value,
            ),
            _ => {
                return Err(Trap::stuck(stmt_span(s), "store"));
            },
        };
        let idx: i128 = match self.eval_int(index, m, f, traps) {
            Err(t) => {
                return Err(t);
            },
            Ok(idx) => idx,
        };
        let v = match self.eval(value, m, f, traps) {
            Err(t) => {
                return Err(t);
            },
            Ok(v) => v,
        };
        let stored = match s {
            Stmt::FieldStore { field, field_span, .. } => {
                let id = array_id_of(m.self_field(f, field.as_str()));
                m.array_put(id, idx, v, *field_span)
            },
            Stmt::Store { array, array_span, .. } => {
                let id = array_id_of(f.local(array.as_str()));
                m.array_put(id, idx, v, *array_span)
            },
            _ => Err(Trap::stuck(stmt_span(s), "store")),
        };
        match stored {
            Err(t) => Err(t),
            Ok(_) => Ok(Flow::Normal),
        }
    }

    fn run_return(&self, s: &Stmt, plan: &BodyPlan, scope: ScopeId, m: &mut Machine, f: &mut Frame) -> (r:
        Result<Flow, Trap>)
        requires
            self.ready(plan@),
        ensures
            gives(
                r,
                final(m)@,
                final(f)@,
                run_return(self@, plan@, *s, scope, old(m)@, old(f)@),
            ),
            final(m)@.fuel <= old(m)@.fuel,
            in_order(old(m)@, final(m)@),
        decreases old(m)@.fuel, 4nat, 0nat, 0nat, 0nat,
    {
        let (value, span) = match s {
            Stmt::Return { value, span } => (value, *span),
            _ => {
                return Err(Trap::stuck(stmt_span(s), "return"));
            },
        };
        let v = match value {
            Some(e) => match self.eval_moved(e, m, f, TrapContext::new(plan, scope)) {
                Err(t) => {
                    return Err(t);
                },
                Ok(v) => v,
            },
            None => RtVal::Unit,
        };
        if scope.0 >= plan.scopes.len() {
            return Err(Trap::stuck(span, "scope"));
        }
        let routes = match plan.explicit_return(span, scope) {
            Err(e) => {
                return Err(control_plan_trap(e));
            },
            Ok(routes) => routes,
        };
        match self.cleanup_route(&routes.lexical, plan, m, f) {
            Err(t) => Err(t),
            Ok(_) => Ok(Flow::Return(v)),
        }
    }

    fn run_if(&self, s: &Stmt, plan: &BodyPlan, scope: ScopeId, m: &mut Machine, f: &mut Frame) -> (r:
        Result<Flow, Trap>)
        requires
            self.ready(plan@),
        ensures
            gives(
                r,
                final(m)@,
                final(f)@,
                run_if(self@, plan@, *s, scope, old(m)@, old(f)@),
            ),
            final(m)@.fuel <= old(m)@.fuel,
            in_order(old(m)@, final(m)@),
        decreases old(m)@.fuel, 4nat, 0nat, 0nat, 0nat,
    {
        let (cond, then_block, else_block) = match s {
            Stmt::If { cond, then_block, else_block } => (cond, then_block, else_block),
            _ => {
                return Err(Trap::stuck(stmt_span(s), "branch"));
            },
        };
        let branch = match plan.branch(scope, cond.span, else_block.is_some()) {
            Err(e) => {
                return Err(control_plan_trap(e));
            },
            Ok(branch) => branch,
        };
        let taken: bool = match self.eval_bool(cond, m, f, TrapContext::new(plan, scope)) {
            Err(t) => {
                return Err(t);
            },
            Ok(b) => b,
        };
        if taken {
            let arm = &branch.then_arm;
            return self.exec_block(
                then_block,
                plan,
                arm.block,
                arm.normal_exit.as_ref(),
                m,
                f,
            );
        }
        match else_block {
            None => Ok(Flow::Normal),
            Some(stmts) => match &branch.else_arm {
                None => Err(
                    refusal(cond.span, owned("retained branch lost its source else arm")),
                ),
                Some(arm) => self.exec_block(
                    stmts,
                    plan,
                    arm.block,
                    arm.normal_exit.as_ref(),
                    m,
                    f,
                ),
            },
        }
    }

    fn run_loop(
        &self,
        s: &Stmt,
        plan: &BodyPlan,
        scope: ScopeId,
        l: &LoopPlan,
        m: &mut Machine,
        f: &mut Frame,
    ) -> (r: Result<Flow, Trap>)
        requires
            self.ready(plan@),
        ensures
            gives(
                r,
                final(m)@,
                final(f)@,
                run_loop(self@, plan@, *s, scope, l@, old(m)@, old(f)@),
            ),
            final(m)@.fuel <= old(m)@.fuel,
            in_order(old(m)@, final(m)@),
        decreases old(m)@.fuel, 4nat, 0nat, 3nat, 0nat,
    {
        let (cond, invariants, variant, kw_span, body) = match s {
            Stmt::While { cond, invariants, variant, kw_span, body } => (
                cond,
                invariants,
                variant,
                *kw_span,
                body,
            ),
            _ => {
                return Err(Trap::stuck(stmt_span(s), "loop"));
            },
        };
        proof {
            reveal(monitored_head);
            reveal(check_descent);
        }
        let traps = TrapContext::new(plan, scope);
        let ghost whole = run_loop(self@, plan@, *s, scope, l@, old(m)@, old(f)@);
        loop
            invariant
                self.ready(plan@),
                traps@ == (SiteV { plan: plan@, scope }),
                *s == (Stmt::While {
                    cond: *cond,
                    invariants: *invariants,
                    variant: *variant,
                    kw_span,
                    body: *body,
                }),
                m@.fuel <= old(m)@.fuel,
                in_order(old(m)@, m@),
                whole == run_loop(self@, plan@, *s, scope, l@, old(m)@, old(f)@),
                whole == run_loop(self@, plan@, *s, scope, l@, m@, f@),
            decreases m@.fuel,
        {
            proof {
                reveal(monitored_head);
                reveal(check_descent);
            }
            match m.burn(kw_span) {
                Err(t) => {
                    return Err(t);
                },
                Ok(_) => {},
            }
            match m.check_loop_clauses(f, invariants) {
                Err(t) => {
                    return Err(t);
                },
                Ok(_) => {},
            }
            let head: Option<Result<i128, Unmonitorable>> = match variant {
                Some(v) => Some(m.variant_value(f, v)),
                None => None,
            };
            match self.eval_bool(cond, m, f, traps) {
                Err(t) => {
                    return Err(t);
                },
                Ok(false) => {
                    return Ok(Flow::Normal);
                },
                Ok(true) => {},
            }
            let v0: Option<i128> = match (variant, head) {
                (Some(v), Some(Ok(n))) => {
                    if n < 0 {
                        return Err(
                            Trap::defined(
                                v.span,
                                cat4(
                                    "loop variant is negative (",
                                    signed_decimal(n).as_str(),
                                    "): ",
                                    v.text.as_str(),
                                ),
                            ),
                        );
                    }
                    Some(n)
                },
                (Some(v), Some(Err(reason))) => {
                    m.note_skipped(v.text.as_str(), reason);
                    None
                },
                _ => None,
            };
            match self.exec_block(body, plan, l.body, l.backedge.as_ref(), m, f) {
                Err(t) => {
                    return Err(t);
                },
                Ok(Flow::Return(v)) => {
                    return Ok(Flow::Return(v));
                },
                Ok(Flow::Normal) => {},
            }
            match (variant, v0) {
                (Some(v), Some(v0)) => match m.variant_value(f, v) {
                    Ok(v1) => {
                        if v1 >= v0 {
                            return Err(
                                Trap::defined(
                                    v.span,
                                    cat6(
                                        "loop variant did not decrease (",
                                        signed_decimal(v0).as_str(),
                                        " → ",
                                        signed_decimal(v1).as_str(),
                                        "): ",
                                        v.text.as_str(),
                                    ),
                                ),
                            );
                        }
                    },
                    Err(reason) => {
                        m.note_skipped(v.text.as_str(), reason);
                    },
                },
                _ => {},
            }
        }
    }
}

} // verus!
