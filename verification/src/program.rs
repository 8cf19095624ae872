//! The control plans and destruction recipes of a whole program.
use vstd::prelude::*;

use crate::ast::{ClassDecl, FnDecl, Method, Param, Program, Stmt};
use crate::drops::{
    agrees, class_plan_of, drop_action_of, plan_err, trap_route_v, ActionV, ClassActionV,
    ClassDropAction, ClassDropPhase, ClassDropPlan, ClassPlanV, ErrV, PhaseV, PlanError, RecipeV,
    ValueDropAction, ValueDropRecipe,
};
use crate::outline::{outline_of, ControlOutline, OutlineV};
use crate::place::{CallOwner, OwnerV};
use crate::plan::{BodyPlan, CandidateV, FieldAssignV, PlanV, TempDropV};
use crate::repr::{group_views, views, Repr};
use crate::seal::{plan_of, sealed};
use crate::span::Span;
use crate::text::{cat2, cat3, usize_decimal, nat_text};

verus! {

broadcast use group_views;

// ------------------------------------------------------------------------------------------
// Outlines
// ------------------------------------------------------------------------------------------

/// The outlines of every body of a program.
#[derive(Debug)]
pub struct ControlOutlines {
    pub bodies: Vec<ControlOutline>,
}

impl View for ControlOutlines {
    type V = Seq<OutlineV>;

    open spec fn view(&self) -> Seq<OutlineV> {
        views(self.bodies@)
    }
}

pub open spec fn function_owner(f: FnDecl) -> OwnerV {
    OwnerV::Function(f.name@)
}

pub open spec fn init_owner(c: ClassDecl, f: FnDecl) -> OwnerV {
    OwnerV::Constructor { class: c.name@, init: f.name@ }
}

pub open spec fn method_owner(c: ClassDecl, m: Method) -> OwnerV {
    OwnerV::Method { class: c.name@, method: m.f.name@ }
}

pub open spec fn deinit_owner(c: ClassDecl) -> OwnerV {
    OwnerV::Deinitializer { class: c.name@ }
}

/// The outlines of the functions from `i` on, after `acc`. Where `audited` is set, a function
/// with a foreign body has none.
pub open spec fn function_outlines(
    acc: Seq<OutlineV>,
    fns: Seq<FnDecl>,
    i: nat,
    audited: bool,
) -> Seq<OutlineV>
    decreases fns.len() - i,
{
    if i >= fns.len() {
        acc
    } else {
        let f = fns[i as int];
        let next = if audited && f.foreign is Some {
            acc
        } else {
            acc.push(outline_of(function_owner(f), f.span, f.body@))
        };
        function_outlines(next, fns, i + 1, audited)
    }
}

pub open spec fn init_outlines(acc: Seq<OutlineV>, c: ClassDecl, i: nat) -> Seq<OutlineV>
    decreases c.inits@.len() - i,
{
    if i >= c.inits@.len() {
        acc
    } else {
        let f = c.inits@[i as int];
        init_outlines(acc.push(outline_of(init_owner(c, f), f.span, f.body@)), c, i + 1)
    }
}

pub open spec fn method_outlines(acc: Seq<OutlineV>, c: ClassDecl, i: nat) -> Seq<OutlineV>
    decreases c.methods@.len() - i,
{
    if i >= c.methods@.len() {
        acc
    } else {
        let m = c.methods@[i as int];
        method_outlines(acc.push(outline_of(method_owner(c, m), m.f.span, m.f.body@)), c, i + 1)
    }
}

pub open spec fn class_outlines(acc: Seq<OutlineV>, c: ClassDecl) -> Seq<OutlineV> {
    let members = method_outlines(init_outlines(acc, c, 0), c, 0);
    match c.deinit {
        Some(body) => members.push(outline_of(deinit_owner(c), c.span, body@)),
        None => members,
    }
}

pub open spec fn classes_outlines(acc: Seq<OutlineV>, classes: Seq<ClassDecl>, i: nat) -> Seq<
    OutlineV,
>
    decreases classes.len() - i,
{
    if i >= classes.len() {
        acc
    } else {
        classes_outlines(class_outlines(acc, classes[i as int]), classes, i + 1)
    }
}

/// The outlines of a program: functions, function templates, classes, class templates.
pub open spec fn program_outlines(p: Program) -> Seq<OutlineV> {
    classes_outlines(
        classes_outlines(
            function_outlines(
                function_outlines(Seq::empty(), p.fns@, 0, true),
                p.fn_templates@,
                0,
                false,
            ),
            p.classes@,
            0,
        ),
        p.class_templates@,
        0,
    )
}

/// The outlines retained under one identity.
pub open spec fn outlines_under(os: Seq<OutlineV>, owner: OwnerV, span: Span) -> Seq<OutlineV> {
    os.filter(|o: OutlineV| o.owner == owner && o.declaration_span == span)
}

/// The one outline retained under an identity.
pub open spec fn exact_outline(os: Seq<OutlineV>, owner: OwnerV, span: Span) -> Result<
    OutlineV,
    ErrV,
> {
    let found = outlines_under(os, owner, span);
    if found.len() == 0 {
        Err(plan_err(span, "control outlines have no body for "@ + owner.text()))
    } else if found.len() > 1 {
        Err(plan_err(span, "duplicate control outline identity for "@ + owner.text()))
    } else {
        Ok(found[0])
    }
}

impl ControlOutlines {
    pub fn new() -> (r: Self)
        ensures
            r@ == Seq::<OutlineV>::empty(),
    {
        ControlOutlines { bodies: Vec::new() }
    }

    pub fn push(&mut self, outline: ControlOutline)
        ensures
            final(self)@ == old(self)@.push(outline@),
    {
        self.bodies.push(outline);
    }

    fn push_functions(&mut self, fns: &Vec<FnDecl>, audited: bool)
        ensures
            final(self)@ == function_outlines(old(self)@, fns@, 0, audited),
    {
        let n: usize = fns.len();
        let mut i: usize = 0;
        while i < n
            invariant
                n == fns@.len(),
                i <= n,
                function_outlines(old(self)@, fns@, 0, audited) == function_outlines(
                    self@,
                    fns@,
                    i as nat,
                    audited,
                ),
            decreases n - i,
        {
            let f = &fns[i];
            if !(audited && f.foreign.is_some()) {
                self.push(
                    ControlOutline::build(
                        CallOwner::Function(f.name.clone()),
                        f.span,
                        f.body.as_slice(),
                    ),
                );
            }
            i = i + 1;
        }
    }

    fn push_class(&mut self, c: &ClassDecl)
        ensures
            final(self)@ == class_outlines(old(self)@, *c),
    {
        let n: usize = c.inits.len();
        let mut i: usize = 0;
        while i < n
            invariant
                n == c.inits@.len(),
                i <= n,
                init_outlines(old(self)@, *c, 0) == init_outlines(self@, *c, i as nat),
            decreases n - i,
        {
            let f = &c.inits[i];
            let owner = CallOwner::Constructor { class: c.name.clone(), init: f.name.clone() };
            self.push(ControlOutline::build(owner, f.span, f.body.as_slice()));
            i = i + 1;
        }
        let n: usize = c.methods.len();
        let mut i: usize = 0;
        while i < n
            invariant
                n == c.methods@.len(),
                i <= n,
                method_outlines(init_outlines(old(self)@, *c, 0), *c, 0) == method_outlines(
                    self@,
                    *c,
                    i as nat,
                ),
            decreases n - i,
        {
            let m = &c.methods[i];
            let owner = CallOwner::Method { class: c.name.clone(), method: m.f.name.clone() };
            self.push(ControlOutline::build(owner, m.f.span, m.f.body.as_slice()));
            i = i + 1;
        }
        match &c.deinit {
            Some(body) => {
                let owner = CallOwner::Deinitializer { class: c.name.clone() };
                self.push(ControlOutline::build(owner, c.span, body.as_slice()));
            },
            None => {},
        }
    }

    fn push_classes(&mut self, classes: &Vec<ClassDecl>)
        ensures
            final(self)@ == classes_outlines(old(self)@, classes@, 0),
    {
        let n: usize = classes.len();
        let mut i: usize = 0;
        while i < n
            invariant
                n == classes@.len(),
                i <= n,
                classes_outlines(old(self)@, classes@, 0) == classes_outlines(
                    self@,
                    classes@,
                    i as nat,
                ),
            decreases n - i,
        {
            self.push_class(&classes[i]);
            i = i + 1;
        }
    }

    pub fn for_program(program: &Program) -> (r: Self)
        ensures
            r@ == program_outlines(*program),
    {
        let mut outlines = ControlOutlines::new();
        outlines.push_functions(&program.fns, true);
        outlines.push_functions(&program.fn_templates, false);
        outlines.push_classes(&program.classes);
        outlines.push_classes(&program.class_templates);
        outlines
    }

    pub fn exact(&self, owner: &CallOwner, declaration_span: Span) -> (r: Result<
        &ControlOutline,
        PlanError,
    >)
        ensures
            match exact_outline(self@, owner@, declaration_span) {
                Ok(o) => r matches Ok(x) && x@ == o,
                Err(e) => r matches Err(x) && x@ == e,
            },
    {
        let n: usize = self.bodies.len();
        let mut count: usize = 0;
        let mut first: usize = 0;
        let mut i: usize = 0;
        while i < n
            invariant
                n == self.bodies@.len(),
                i <= n,
                count <= i,
                outlines_under(self@.take(i as int), owner@, declaration_span).len() == count,
                count > 0 ==> first < n && outlines_under(
                    self@.take(i as int),
                    owner@,
                    declaration_span,
                )[0] == self@[first as int],
            decreases n - i,
        {
            proof {
                reveal(Seq::filter);
                assert(self@.take(i + 1).drop_last() =~= self@.take(i as int));
                assert(self@.take(i + 1).last() == self@[i as int]);
            }
            let o = &self.bodies[i];
            if o.owner.same(owner) && o.declaration_span == declaration_span {
                if count == 0 {
                    first = i;
                }
                count = count + 1;
            }
            i = i + 1;
        }
        assert(self@.take(n as int) =~= self@);
        proof {
            reveal(Seq::filter);
        }
        if count == 0 {
            return Err(
                PlanError {
                    span: declaration_span,
                    message: cat2("control outlines have no body for ", owner.render().as_str()),
                },
            );
        }
        if count > 1 {
            return Err(
                PlanError {
                    span: declaration_span,
                    message: cat2(
                        "duplicate control outline identity for ",
                        owner.render().as_str(),
                    ),
                },
            );
        }
        Ok(&self.bodies[first])
    }
}

// ------------------------------------------------------------------------------------------
// One callable
// ------------------------------------------------------------------------------------------

/// One checked callable and the plan of its body. The owner is part of the identity: an
/// initializer and a method may share a name.
#[derive(Debug)]
pub struct ControlBody {
    pub owner: CallOwner,
    pub declaration_span: Span,
    pub plan: BodyPlan,
}

pub ghost struct BodyV {
    pub owner: OwnerV,
    pub declaration_span: Span,
    pub plan: PlanV,
}

impl View for ControlBody {
    type V = BodyV;

    open spec fn view(&self) -> BodyV {
        BodyV {
            owner: self.owner@,
            declaration_span: self.declaration_span,
            plan: self.plan@,
        }
    }
}

impl BodyV {
    /// The refusal where the callable is not the one that was planned.
    pub open spec fn check(self, span: Span, params: Seq<Param>, body: Seq<Stmt>) -> Result<
        (),
        ErrV,
    > {
        if span != self.declaration_span {
            Err(
                plan_err(
                    span,
                    "checked callable moved away from its planned declaration span"@,
                ),
            )
        } else {
            self.plan.check_shape(Some(params), body)
        }
    }
}

impl ControlBody {
    pub fn owner(&self) -> (r: &CallOwner)
        ensures
            r@ == self@.owner,
    {
        &self.owner
    }

    pub fn declaration_span(&self) -> (r: Span)
        ensures
            r == self@.declaration_span,
    {
        self.declaration_span
    }

    pub fn plan(&self) -> (r: &BodyPlan)
        ensures
            r@ == self@.plan,
            *r == self.plan,
    {
        &self.plan
    }

    /// Reconciles the callable as well as its body. The declaration span anchors the frame and
    /// body scopes, so a declaration that moved is refused.
    pub fn validate_callable(&self, declaration_span: Span, params: &[Param], body: &[Stmt]) -> (r:
        Result<(), PlanError>)
        requires
            self@.plan.wf(),
        ensures
            agrees(r, self@.check(declaration_span, params@, body@)),
    {
        if declaration_span != self.declaration_span {
            return Err(
                PlanError::new(
                    declaration_span,
                    "checked callable moved away from its planned declaration span",
                ),
            );
        }
        self.plan.validate_callable(params, body)
    }
}

// ------------------------------------------------------------------------------------------
// The program
// ------------------------------------------------------------------------------------------

/// The plans of every Sable body of a program, in program order, and the destruction recipe of
/// each concrete class, by its index. Templates have plans and no recipe: they are verified and
/// never run as values. A lookup that finds nothing is an error, never a reason to plan anew.
#[derive(Debug)]
pub struct ControlProgram {
    pub bodies: Vec<ControlBody>,
    pub class_drops: Vec<ClassDropPlan>,
}

pub ghost struct ProgramV {
    pub bodies: Seq<BodyV>,
    pub class_drops: Seq<ClassPlanV>,
}

impl View for ControlProgram {
    type V = ProgramV;

    open spec fn view(&self) -> ProgramV {
        ProgramV { bodies: views(self.bodies@), class_drops: views(self.class_drops@) }
    }
}

/// The first body of a callable, at `i` or later.
pub open spec fn body_at(bodies: Seq<BodyV>, owner: OwnerV, i: nat) -> Option<nat>
    decreases bodies.len() - i,
{
    if i >= bodies.len() {
        None
    } else if bodies[i as int].owner == owner {
        Some(i)
    } else {
        body_at(bodies, owner, i + 1)
    }
}

/// The cleanup actions of a sequence of phases, candidates or actions that are to be checked,
/// each with its place.
pub open spec fn check_phases(p: ProgramV, phases: Seq<PhaseV>, classes: Seq<ClassDecl>, i: nat) ->
    Result<(), ErrV>
    decreases phases.len() - i,
{
    if i >= phases.len() {
        Ok(())
    } else {
        let first = match phases[i as int] {
            PhaseV::DropField(f) => match f.drop_action {
                Some(a) => p.check_action(a, classes, f.span),
                None => Ok(()),
            },
            _ => Ok(()),
        };
        match first {
            Err(e) => Err(e),
            Ok(_) => check_phases(p, phases, classes, i + 1),
        }
    }
}

pub open spec fn check_recipes(p: ProgramV, classes: Seq<ClassDecl>, i: nat) -> Result<(), ErrV>
    decreases p.class_drops.len() - i,
{
    if i >= p.class_drops.len() {
        Ok(())
    } else {
        match check_phases(p, p.class_drops[i as int].phases, classes, 0) {
            Err(e) => Err(e),
            Ok(_) => check_recipes(p, classes, i + 1),
        }
    }
}

pub open spec fn check_candidates(
    p: ProgramV,
    s: Seq<CandidateV>,
    classes: Seq<ClassDecl>,
    i: nat,
) -> Result<(), ErrV>
    decreases s.len() - i,
{
    if i >= s.len() {
        Ok(())
    } else {
        match p.check_action(s[i as int].drop_action, classes, s[i as int].span) {
            Err(e) => Err(e),
            Ok(_) => check_candidates(p, s, classes, i + 1),
        }
    }
}

pub open spec fn check_field_actions(
    p: ProgramV,
    s: Seq<FieldAssignV>,
    classes: Seq<ClassDecl>,
    i: nat,
) -> Result<(), ErrV>
    decreases s.len() - i,
{
    if i >= s.len() {
        Ok(())
    } else {
        let first = match s[i as int].drop_action {
            Some(a) => p.check_action(a, classes, s[i as int].span),
            None => Ok(()),
        };
        match first {
            Err(e) => Err(e),
            Ok(_) => check_field_actions(p, s, classes, i + 1),
        }
    }
}

pub open spec fn check_temporaries(
    p: ProgramV,
    s: Seq<TempDropV>,
    classes: Seq<ClassDecl>,
    i: nat,
) -> Result<(), ErrV>
    decreases s.len() - i,
{
    if i >= s.len() {
        Ok(())
    } else {
        match p.check_action(s[i as int].drop_action, classes, s[i as int].span) {
            Err(e) => Err(e),
            Ok(_) => check_temporaries(p, s, classes, i + 1),
        }
    }
}

pub open spec fn check_body_links(p: ProgramV, b: PlanV, classes: Seq<ClassDecl>) -> Result<
    (),
    ErrV,
> {
    match check_candidates(p, b.candidates, classes, 0) {
        Err(e) => Err(e),
        Ok(_) => match check_field_actions(p, b.field_assignments, classes, 0) {
            Err(e) => Err(e),
            Ok(_) => check_temporaries(p, b.temporary_drops, classes, 0),
        },
    }
}

pub open spec fn check_bodies_links(p: ProgramV, classes: Seq<ClassDecl>, i: nat) -> Result<
    (),
    ErrV,
>
    decreases p.bodies.len() - i,
{
    if i >= p.bodies.len() {
        Ok(())
    } else {
        match check_body_links(p, p.bodies[i as int].plan, classes) {
            Err(e) => Err(e),
            Ok(_) => check_bodies_links(p, classes, i + 1),
        }
    }
}

/// What an insertion says, and the program after it: on a refusal, with what was inserted before.
pub type InsertedV = (Result<(), ErrV>, ProgramV);

impl ProgramV {
    pub open spec fn wf(self) -> bool {
        forall|i: int| 0 <= i < self.bodies.len() ==> (#[trigger] self.bodies[i]).plan.wf()
    }

    pub open spec fn body(self, owner: OwnerV, use_span: Span) -> Result<BodyV, ErrV> {
        match body_at(self.bodies, owner, 0) {
            Some(i) => Ok(self.bodies[i as int]),
            None => Err(plan_err(use_span, "control program has no body for "@ + owner.text())),
        }
    }

    /// The recipe of a concrete class, reconciled with its declaration.
    pub open spec fn class_drop(self, class: usize, c: ClassDecl) -> Result<ClassPlanV, ErrV> {
        if class >= self.class_drops.len() {
            Err(
                plan_err(
                    c.name_span,
                    "control program has no class-drop plan for concrete class index "@ + nat_text(
                        class as nat,
                    ),
                ),
            )
        } else {
            match self.class_drops[class as int].check(class, c) {
                Err(e) => Err(e),
                Ok(_) => Ok(self.class_drops[class as int]),
            }
        }
    }

    /// The recipe that a cleanup action links to.
    pub open spec fn class_drop_for_action(
        self,
        a: ClassActionV,
        classes: Seq<ClassDecl>,
        use_span: Span,
    ) -> Result<ClassPlanV, ErrV> {
        if a.class >= classes.len() {
            Err(
                plan_err(
                    use_span,
                    "cleanup action names missing concrete class index "@ + nat_text(
                        a.class as nat,
                    ),
                ),
            )
        } else {
            match self.class_drop(a.class, classes[a.class as int]) {
                Err(e) => Err(e),
                Ok(plan) => if a.terminal_trap != plan.terminal_trap || a.terminal_trap
                    != trap_route_v() {
                    Err(
                        plan_err(
                            use_span,
                            "cleanup action for class `"@ + classes[a.class as int].name@
                                + "` no longer uses its retained terminal no-unwind route"@,
                        ),
                    )
                } else {
                    Ok(plan)
                },
            }
        }
    }

    /// The refusal where an action is not the exact recipe of its type, or links to a class
    /// whose own recipe does not hold.
    pub open spec fn check_action(self, a: ActionV, classes: Seq<ClassDecl>, use_span: Span) ->
        Result<(), ErrV>
        decreases a,
    {
        match drop_action_of(a.ty, use_span) {
            Err(e) => Err(e),
            Ok(None) => Err(
                plan_err(
                    use_span,
                    "non-cleanup type `"@ + crate::ast::ty_name(a.ty)
                        + "` retained a value-drop action"@,
                ),
            ),
            Ok(Some(expected)) => if a != expected {
                Err(
                    plan_err(
                        use_span,
                        "value-drop action for `"@ + crate::ast::ty_name(a.ty)
                            + "` no longer matches its exact recursive recipe"@,
                    ),
                )
            } else {
                match a.recipe {
                    RecipeV::ReleaseArray { .. } => Ok(()),
                    RecipeV::DropClass(c) => match self.class_drop_for_action(
                        c,
                        classes,
                        use_span,
                    ) {
                        Err(e) => Err(e),
                        Ok(_) => Ok(()),
                    },
                    RecipeV::DropPresent(payload) => self.check_action(
                        *payload,
                        classes,
                        use_span,
                    ),
                }
            },
        }
    }

    pub open spec fn check_links(self, classes: Seq<ClassDecl>) -> Result<(), ErrV> {
        match check_recipes(self, classes, 0) {
            Err(e) => Err(e),
            Ok(_) => check_bodies_links(self, classes, 0),
        }
    }

    /// The program with one more body.
    pub open spec fn insert_body(
        self,
        os: Seq<OutlineV>,
        owner: OwnerV,
        span: Span,
        params: Seq<Param>,
        body: Seq<Stmt>,
    ) -> InsertedV {
        if body_at(self.bodies, owner, 0) is Some {
            (Err(plan_err(span, "duplicate control body identity for "@ + owner.text())), self)
        } else {
            match exact_outline(os, owner, span) {
                Err(e) => (Err(e), self),
                Ok(outline) => match sealed(outline, params, body) {
                    Err(e) => (Err(e), self),
                    Ok(plan) => (
                        Ok(()),
                        ProgramV {
                            bodies: self.bodies.push(
                                BodyV { owner, declaration_span: span, plan },
                            ),
                            ..self
                        },
                    ),
                },
            }
        }
    }

    pub open spec fn insert_functions(
        self,
        os: Seq<OutlineV>,
        fns: Seq<FnDecl>,
        i: nat,
        audited: bool,
    ) -> InsertedV
        decreases fns.len() - i,
    {
        if i >= fns.len() {
            (Ok(()), self)
        } else {
            let f = fns[i as int];
            if audited && f.foreign is Some {
                self.insert_functions(os, fns, i + 1, audited)
            } else {
                match self.insert_body(os, function_owner(f), f.span, f.params@, f.body@) {
                    (Err(e), p) => (Err(e), p),
                    (Ok(_), p) => p.insert_functions(os, fns, i + 1, audited),
                }
            }
        }
    }

    pub open spec fn insert_inits(self, os: Seq<OutlineV>, c: ClassDecl, i: nat) -> InsertedV
        decreases c.inits@.len() - i,
    {
        if i >= c.inits@.len() {
            (Ok(()), self)
        } else {
            let f = c.inits@[i as int];
            match self.insert_body(os, init_owner(c, f), f.span, f.params@, f.body@) {
                (Err(e), p) => (Err(e), p),
                (Ok(_), p) => p.insert_inits(os, c, i + 1),
            }
        }
    }

    pub open spec fn insert_methods(self, os: Seq<OutlineV>, c: ClassDecl, i: nat) -> InsertedV
        decreases c.methods@.len() - i,
    {
        if i >= c.methods@.len() {
            (Ok(()), self)
        } else {
            let m = c.methods@[i as int];
            match self.insert_body(os, method_owner(c, m), m.f.span, m.f.params@, m.f.body@) {
                (Err(e), p) => (Err(e), p),
                (Ok(_), p) => p.insert_methods(os, c, i + 1),
            }
        }
    }

    pub open spec fn insert_class(self, os: Seq<OutlineV>, c: ClassDecl) -> InsertedV {
        match self.insert_inits(os, c, 0) {
            (Err(e), p) => (Err(e), p),
            (Ok(_), p) => match p.insert_methods(os, c, 0) {
                (Err(e), p) => (Err(e), p),
                (Ok(_), p) => match c.deinit {
                    Some(body) => p.insert_body(
                        os,
                        deinit_owner(c),
                        c.span,
                        Seq::empty(),
                        body@,
                    ),
                    None => (Ok(()), p),
                },
            },
        }
    }

    /// The classes from `i` on, each with its recipe where they are concrete.
    pub open spec fn insert_classes(
        self,
        os: Seq<OutlineV>,
        classes: Seq<ClassDecl>,
        i: nat,
        concrete: bool,
    ) -> InsertedV
        decreases classes.len() - i,
    {
        if i >= classes.len() {
            (Ok(()), self)
        } else {
            let c = classes[i as int];
            let with_recipe = if concrete {
                match class_plan_of(i as usize, c) {
                    Err(e) => (Err(e), self),
                    Ok(plan) => (
                        Ok(()),
                        ProgramV { class_drops: self.class_drops.push(plan), ..self },
                    ),
                }
            } else {
                (Ok(()), self)
            };
            match with_recipe {
                (Err(e), p) => (Err(e), p),
                (Ok(_), p) => match p.insert_class(os, c) {
                    (Err(e), p) => (Err(e), p),
                    (Ok(_), p) => p.insert_classes(os, classes, i + 1, concrete),
                },
            }
        }
    }
}

pub open spec fn empty_program() -> ProgramV {
    ProgramV { bodies: Seq::empty(), class_drops: Seq::empty() }
}

/// The control program of a program and its outlines.
pub open spec fn sealed_program(p: Program, os: Seq<OutlineV>) -> Result<ProgramV, ErrV> {
    match empty_program().insert_functions(os, p.fns@, 0, true) {
        (Err(e), _) => Err(e),
        (Ok(_), c) => match c.insert_functions(os, p.fn_templates@, 0, false) {
            (Err(e), _) => Err(e),
            (Ok(_), c) => match c.insert_classes(os, p.classes@, 0, true) {
                (Err(e), _) => Err(e),
                (Ok(_), c) => match c.insert_classes(os, p.class_templates@, 0, false) {
                    (Err(e), _) => Err(e),
                    (Ok(_), c) => match c.check_links(p.classes@) {
                        Err(e) => Err(e),
                        Ok(_) => Ok(c),
                    },
                },
            },
        },
    }
}

/// An insertion did what is stated, and left the stated program, which is well formed.
pub open spec fn inserts(r: Result<(), PlanError>, after: ProgramV, s: InsertedV) -> bool {
    &&& after == s.1
    &&& after.wf()
    &&& match s.0 {
        Ok(_) => r is Ok,
        Err(e) => r matches Err(x) && x@ == e,
    }
}

impl ControlProgram {
    pub fn new() -> (r: Self)
        ensures
            r@ == empty_program(),
    {
        ControlProgram { bodies: Vec::new(), class_drops: Vec::new() }
    }

    pub fn build(program: &Program) -> (r: Result<Self, PlanError>)
        ensures
            agrees(r, sealed_program(*program, program_outlines(*program))),
            r matches Ok(p) ==> p@.wf(),
    {
        let outlines = ControlOutlines::for_program(program);
        Self::seal(program, &outlines)
    }

    pub fn seal(program: &Program, outlines: &ControlOutlines) -> (r: Result<Self, PlanError>)
        ensures
            agrees(r, sealed_program(*program, outlines@)),
            r matches Ok(p) ==> p@.wf(),
    {
        let mut control = ControlProgram::new();
        match control.insert_functions(outlines, &program.fns, true) {
            Err(e) => {
                return Err(e);
            },
            Ok(_) => {},
        }
        match control.insert_functions(outlines, &program.fn_templates, false) {
            Err(e) => {
                return Err(e);
            },
            Ok(_) => {},
        }
        match control.insert_classes(outlines, &program.classes, true) {
            Err(e) => {
                return Err(e);
            },
            Ok(_) => {},
        }
        match control.insert_classes(outlines, &program.class_templates, false) {
            Err(e) => {
                return Err(e);
            },
            Ok(_) => {},
        }
        match control.validate_cleanup_action_links(&program.classes) {
            Err(e) => {
                return Err(e);
            },
            Ok(_) => {},
        }
        Ok(control)
    }

    fn find_body(&self, owner: &CallOwner) -> (r: Option<usize>)
        ensures
            match body_at(self@.bodies, owner@, 0) {
                Some(i) => r == Some(i as usize) && i < self@.bodies.len() && i <= usize::MAX,
                None => r is None,
            },
    {
        let n: usize = self.bodies.len();
        let mut i: usize = 0;
        while i < n
            invariant
                n == self.bodies@.len(),
                i <= n,
                body_at(self@.bodies, owner@, 0) == body_at(self@.bodies, owner@, i as nat),
            decreases n - i,
        {
            if self.bodies[i].owner.same(owner) {
                return Some(i);
            }
            i = i + 1;
        }
        None
    }

    pub fn body(&self, owner: &CallOwner, use_span: Span) -> (r: Result<&ControlBody, PlanError>)
        ensures
            match self@.body(owner@, use_span) {
                Ok(b) => r matches Ok(x) && x@ == b && (self@.wf() ==> x@.plan.wf()),
                Err(e) => r matches Err(x) && x@ == e,
            },
    {
        match self.find_body(owner) {
            Some(i) => Ok(&self.bodies[i]),
            None => Err(
                PlanError {
                    span: use_span,
                    message: cat2("control program has no body for ", owner.render().as_str()),
                },
            ),
        }
    }

    /// The recipe of a concrete class, reconciled with the declaration at hand.
    pub fn class_drop(&self, class: usize, declaration: &ClassDecl) -> (r: Result<
        &ClassDropPlan,
        PlanError,
    >)
        ensures
            match self@.class_drop(class, *declaration) {
                Ok(p) => r matches Ok(x) && x@ == p,
                Err(e) => r matches Err(x) && x@ == e,
            },
    {
        if class >= self.class_drops.len() {
            return Err(
                PlanError {
                    span: declaration.name_span,
                    message: cat2(
                        "control program has no class-drop plan for concrete class index ",
                        usize_decimal(class).as_str(),
                    ),
                },
            );
        }
        let plan = &self.class_drops[class];
        match plan.validate(class, declaration) {
            Err(e) => {
                return Err(e);
            },
            Ok(_) => {},
        }
        Ok(plan)
    }

    /// The recipe that a cleanup action links to.
    pub fn class_drop_for_action(
        &self,
        action: &ClassDropAction,
        classes: &[ClassDecl],
        use_span: Span,
    ) -> (r: Result<&ClassDropPlan, PlanError>)
        ensures
            match self@.class_drop_for_action(action@, classes@, use_span) {
                Ok(p) => r matches Ok(x) && x@ == p,
                Err(e) => r matches Err(x) && x@ == e,
            },
    {
        let class = action.class();
        if class >= classes.len() {
            return Err(
                PlanError {
                    span: use_span,
                    message: cat2(
                        "cleanup action names missing concrete class index ",
                        usize_decimal(class).as_str(),
                    ),
                },
            );
        }
        let declaration = &classes[class];
        let plan = match self.class_drop(class, declaration) {
            Err(e) => {
                return Err(e);
            },
            Ok(plan) => plan,
        };
        if !action.terminal_trap_route().same(plan.terminal_trap_route())
            || !action.terminal_trap_route().is_terminal_trap() {
            return Err(
                PlanError {
                    span: use_span,
                    message: cat3(
                        "cleanup action for class `",
                        declaration.name.as_str(),
                        "` no longer uses its retained terminal no-unwind route",
                    ),
                },
            );
        }
        Ok(plan)
    }

    /// Reconciles an action with the exact recipe of its type, and with every class recipe that
    /// it can reach.
    pub fn validate_value_drop_action(
        &self,
        action: &ValueDropAction,
        classes: &[ClassDecl],
        use_span: Span,
    ) -> (r: Result<(), PlanError>)
        ensures
            agrees(r, self@.check_action(action@, classes@, use_span)),
        decreases action,
    {
        let expected = match ValueDropAction::build(action.ty(), use_span) {
            Err(e) => {
                return Err(e);
            },
            Ok(None) => {
                return Err(
                    PlanError {
                        span: use_span,
                        message: cat3(
                            "non-cleanup type `",
                            action.ty().name().as_str(),
                            "` retained a value-drop action",
                        ),
                    },
                );
            },
            Ok(Some(expected)) => expected,
        };
        if !action.same(&expected) {
            return Err(
                PlanError {
                    span: use_span,
                    message: cat3(
                        "value-drop action for `",
                        action.ty().name().as_str(),
                        "` no longer matches its exact recursive recipe",
                    ),
                },
            );
        }
        match &action.recipe {
            ValueDropRecipe::ReleaseArray { .. } => Ok(()),
            ValueDropRecipe::DropClass(class) => {
                match self.class_drop_for_action(class, classes, use_span) {
                    Err(e) => Err(e),
                    Ok(_) => Ok(()),
                }
            },
            ValueDropRecipe::DropPresent(payload) => {
                self.validate_value_drop_action(payload, classes, use_span)
            },
        }
    }

    pub fn class_drops(&self) -> (r: &[ClassDropPlan])
        ensures
            views(r@) == self@.class_drops,
    {
        self.class_drops.as_slice()
    }

    /// The bodies, in program order.
    pub fn iter(&self) -> (r: &[ControlBody])
        ensures
            views(r@) == self@.bodies,
    {
        self.bodies.as_slice()
    }

    pub fn len(&self) -> (r: usize)
        ensures
            r == self@.bodies.len(),
    {
        self.bodies.len()
    }

    pub fn is_empty(&self) -> (r: bool)
        ensures
            r == (self@.bodies.len() == 0),
    {
        self.bodies.len() == 0
    }

    fn validate_recipe_links(&self, plan: &ClassDropPlan, classes: &[ClassDecl]) -> (r: Result<
        (),
        PlanError,
    >)
        ensures
            agrees(r, check_phases(self@, plan@.phases, classes@, 0)),
    {
        let n: usize = plan.phases.len();
        let mut i: usize = 0;
        while i < n
            invariant
                n == plan.phases@.len(),
                i <= n,
                check_phases(self@, plan@.phases, classes@, 0) == check_phases(
                    self@,
                    plan@.phases,
                    classes@,
                    i as nat,
                ),
            decreases n - i,
        {
            assert(plan@.phases[i as int] == plan.phases@[i as int]@);
            match &plan.phases[i] {
                ClassDropPhase::DropField(field) => {
                    match &field.drop_action {
                        Some(action) => {
                            match self.validate_value_drop_action(action, classes, field.span) {
                                Err(e) => {
                                    return Err(e);
                                },
                                Ok(_) => {},
                            }
                        },
                        None => {},
                    }
                },
                _ => {},
            }
            i = i + 1;
        }
        Ok(())
    }

    fn validate_body_links(&self, plan: &BodyPlan, classes: &[ClassDecl]) -> (r: Result<
        (),
        PlanError,
    >)
        ensures
            agrees(r, check_body_links(self@, plan@, classes@)),
    {
        let n: usize = plan.candidates.len();
        let mut i: usize = 0;
        while i < n
            invariant
                n == plan.candidates@.len(),
                i <= n,
                check_candidates(self@, plan@.candidates, classes@, 0) == check_candidates(
                    self@,
                    plan@.candidates,
                    classes@,
                    i as nat,
                ),
            decreases n - i,
        {
            let c = &plan.candidates[i];
            assert(plan@.candidates[i as int] == c@);
            match self.validate_value_drop_action(&c.drop_action, classes, c.span) {
                Err(e) => {
                    return Err(e);
                },
                Ok(_) => {},
            }
            i = i + 1;
        }
        let n: usize = plan.field_assignments.len();
        let mut i: usize = 0;
        while i < n
            invariant
                n == plan.field_assignments@.len(),
                i <= n,
                check_candidates(self@, plan@.candidates, classes@, 0) is Ok,
                check_field_actions(self@, plan@.field_assignments, classes@, 0)
                    == check_field_actions(self@, plan@.field_assignments, classes@, i as nat),
            decreases n - i,
        {
            let a = &plan.field_assignments[i];
            assert(plan@.field_assignments[i as int] == a@);
            match &a.drop_action {
                Some(action) => {
                    match self.validate_value_drop_action(action, classes, a.span) {
                        Err(e) => {
                            return Err(e);
                        },
                        Ok(_) => {},
                    }
                },
                None => {},
            }
            i = i + 1;
        }
        let n: usize = plan.temporary_drops.len();
        let mut i: usize = 0;
        while i < n
            invariant
                n == plan.temporary_drops@.len(),
                i <= n,
                check_candidates(self@, plan@.candidates, classes@, 0) is Ok,
                check_field_actions(self@, plan@.field_assignments, classes@, 0) is Ok,
                check_temporaries(self@, plan@.temporary_drops, classes@, 0) == check_temporaries(
                    self@,
                    plan@.temporary_drops,
                    classes@,
                    i as nat,
                ),
            decreases n - i,
        {
            let a = &plan.temporary_drops[i];
            assert(plan@.temporary_drops[i as int] == a@);
            match self.validate_value_drop_action(&a.drop_action, classes, a.span) {
                Err(e) => {
                    return Err(e);
                },
                Ok(_) => {},
            }
            i = i + 1;
        }
        Ok(())
    }

    /// Reconciles every cleanup action of every recipe and body.
    pub fn validate_cleanup_action_links(&self, classes: &Vec<ClassDecl>) -> (r: Result<
        (),
        PlanError,
    >)
        ensures
            agrees(r, self@.check_links(classes@)),
    {
        let n: usize = self.class_drops.len();
        let mut i: usize = 0;
        while i < n
            invariant
                n == self.class_drops@.len(),
                i <= n,
                check_recipes(self@, classes@, 0) == check_recipes(self@, classes@, i as nat),
            decreases n - i,
        {
            assert(self@.class_drops[i as int] == self.class_drops@[i as int]@);
            match self.validate_recipe_links(&self.class_drops[i], classes.as_slice()) {
                Err(e) => {
                    return Err(e);
                },
                Ok(_) => {},
            }
            i = i + 1;
        }
        let n: usize = self.bodies.len();
        let mut i: usize = 0;
        while i < n
            invariant
                n == self.bodies@.len(),
                i <= n,
                check_recipes(self@, classes@, 0) is Ok,
                check_bodies_links(self@, classes@, 0) == check_bodies_links(
                    self@,
                    classes@,
                    i as nat,
                ),
            decreases n - i,
        {
            assert(self@.bodies[i as int] == self.bodies@[i as int]@);
            match self.validate_body_links(&self.bodies[i].plan, classes.as_slice()) {
                Err(e) => {
                    return Err(e);
                },
                Ok(_) => {},
            }
            i = i + 1;
        }
        Ok(())
    }

    fn insert_body(
        &mut self,
        outlines: &ControlOutlines,
        owner: CallOwner,
        declaration_span: Span,
        params: &[Param],
        body: &[Stmt],
    ) -> (r: Result<(), PlanError>)
        requires
            old(self)@.wf(),
        ensures
            inserts(
                r,
                final(self)@,
                old(self)@.insert_body(outlines@, owner@, declaration_span, params@, body@),
            ),
    {
        if self.find_body(&owner).is_some() {
            return Err(
                PlanError {
                    span: declaration_span,
                    message: cat2(
                        "duplicate control body identity for ",
                        owner.render().as_str(),
                    ),
                },
            );
        }
        let outline = match outlines.exact(&owner, declaration_span) {
            Err(e) => {
                return Err(e);
            },
            Ok(outline) => outline,
        };
        let plan = match BodyPlan::seal(outline, params, body) {
            Err(e) => {
                return Err(e);
            },
            Ok(plan) => plan,
        };
        self.bodies.push(ControlBody { owner, declaration_span, plan });
        Ok(())
    }

    fn insert_functions(&mut self, outlines: &ControlOutlines, fns: &Vec<FnDecl>, audited: bool) -> (
    r: Result<(), PlanError>)
        requires
            old(self)@.wf(),
        ensures
            inserts(r, final(self)@, old(self)@.insert_functions(outlines@, fns@, 0, audited)),
    {
        let n: usize = fns.len();
        let mut i: usize = 0;
        while i < n
            invariant
                n == fns@.len(),
                i <= n,
                self@.wf(),
                old(self)@.insert_functions(outlines@, fns@, 0, audited) == self@.insert_functions(
                    outlines@,
                    fns@,
                    i as nat,
                    audited,
                ),
            decreases n - i,
        {
            let f = &fns[i];
            if !(audited && f.foreign.is_some()) {
                match self.insert_body(
                    outlines,
                    CallOwner::Function(f.name.clone()),
                    f.span,
                    f.params.as_slice(),
                    f.body.as_slice(),
                ) {
                    Err(e) => {
                        return Err(e);
                    },
                    Ok(_) => {},
                }
            }
            i = i + 1;
        }
        Ok(())
    }

    fn insert_class(&mut self, outlines: &ControlOutlines, class: &ClassDecl) -> (r: Result<
        (),
        PlanError,
    >)
        requires
            old(self)@.wf(),
        ensures
            inserts(r, final(self)@, old(self)@.insert_class(outlines@, *class)),
    {
        let n: usize = class.inits.len();
        let mut i: usize = 0;
        while i < n
            invariant
                n == class.inits@.len(),
                i <= n,
                self@.wf(),
                old(self)@.insert_inits(outlines@, *class, 0) == self@.insert_inits(
                    outlines@,
                    *class,
                    i as nat,
                ),
            decreases n - i,
        {
            let f = &class.inits[i];
            let owner = CallOwner::Constructor { class: class.name.clone(), init: f.name.clone() };
            match self.insert_body(
                outlines,
                owner,
                f.span,
                f.params.as_slice(),
                f.body.as_slice(),
            ) {
                Err(e) => {
                    return Err(e);
                },
                Ok(_) => {},
            }
            i = i + 1;
        }
        let ghost after_inits = self@;
        let n: usize = class.methods.len();
        let mut i: usize = 0;
        while i < n
            invariant
                n == class.methods@.len(),
                i <= n,
                self@.wf(),
                old(self)@.insert_inits(outlines@, *class, 0) == (Ok::<(), ErrV>(()), after_inits),
                after_inits.insert_methods(outlines@, *class, 0) == self@.insert_methods(
                    outlines@,
                    *class,
                    i as nat,
                ),
            decreases n - i,
        {
            let m = &class.methods[i];
            let owner = CallOwner::Method { class: class.name.clone(), method: m.f.name.clone() };
            match self.insert_body(
                outlines,
                owner,
                m.f.span,
                m.f.params.as_slice(),
                m.f.body.as_slice(),
            ) {
                Err(e) => {
                    return Err(e);
                },
                Ok(_) => {},
            }
            i = i + 1;
        }
        match &class.deinit {
            Some(body) => {
                let none: Vec<Param> = Vec::new();
                assert(none@ =~= Seq::<Param>::empty());
                let owner = CallOwner::Deinitializer { class: class.name.clone() };
                self.insert_body(
                    outlines,
                    owner,
                    class.span,
                    none.as_slice(),
                    body.as_slice(),
                )
            },
            None => Ok(()),
        }
    }

    fn insert_classes(
        &mut self,
        outlines: &ControlOutlines,
        classes: &Vec<ClassDecl>,
        concrete: bool,
    ) -> (r: Result<(), PlanError>)
        requires
            old(self)@.wf(),
        ensures
            inserts(r, final(self)@, old(self)@.insert_classes(outlines@, classes@, 0, concrete)),
    {
        let n: usize = classes.len();
        let mut i: usize = 0;
        while i < n
            invariant
                n == classes@.len(),
                i <= n,
                self@.wf(),
                old(self)@.insert_classes(outlines@, classes@, 0, concrete)
                    == self@.insert_classes(outlines@, classes@, i as nat, concrete),
            decreases n - i,
        {
            let class = &classes[i];
            if concrete {
                match ClassDropPlan::build(i, class) {
                    Err(e) => {
                        return Err(e);
                    },
                    Ok(plan) => {
                        self.class_drops.push(plan);
                    },
                }
            }
            match self.insert_class(outlines, class) {
                Err(e) => {
                    return Err(e);
                },
                Ok(_) => {},
            }
            i = i + 1;
        }
        Ok(())
    }
}

// ------------------------------------------------------------------------------------------
// What a sealed program holds
// ------------------------------------------------------------------------------------------

/// No two bodies of the table belong to one callable.
pub open spec fn unique_owners(p: ProgramV) -> bool {
    forall|i: int, j: int|
        0 <= i < j < p.bodies.len() ==> (#[trigger] p.bodies[i]).owner != (
        #[trigger] p.bodies[j]).owner
}

/// The table holds the plan of a callable, and the plan reconciles with it.
pub open spec fn planned_at(
    p: ProgramV,
    k: int,
    owner: OwnerV,
    span: Span,
    params: Seq<Param>,
    body: Seq<Stmt>,
) -> bool {
    &&& 0 <= k < p.bodies.len()
    &&& p.bodies[k].owner == owner
    &&& p.bodies[k].check(span, params, body) is Ok
    &&& plan_of(owner, span, params, body) == Ok::<PlanV, ErrV>(p.bodies[k].plan)
}

pub open spec fn planned(
    p: ProgramV,
    owner: OwnerV,
    span: Span,
    params: Seq<Param>,
    body: Seq<Stmt>,
) -> bool {
    exists|k: int| planned_at(p, k, owner, span, params, body)
}

/// Every body and recipe of `a` stands unchanged in `b`.
pub open spec fn continues(a: ProgramV, b: ProgramV) -> bool {
    &&& a.bodies.len() <= b.bodies.len()
    &&& a.class_drops.len() <= b.class_drops.len()
    &&& forall|i: int| 0 <= i < a.bodies.len() ==> #[trigger] b.bodies[i] == a.bodies[i]
    &&& forall|i: int|
        0 <= i < a.class_drops.len() ==> #[trigger] b.class_drops[i] == a.class_drops[i]
}

pub open spec fn function_planned(p: ProgramV, f: FnDecl) -> bool {
    planned(p, function_owner(f), f.span, f.params@, f.body@)
}

pub open spec fn init_planned(p: ProgramV, c: ClassDecl, f: FnDecl) -> bool {
    planned(p, init_owner(c, f), f.span, f.params@, f.body@)
}

pub open spec fn method_planned(p: ProgramV, c: ClassDecl, m: Method) -> bool {
    planned(p, method_owner(c, m), m.f.span, m.f.params@, m.f.body@)
}

pub open spec fn class_planned(p: ProgramV, c: ClassDecl) -> bool {
    &&& forall|i: int|
        0 <= i < c.inits@.len() ==> init_planned(p, c, #[trigger] c.inits@[i])
    &&& forall|i: int|
        0 <= i < c.methods@.len() ==> method_planned(p, c, #[trigger] c.methods@[i])
    &&& c.deinit matches Some(body) ==> planned(
        p,
        deinit_owner(c),
        c.span,
        Seq::empty(),
        body@,
    )
}

proof fn lemma_planned_continues(
    a: ProgramV,
    b: ProgramV,
    owner: OwnerV,
    span: Span,
    params: Seq<Param>,
    body: Seq<Stmt>,
)
    requires
        continues(a, b),
        planned(a, owner, span, params, body),
    ensures
        planned(b, owner, span, params, body),
{
    let k = choose|k: int| planned_at(a, k, owner, span, params, body);
    assert(planned_at(b, k, owner, span, params, body));
}

proof fn lemma_class_planned_continues(a: ProgramV, b: ProgramV, c: ClassDecl)
    requires
        continues(a, b),
        class_planned(a, c),
    ensures
        class_planned(b, c),
{
    assert forall|i: int| 0 <= i < c.inits@.len() implies init_planned(
        b,
        c,
        #[trigger] c.inits@[i],
    ) by {
        let f = c.inits@[i];
        assert(init_planned(a, c, f));
        lemma_planned_continues(a, b, init_owner(c, f), f.span, f.params@, f.body@);
    }
    assert forall|i: int| 0 <= i < c.methods@.len() implies method_planned(
        b,
        c,
        #[trigger] c.methods@[i],
    ) by {
        let m = c.methods@[i];
        assert(method_planned(a, c, m));
        lemma_planned_continues(a, b, method_owner(c, m), m.f.span, m.f.params@, m.f.body@);
    }
    if let Some(body) = c.deinit {
        lemma_planned_continues(a, b, deinit_owner(c), c.span, Seq::empty(), body@);
    }
}

proof fn lemma_body_at_none(bodies: Seq<BodyV>, owner: OwnerV, i: nat)
    requires
        body_at(bodies, owner, i) is None,
    ensures
        forall|k: int| i <= k < bodies.len() ==> (#[trigger] bodies[k]).owner != owner,
    decreases bodies.len() - i,
{
    if i < bodies.len() {
        lemma_body_at_none(bodies, owner, i + 1);
    }
}

proof fn lemma_exact_outline(os: Seq<OutlineV>, owner: OwnerV, span: Span)
    ensures
        exact_outline(os, owner, span) matches Ok(o) ==> o.owner == owner && o.declaration_span
            == span,
{
    let keep = |o: OutlineV| o.owner == owner && o.declaration_span == span;
    if outlines_under(os, owner, span).len() > 0 {
        os.lemma_filter_pred(keep, 0);
    }
}

proof fn lemma_insert_body(
    p: ProgramV,
    os: Seq<OutlineV>,
    owner: OwnerV,
    span: Span,
    params: Seq<Param>,
    body: Seq<Stmt>,
)
    requires
        unique_owners(p),
    ensures
        p.insert_body(os, owner, span, params, body) matches (Ok(_), q) ==> {
            &&& continues(p, q)
            &&& unique_owners(q)
            &&& q.class_drops == p.class_drops
            &&& planned(q, owner, span, params, body)
        },
{
    match p.insert_body(os, owner, span, params, body) {
        (Ok(_), q) => {
            lemma_body_at_none(p.bodies, owner, 0);
            lemma_exact_outline(os, owner, span);
            assert(planned_at(q, p.bodies.len() as int, owner, span, params, body));
        },
        (Err(_), _) => {},
    }
}

proof fn lemma_insert_functions(
    p: ProgramV,
    os: Seq<OutlineV>,
    fns: Seq<FnDecl>,
    i: nat,
    audited: bool,
)
    requires
        unique_owners(p),
    ensures
        p.insert_functions(os, fns, i, audited) matches (Ok(_), q) ==> {
            &&& continues(p, q)
            &&& unique_owners(q)
            &&& q.class_drops == p.class_drops
            &&& forall|k: int|
                i <= k < fns.len() && !(audited && (#[trigger] fns[k]).foreign is Some)
                    ==> function_planned(q, fns[k])
        },
    decreases fns.len() - i,
{
    if i < fns.len() {
        let f = fns[i as int];
        if audited && f.foreign is Some {
            lemma_insert_functions(p, os, fns, i + 1, audited);
        } else {
            lemma_insert_body(p, os, function_owner(f), f.span, f.params@, f.body@);
            match p.insert_body(os, function_owner(f), f.span, f.params@, f.body@) {
                (Ok(_), next) => {
                    lemma_insert_functions(next, os, fns, i + 1, audited);
                    match next.insert_functions(os, fns, i + 1, audited) {
                        (Ok(_), q) => {
                            lemma_planned_continues(
                                next,
                                q,
                                function_owner(f),
                                f.span,
                                f.params@,
                                f.body@,
                            );
                        },
                        (Err(_), _) => {},
                    }
                },
                (Err(_), _) => {},
            }
        }
    }
}

proof fn lemma_insert_inits(p: ProgramV, os: Seq<OutlineV>, c: ClassDecl, i: nat)
    requires
        unique_owners(p),
    ensures
        p.insert_inits(os, c, i) matches (Ok(_), q) ==> {
            &&& continues(p, q)
            &&& unique_owners(q)
            &&& q.class_drops == p.class_drops
            &&& forall|k: int|
                i <= k < c.inits@.len() ==> init_planned(q, c, #[trigger] c.inits@[k])
        },
    decreases c.inits@.len() - i,
{
    if i < c.inits@.len() {
        let f = c.inits@[i as int];
        lemma_insert_body(p, os, init_owner(c, f), f.span, f.params@, f.body@);
        match p.insert_body(os, init_owner(c, f), f.span, f.params@, f.body@) {
            (Ok(_), next) => {
                lemma_insert_inits(next, os, c, i + 1);
                match next.insert_inits(os, c, i + 1) {
                    (Ok(_), q) => {
                        lemma_planned_continues(
                            next,
                            q,
                            init_owner(c, f),
                            f.span,
                            f.params@,
                            f.body@,
                        );
                    },
                    (Err(_), _) => {},
                }
            },
            (Err(_), _) => {},
        }
    }
}

proof fn lemma_insert_methods(p: ProgramV, os: Seq<OutlineV>, c: ClassDecl, i: nat)
    requires
        unique_owners(p),
    ensures
        p.insert_methods(os, c, i) matches (Ok(_), q) ==> {
            &&& continues(p, q)
            &&& unique_owners(q)
            &&& q.class_drops == p.class_drops
            &&& forall|k: int|
                i <= k < c.methods@.len() ==> method_planned(q, c, #[trigger] c.methods@[k])
        },
    decreases c.methods@.len() - i,
{
    if i < c.methods@.len() {
        let m = c.methods@[i as int];
        lemma_insert_body(p, os, method_owner(c, m), m.f.span, m.f.params@, m.f.body@);
        match p.insert_body(os, method_owner(c, m), m.f.span, m.f.params@, m.f.body@) {
            (Ok(_), next) => {
                lemma_insert_methods(next, os, c, i + 1);
                match next.insert_methods(os, c, i + 1) {
                    (Ok(_), q) => {
                        lemma_planned_continues(
                            next,
                            q,
                            method_owner(c, m),
                            m.f.span,
                            m.f.params@,
                            m.f.body@,
                        );
                    },
                    (Err(_), _) => {},
                }
            },
            (Err(_), _) => {},
        }
    }
}

proof fn lemma_insert_class(p: ProgramV, os: Seq<OutlineV>, c: ClassDecl)
    requires
        unique_owners(p),
    ensures
        p.insert_class(os, c) matches (Ok(_), q) ==> {
            &&& continues(p, q)
            &&& unique_owners(q)
            &&& q.class_drops == p.class_drops
            &&& class_planned(q, c)
        },
{
    lemma_insert_inits(p, os, c, 0);
    match p.insert_inits(os, c, 0) {
        (Ok(_), a) => {
            lemma_insert_methods(a, os, c, 0);
            match a.insert_methods(os, c, 0) {
                (Ok(_), b) => {
                    assert forall|i: int| 0 <= i < c.inits@.len() implies init_planned(
                        b,
                        c,
                        #[trigger] c.inits@[i],
                    ) by {
                        let f = c.inits@[i];
                        assert(init_planned(a, c, f));
                        lemma_planned_continues(
                            a,
                            b,
                            init_owner(c, f),
                            f.span,
                            f.params@,
                            f.body@,
                        );
                    }
                    if let Some(body) = c.deinit {
                        lemma_insert_body(b, os, deinit_owner(c), c.span, Seq::empty(), body@);
                        match b.insert_body(os, deinit_owner(c), c.span, Seq::empty(), body@) {
                            (Ok(_), q) => {
                                assert forall|i: int| 0 <= i < c.inits@.len() implies init_planned(
                                    q,
                                    c,
                                    #[trigger] c.inits@[i],
                                ) by {
                                    let f = c.inits@[i];
                                    assert(init_planned(b, c, f));
                                    lemma_planned_continues(
                                        b,
                                        q,
                                        init_owner(c, f),
                                        f.span,
                                        f.params@,
                                        f.body@,
                                    );
                                }
                                assert forall|i: int|
                                    0 <= i < c.methods@.len() implies method_planned(
                                    q,
                                    c,
                                    #[trigger] c.methods@[i],
                                ) by {
                                    let m = c.methods@[i];
                                    assert(method_planned(b, c, m));
                                    lemma_planned_continues(
                                        b,
                                        q,
                                        method_owner(c, m),
                                        m.f.span,
                                        m.f.params@,
                                        m.f.body@,
                                    );
                                }
                            },
                            (Err(_), _) => {},
                        }
                    }
                },
                (Err(_), _) => {},
            }
        },
        (Err(_), _) => {},
    }
}

proof fn lemma_insert_classes(
    p: ProgramV,
    os: Seq<OutlineV>,
    classes: Seq<ClassDecl>,
    i: nat,
    concrete: bool,
)
    requires
        unique_owners(p),
    ensures
        p.insert_classes(os, classes, i, concrete) matches (Ok(_), q) ==> {
            &&& continues(p, q)
            &&& unique_owners(q)
            &&& q.class_drops.len() == p.class_drops.len() + if concrete && i <= classes.len() {
                classes.len() - i
            } else {
                0
            }
            &&& forall|k: int|
                i <= k < classes.len() ==> class_planned(q, #[trigger] classes[k])
            &&& concrete && p.class_drops.len() == i ==> forall|k: int|
                i <= k < classes.len() ==> class_plan_of(k as usize, #[trigger] classes[k]) == Ok::<
                    ClassPlanV,
                    ErrV,
                >(q.class_drops[k])
        },
    decreases classes.len() - i,
{
    if i < classes.len() {
        let c = classes[i as int];
        let start = if concrete {
            match class_plan_of(i as usize, c) {
                Ok(plan) => ProgramV { class_drops: p.class_drops.push(plan), ..p },
                Err(_) => p,
            }
        } else {
            p
        };
        assert(unique_owners(start));
        lemma_insert_class(start, os, c);
        match start.insert_class(os, c) {
            (Ok(_), next) => {
                lemma_insert_classes(next, os, classes, i + 1, concrete);
                match next.insert_classes(os, classes, i + 1, concrete) {
                    (Ok(_), q) => {
                        lemma_class_planned_continues(next, q, c);
                    },
                    (Err(_), _) => {},
                }
            },
            (Err(_), _) => {},
        }
    }
}

/// A sealed program holds, for every function with a Sable body, every template and every
/// member and deinitializer of every class, exactly the plan of that callable; each plan
/// reconciles with its callable; no callable is held twice; and every concrete class has
/// exactly its own recipe, at its own index.
pub proof fn law_sealed_program_is_complete(p: Program, os: Seq<OutlineV>)
    requires
        sealed_program(p, os) is Ok,
    ensures
        ({
            let c = sealed_program(p, os)->Ok_0;
            &&& unique_owners(c)
            &&& forall|k: int|
                0 <= k < p.fns@.len() && (#[trigger] p.fns@[k]).foreign is None
                    ==> function_planned(c, p.fns@[k])
            &&& forall|k: int|
                0 <= k < p.fn_templates@.len() ==> function_planned(
                    c,
                    #[trigger] p.fn_templates@[k],
                )
            &&& forall|k: int|
                0 <= k < p.classes@.len() ==> class_planned(c, #[trigger] p.classes@[k])
            &&& forall|k: int|
                0 <= k < p.class_templates@.len() ==> class_planned(
                    c,
                    #[trigger] p.class_templates@[k],
                )
            &&& c.class_drops.len() == p.classes@.len()
            &&& forall|k: int|
                0 <= k < p.classes@.len() ==> class_plan_of(k as usize, #[trigger] p.classes@[k])
                    == Ok::<ClassPlanV, ErrV>(c.class_drops[k])
        }),
{
    let start = empty_program();
    lemma_insert_functions(start, os, p.fns@, 0, true);
    let a = start.insert_functions(os, p.fns@, 0, true).1;
    lemma_insert_functions(a, os, p.fn_templates@, 0, false);
    let b = a.insert_functions(os, p.fn_templates@, 0, false).1;
    lemma_insert_classes(b, os, p.classes@, 0, true);
    let c = b.insert_classes(os, p.classes@, 0, true).1;
    lemma_insert_classes(c, os, p.class_templates@, 0, false);
    let d = c.insert_classes(os, p.class_templates@, 0, false).1;
    assert forall|k: int|
        0 <= k < p.fns@.len() && (#[trigger] p.fns@[k]).foreign is None implies function_planned(
        d,
        p.fns@[k],
    ) by {
        let f = p.fns@[k];
        assert(function_planned(a, f));
        lemma_planned_continues(a, d, function_owner(f), f.span, f.params@, f.body@);
    }
    assert forall|k: int| 0 <= k < p.fn_templates@.len() implies function_planned(
        d,
        #[trigger] p.fn_templates@[k],
    ) by {
        let f = p.fn_templates@[k];
        assert(function_planned(b, f));
        lemma_planned_continues(b, d, function_owner(f), f.span, f.params@, f.body@);
    }
    assert forall|k: int| 0 <= k < p.classes@.len() implies class_planned(
        d,
        #[trigger] p.classes@[k],
    ) by {
        assert(class_planned(c, p.classes@[k]));
        lemma_class_planned_continues(c, d, p.classes@[k]);
    }
}

} // verus!
