//! The state of an execution, and the steps on it that run no code of the program.
use vstd::prelude::*;

use crate::ast::{
    int_ty_name, ClassDecl, Clause, Expr, ExprKind, FnDecl, IntTy, Param, RecordDecl, ResKind,
    Stmt, Ty,
};
use crate::bindings::{
    bind, lemma_unbind_len, put, take, unbind, value_of, BindV, Binding,
};
use crate::devices::{orderly, world_view, PosixWorld, ScriptedUart, UartV, WorldV};
use crate::drops::{trap_route_v, ActionV, ErrV, ValueDropAction};
use crate::heap::{detached, empty_heap, snapshot, FieldsV, Heap, HeapV, SpecV, SpecVal};
use crate::monitor::{clause_value, flat, measure_value, on_one_line, Env, EnvV, Unmonitorable};
use crate::outline::{DropId, ScopeId};
use crate::place::{local_place, Place, PlaceV};
use crate::plan::{BodyPlan, PlanV};
use crate::program::{ControlProgram, ProgramV};
use crate::rawheap::{RawHeap, RawV};
use crate::repr::{group_views, opt_view, views, Repr};
use crate::span::Span;
use crate::text::{
    byte_len, byte_slice, cat2, cat3, cat4, cat7, int_text, owned, signed_decimal, slice_bytes,
};
use crate::traps::{TrapSite, TrapSiteV};
use crate::value::{
    control_plan_trap, copyable, plan_trap, stuck, trap, undefined, yields, RtVal, Trap, TrapV,
    ValV,
};

verus! {

broadcast use group_views;

/// How many steps a run may take.
pub const FUEL: u64 = 50_000_000;

/// A clause that could not be checked, and why.
#[derive(Debug)]
pub struct Skipped {
    pub text: String,
    pub reason: String,
}

pub ghost struct SkipV {
    pub text: Seq<char>,
    pub reason: Seq<char>,
}

impl View for Skipped {
    type V = SkipV;

    open spec fn view(&self) -> SkipV {
        SkipV { text: self.text@, reason: self.reason@ }
    }
}

/// What a run changes.
#[derive(Debug)]
pub struct Machine {
    pub fuel: u64,
    pub skipped: Vec<Skipped>,
    pub raw: RawHeap,
    /// The scripted world, once a test asked for one.
    pub world: Option<PosixWorld>,
    /// The scripted transmitter, once a test selected one.
    pub uart: Option<ScriptedUart>,
    pub heap: Heap,
}

pub ghost struct MachV {
    pub fuel: u64,
    pub skipped: Seq<SkipV>,
    pub raw: RawV,
    pub world: Option<WorldV>,
    pub uart: Option<UartV>,
    pub heap: HeapV,
}

pub open spec fn uart_view(u: Option<ScriptedUart>) -> Option<UartV> {
    match u {
        Some(u) => Some(u@),
        None => None,
    }
}

impl View for Machine {
    type V = MachV;

    open spec fn view(&self) -> MachV {
        MachV {
            fuel: self.fuel,
            skipped: views(self.skipped@),
            raw: self.raw@,
            world: world_view(self.world),
            uart: uart_view(self.uart),
            heap: self.heap@,
        }
    }
}

pub open spec fn new_machine(fuel: u64) -> MachV {
    MachV {
        fuel,
        skipped: Seq::empty(),
        raw: Seq::empty(),
        world: None,
        uart: None,
        heap: empty_heap(),
    }
}

/// A step from `a` to `b` keeps the order of the transmitter.
pub open spec fn in_order(a: MachV, b: MachV) -> bool {
    orderly(a.uart) ==> orderly(b.uart)
}

impl Machine {
    pub fn new(fuel: u64) -> (r: Machine)
        ensures
            r@ == new_machine(fuel),
    {
        Machine {
            fuel,
            skipped: Vec::new(),
            raw: RawHeap::new(),
            world: None,
            uart: None,
            heap: Heap::new(),
        }
    }
}

/// One activation of a callable.
#[derive(Debug)]
pub struct Frame {
    pub vars: Vec<Binding<RtVal>>,
    /// Entry values of by-value parameters, which a postcondition means by their names.
    pub entry_scalars: Vec<Binding<RtVal>>,
    /// Entry snapshots of what the caller keeps.
    pub olds: Vec<Binding<SpecVal>>,
    /// The class and the fields of the object at hand.
    pub self_ctx: Option<(usize, usize)>,
    /// The drop candidates whose declarations this run has reached.
    pub reached: Vec<DropId>,
}

pub ghost struct FrameV {
    pub vars: FieldsV,
    pub entry: FieldsV,
    pub olds: Seq<BindV<SpecV>>,
    pub self_ctx: Option<(usize, usize)>,
    pub reached: Seq<DropId>,
}

impl View for Frame {
    type V = FrameV;

    open spec fn view(&self) -> FrameV {
        FrameV {
            vars: views(self.vars@),
            entry: views(self.entry_scalars@),
            olds: views(self.olds@),
            self_ctx: self.self_ctx,
            reached: self.reached@,
        }
    }
}

pub open spec fn new_frame(self_ctx: Option<(usize, usize)>) -> FrameV {
    FrameV {
        vars: Seq::empty(),
        entry: Seq::empty(),
        olds: Seq::empty(),
        self_ctx,
        reached: Seq::empty(),
    }
}

impl Frame {
    pub fn new(self_ctx: Option<(usize, usize)>) -> (r: Frame)
        ensures
            r@ == new_frame(self_ctx),
    {
        Frame {
            vars: Vec::new(),
            entry_scalars: Vec::new(),
            olds: Vec::new(),
            self_ctx,
            reached: Vec::new(),
        }
    }
}

/// What a run reads: the plans and the declarations.
pub struct Interp<'a> {
    pub control: &'a ControlProgram,
    pub fns: &'a Vec<FnDecl>,
    pub classes: &'a Vec<ClassDecl>,
    pub records: &'a Vec<RecordDecl>,
    pub source: &'a str,
}

pub ghost struct CodeV {
    pub control: ProgramV,
    pub fns: Seq<FnDecl>,
    pub classes: Seq<ClassDecl>,
    pub records: Seq<RecordDecl>,
    pub source: Seq<char>,
}

impl<'a> Interp<'a> {
    pub open spec fn view(&self) -> CodeV {
        CodeV {
            control: self.control@,
            fns: self.fns@,
            classes: self.classes@,
            records: self.records@,
            source: self.source@,
        }
    }
}

/// Where an expression is evaluated.
pub ghost struct SiteV {
    pub plan: PlanV,
    pub scope: ScopeId,
}

/// A plan and the scope in it that is active.
#[derive(Clone, Copy)]
pub struct TrapContext<'a> {
    pub plan: &'a BodyPlan,
    pub scope: ScopeId,
}

impl<'a> TrapContext<'a> {
    pub open spec fn view(&self) -> SiteV {
        SiteV { plan: self.plan@, scope: self.scope }
    }

    pub fn new(plan: &'a BodyPlan, scope: ScopeId) -> (r: Self)
        ensures
            r@ == (SiteV { plan: plan@, scope }),
            r.plan == plan,
            r.scope == scope,
    {
        TrapContext { plan, scope }
    }
}

// ------------------------------------------------------------------------------------------
// Fuel
// ------------------------------------------------------------------------------------------

pub open spec fn out_of_fuel(span: Span) -> TrapV {
    trap(span, "fuel exhausted (runaway loop or recursion?)"@)
}

pub open spec fn burned(m: MachV) -> MachV {
    MachV { fuel: (m.fuel - 1) as u64, ..m }
}

impl Machine {
    /// Spends one step.
    pub fn burn(&mut self, span: Span) -> (r: Result<(), Trap>)
        ensures
            old(self)@.fuel == 0 ==> (r matches Err(t) && t@ == out_of_fuel(span)) && final(self)@
                == old(self)@,
            old(self)@.fuel > 0 ==> r is Ok && final(self)@ == burned(old(self)@),
    {
        if self.fuel == 0 {
            return Err(
                Trap::defined(span, owned("fuel exhausted (runaway loop or recursion?)")),
            );
        }
        self.fuel = self.fuel - 1;
        Ok(())
    }

    fn skip(&mut self, text: &str, reason: String)
        ensures
            final(self)@ == skip(old(self)@, text@, reason@),
    {
        self.skipped.push(Skipped { text: on_one_line(text), reason });
    }

    /// Notes a clause that could not be checked.
    pub fn note_skipped(&mut self, text: &str, reason: Unmonitorable)
        ensures
            final(self)@ == skip(old(self)@, text@, reason.0@),
    {
        self.skip(text, reason.0);
    }
}

// ------------------------------------------------------------------------------------------
// Clauses
// ------------------------------------------------------------------------------------------

pub open spec fn skip(m: MachV, text: Seq<char>, reason: Seq<char>) -> MachV {
    MachV { skipped: m.skipped.push(SkipV { text: flat(text), reason }), ..m }
}

/// One clause: it holds, it is violated, or it is skipped.
pub open spec fn clause_step(m: MachV, env: EnvV, clause: Clause, what: Seq<char>) -> (
    Result<(), TrapV>,
    MachV,
) {
    match clause_value(env, clause.text@) {
        Ok(true) => (Ok(()), m),
        Ok(false) => (
            Err(trap(clause.span, what + " violated: "@ + flat(clause.text@))),
            m,
        ),
        Err(reason) => (Ok(()), skip(m, clause.text@, reason)),
    }
}

/// What a contract of the callable may name: entry values, the object at hand, and a result.
pub open spec fn contract_env(m: MachV, f: FrameV, result: Option<ValV>) -> EnvV {
    EnvV {
        heap: m.heap,
        vars: f.vars,
        entry: f.entry,
        self_ctx: f.self_ctx,
        result,
        olds: f.olds,
    }
}

/// What a loop invariant may name: current values.
pub open spec fn loop_env(m: MachV, f: FrameV) -> EnvV {
    EnvV { entry: Seq::empty(), ..contract_env(m, f, None) }
}

/// What a loop variant may name: current values of locals.
pub open spec fn variant_env(m: MachV, f: FrameV) -> EnvV {
    EnvV { self_ctx: None, ..loop_env(m, f) }
}

/// What a class invariant may name: the object and its fields.
pub open spec fn invariant_env(m: MachV, fields: usize) -> EnvV {
    EnvV {
        heap: m.heap,
        vars: Seq::empty(),
        entry: Seq::empty(),
        self_ctx: Some((0, fields)),
        result: None,
        olds: Seq::empty(),
    }
}

pub open spec fn check_clause(
    m: MachV,
    f: FrameV,
    clause: Clause,
    result: Option<ValV>,
    what: Seq<char>,
) -> (Result<(), TrapV>, MachV) {
    clause_step(m, contract_env(m, f, result), clause, what)
}

pub open spec fn check_loop_clause(m: MachV, f: FrameV, clause: Clause, what: Seq<char>) -> (
    Result<(), TrapV>,
    MachV,
) {
    clause_step(m, loop_env(m, f), clause, what)
}

/// The contract clauses from `i` on.
pub open spec fn check_clauses(
    m: MachV,
    f: FrameV,
    clauses: Seq<Clause>,
    i: nat,
    result: Option<ValV>,
    what: Seq<char>,
) -> (Result<(), TrapV>, MachV)
    decreases clauses.len() - i,
{
    if i >= clauses.len() {
        (Ok(()), m)
    } else {
        match check_clause(m, f, clauses[i as int], result, what) {
            (Err(t), m) => (Err(t), m),
            (Ok(_), m) => check_clauses(m, f, clauses, i + 1, result, what),
        }
    }
}

/// The loop invariants from `i` on.
pub open spec fn check_loop_clauses(m: MachV, f: FrameV, clauses: Seq<Clause>, i: nat) -> (
    Result<(), TrapV>,
    MachV,
)
    decreases clauses.len() - i,
{
    if i >= clauses.len() {
        (Ok(()), m)
    } else {
        match check_loop_clause(m, f, clauses[i as int], "loop invariant"@) {
            (Err(t), m) => (Err(t), m),
            (Ok(_), m) => check_loop_clauses(m, f, clauses, i + 1),
        }
    }
}

/// The class invariants from `i` on.
pub open spec fn check_invariants(
    m: MachV,
    class: ClassDecl,
    fields: usize,
    what: Seq<char>,
    i: nat,
) -> (Result<(), TrapV>, MachV)
    decreases class.invariants@.len() - i,
{
    if i >= class.invariants@.len() {
        (Ok(()), m)
    } else {
        let inv = class.invariants@[i as int];
        match clause_value(invariant_env(m, fields), inv.text@) {
            Ok(true) => check_invariants(m, class, fields, what, i + 1),
            Ok(false) => (
                Err(
                    trap(
                        inv.span,
                        "class invariant of `"@ + class.name@ + "` violated at `"@ + what + "`: "@
                            + flat(inv.text@),
                    ),
                ),
                m,
            ),
            Err(reason) => check_invariants(
                skip(m, inv.text@, reason),
                class,
                fields,
                what,
                i + 1,
            ),
        }
    }
}

/// What checking clauses leaves: only the list of skipped clauses may grow.
pub open spec fn only_skips(a: MachV, b: MachV) -> bool {
    b == (MachV { skipped: b.skipped, ..a })
}

proof fn lemma_clauses_only_skip(
    m: MachV,
    f: FrameV,
    clauses: Seq<Clause>,
    i: nat,
    result: Option<ValV>,
    what: Seq<char>,
)
    ensures
        only_skips(m, check_clauses(m, f, clauses, i, result, what).1),
    decreases clauses.len() - i,
{
    if i < clauses.len() {
        match check_clause(m, f, clauses[i as int], result, what) {
            (Err(_), _) => {},
            (Ok(_), n) => {
                lemma_clauses_only_skip(n, f, clauses, i + 1, result, what);
            },
        }
    }
}

proof fn lemma_loop_clauses_only_skip(m: MachV, f: FrameV, clauses: Seq<Clause>, i: nat)
    ensures
        only_skips(m, check_loop_clauses(m, f, clauses, i).1),
    decreases clauses.len() - i,
{
    if i < clauses.len() {
        match check_loop_clause(m, f, clauses[i as int], "loop invariant"@) {
            (Err(_), _) => {},
            (Ok(_), n) => {
                lemma_loop_clauses_only_skip(n, f, clauses, i + 1);
            },
        }
    }
}

proof fn lemma_invariants_only_skip(
    m: MachV,
    class: ClassDecl,
    fields: usize,
    what: Seq<char>,
    i: nat,
)
    ensures
        only_skips(m, check_invariants(m, class, fields, what, i).1),
    decreases class.invariants@.len() - i,
{
    if i < class.invariants@.len() {
        let inv = class.invariants@[i as int];
        match clause_value(invariant_env(m, fields), inv.text@) {
            Ok(true) => lemma_invariants_only_skip(m, class, fields, what, i + 1),
            Ok(false) => {},
            Err(reason) => lemma_invariants_only_skip(
                skip(m, inv.text@, reason),
                class,
                fields,
                what,
                i + 1,
            ),
        }
    }
}

/// Monitoring observes only: whatever contract is checked, the program's own state stays as it
/// was, and what the monitor cannot decide is added to the notes.
pub proof fn law_monitoring_observes_only(
    m: MachV,
    f: FrameV,
    clauses: Seq<Clause>,
    result: Option<ValV>,
    class: ClassDecl,
    fields: usize,
    what: Seq<char>,
)
    ensures
        only_skips(m, check_clauses(m, f, clauses, 0, result, what).1),
        only_skips(m, check_loop_clauses(m, f, clauses, 0).1),
        only_skips(m, check_invariants(m, class, fields, what, 0).1),
{
    lemma_clauses_only_skip(m, f, clauses, 0, result, what);
    lemma_loop_clauses_only_skip(m, f, clauses, 0);
    lemma_invariants_only_skip(m, class, fields, what, 0);
}

/// A computed step stands for a stated one.
pub open spec fn steps(r: Result<(), Trap>, after: MachV, s: (Result<(), TrapV>, MachV)) -> bool {
    yields(r, s.0) && after == s.1
}

impl Machine {
    fn conclude(
        &mut self,
        value: Result<bool, Unmonitorable>,
        clause: &Clause,
        what: &str,
        Ghost(env): Ghost<EnvV>,
    ) -> (r: Result<(), Trap>)
        requires
            match clause_value(env, clause.text@) {
                Ok(b) => value matches Ok(x) && x == b,
                Err(e) => value matches Err(u) && u.0@ == e,
            },
        ensures
            steps(r, final(self)@, clause_step(old(self)@, env, *clause, what@)),
    {
        match value {
            Ok(true) => Ok(()),
            Ok(false) => Err(
                Trap::defined(
                    clause.span,
                    cat3(what, " violated: ", on_one_line(clause.text.as_str()).as_str()),
                ),
            ),
            Err(reason) => {
                self.note_skipped(clause.text.as_str(), reason);
                Ok(())
            },
        }
    }

    /// A contract clause: entry values for by-value parameters, current contents for arrays,
    /// snapshots for `old`.
    pub fn check_clause(
        &mut self,
        frame: &Frame,
        clause: &Clause,
        result: Option<&RtVal>,
        what: &str,
    ) -> (r: Result<(), Trap>)
        ensures
            steps(
                r,
                final(self)@,
                check_clause(
                    old(self)@,
                    frame@,
                    *clause,
                    match result {
                        Some(v) => Some(v@),
                        None => None,
                    },
                    what@,
                ),
            ),
            only_skips(old(self)@, final(self)@),
    {
        let env = Env {
            heap: &self.heap,
            vars: &frame.vars,
            entry: &frame.entry_scalars,
            self_ctx: frame.self_ctx,
            result,
            olds: &frame.olds,
        };
        let ghost named = env@;
        let value = env.eval_clause(clause.text.as_str());
        self.conclude(value, clause, what, Ghost(named))
    }

    /// A loop clause, over current values.
    pub fn check_loop_clause(&mut self, frame: &Frame, clause: &Clause, what: &str) -> (r: Result<
        (),
        Trap,
    >)
        ensures
            steps(r, final(self)@, check_loop_clause(old(self)@, frame@, *clause, what@)),
            only_skips(old(self)@, final(self)@),
    {
        let none: Vec<Binding<RtVal>> = Vec::new();
        let env = Env {
            heap: &self.heap,
            vars: &frame.vars,
            entry: &none,
            self_ctx: frame.self_ctx,
            result: None,
            olds: &frame.olds,
        };
        let ghost named = env@;
        let value = env.eval_clause(clause.text.as_str());
        self.conclude(value, clause, what, Ghost(named))
    }

    pub fn check_clauses(
        &mut self,
        frame: &Frame,
        clauses: &Vec<Clause>,
        result: Option<&RtVal>,
        what: &str,
    ) -> (r: Result<(), Trap>)
        ensures
            steps(
                r,
                final(self)@,
                check_clauses(
                    old(self)@,
                    frame@,
                    clauses@,
                    0,
                    match result {
                        Some(v) => Some(v@),
                        None => None,
                    },
                    what@,
                ),
            ),
            only_skips(old(self)@, final(self)@),
    {
        let ghost res = match result {
            Some(v) => Some(v@),
            None => None,
        };
        let n: usize = clauses.len();
        let mut i: usize = 0;
        while i < n
            invariant
                n == clauses@.len(),
                i <= n,
                res == (match result {
                    Some(v) => Some(v@),
                    None => None,
                }),
                only_skips(old(self)@, self@),
                check_clauses(old(self)@, frame@, clauses@, 0, res, what@) == check_clauses(
                    self@,
                    frame@,
                    clauses@,
                    i as nat,
                    res,
                    what@,
                ),
            decreases n - i,
        {
            match self.check_clause(frame, &clauses[i], result, what) {
                Err(t) => {
                    return Err(t);
                },
                Ok(_) => {},
            }
            i = i + 1;
        }
        Ok(())
    }

    pub fn check_loop_clauses(&mut self, frame: &Frame, clauses: &Vec<Clause>) -> (r: Result<
        (),
        Trap,
    >)
        ensures
            steps(r, final(self)@, check_loop_clauses(old(self)@, frame@, clauses@, 0)),
            only_skips(old(self)@, final(self)@),
    {
        let n: usize = clauses.len();
        let mut i: usize = 0;
        while i < n
            invariant
                n == clauses@.len(),
                i <= n,
                only_skips(old(self)@, self@),
                check_loop_clauses(old(self)@, frame@, clauses@, 0) == check_loop_clauses(
                    self@,
                    frame@,
                    clauses@,
                    i as nat,
                ),
            decreases n - i,
        {
            match self.check_loop_clause(frame, &clauses[i], "loop invariant") {
                Err(t) => {
                    return Err(t);
                },
                Ok(_) => {},
            }
            i = i + 1;
        }
        Ok(())
    }

    pub fn check_invariants_at(&mut self, class: &ClassDecl, fields: usize, what: &str) -> (r:
        Result<(), Trap>)
        ensures
            steps(r, final(self)@, check_invariants(old(self)@, *class, fields, what@, 0)),
            only_skips(old(self)@, final(self)@),
    {
        let none: Vec<Binding<RtVal>> = Vec::new();
        let no_olds: Vec<Binding<SpecVal>> = Vec::new();
        let n: usize = class.invariants.len();
        let mut i: usize = 0;
        while i < n
            invariant
                n == class.invariants@.len(),
                i <= n,
                none@.len() == 0,
                no_olds@.len() == 0,
                only_skips(old(self)@, self@),
                check_invariants(old(self)@, *class, fields, what@, 0) == check_invariants(
                    self@,
                    *class,
                    fields,
                    what@,
                    i as nat,
                ),
            decreases n - i,
        {
            let inv = &class.invariants[i];
            let env = Env {
                heap: &self.heap,
                vars: &none,
                entry: &none,
                self_ctx: Some((0, fields)),
                result: None,
                olds: &no_olds,
            };
            assert(views(none@) =~= Seq::empty());
            assert(views(no_olds@) =~= Seq::empty());
            assert(env@ == invariant_env(self@, fields));
            match env.eval_clause(inv.text.as_str()) {
                Ok(true) => {},
                Ok(false) => {
                    return Err(
                        Trap::defined(
                            inv.span,
                            cat4(
                                cat3(
                                    "class invariant of `",
                                    class.name.as_str(),
                                    "` violated at `",
                                ).as_str(),
                                what,
                                "`: ",
                                on_one_line(inv.text.as_str()).as_str(),
                            ),
                        ),
                    );
                },
                Err(reason) => {
                    self.note_skipped(inv.text.as_str(), reason);
                },
            }
            i = i + 1;
        }
        Ok(())
    }

    /// The value of a loop variant.
    pub fn variant_value(&self, frame: &Frame, clause: &Clause) -> (r: Result<i128, Unmonitorable>)
        ensures
            match measure_value(variant_env(self@, frame@), clause.text@) {
                Ok(n) => r matches Ok(x) && x == n,
                Err(e) => r matches Err(u) && u.0@ == e,
            },
    {
        let none: Vec<Binding<RtVal>> = Vec::new();
        let env = Env {
            heap: &self.heap,
            vars: &frame.vars,
            entry: &none,
            self_ctx: None,
            result: None,
            olds: &frame.olds,
        };
        assert(views(none@) =~= Seq::empty());
        assert(env@ == variant_env(self@, frame@));
        env.eval_int_expr(clause.text.as_str())
    }
}

// ------------------------------------------------------------------------------------------
// Places
// ------------------------------------------------------------------------------------------

/// A place that a value can be moved out of: a local, or a field of the object at hand.
#[derive(Debug)]
pub enum RtPlace {
    Local(String),
    SelfField(String),
}

pub ghost enum RtPlaceV {
    Local(Seq<char>),
    SelfField(Seq<char>),
}

impl View for RtPlace {
    type V = RtPlaceV;

    open spec fn view(&self) -> RtPlaceV {
        match *self {
            RtPlace::Local(n) => RtPlaceV::Local(n@),
            RtPlace::SelfField(n) => RtPlaceV::SelfField(n@),
        }
    }
}

impl RtPlaceV {
    pub open spec fn text(self) -> Seq<char> {
        match self {
            RtPlaceV::Local(n) => n,
            RtPlaceV::SelfField(n) => "self."@ + n,
        }
    }
}

impl RtPlace {
    /// How the place is spelled in a diagnostic.
    pub fn name(&self) -> (r: String)
        ensures
            r@ == self@.text(),
    {
        match self {
            RtPlace::Local(n) => n.clone(),
            RtPlace::SelfField(n) => cat2("self.", n.as_str()),
        }
    }
}

/// The place that an expression names, if it names one.
pub open spec fn source_of(e: Expr) -> Option<RtPlaceV> {
    match e.kind {
        ExprKind::Var(n) => Some(RtPlaceV::Local(n@)),
        ExprKind::SelfField { field } => Some(RtPlaceV::SelfField(field@)),
        _ => None,
    }
}

pub fn source_place(e: &Expr) -> (r: Option<RtPlace>)
    ensures
        opt_view(r) == source_of(*e),
{
    match &e.kind {
        ExprKind::Var(n) => Some(RtPlace::Local(n.clone())),
        ExprKind::SelfField { field } => Some(RtPlace::SelfField(field.clone())),
        _ => None,
    }
}

/// What a place holds.
pub open spec fn held_at(m: MachV, f: FrameV, place: RtPlaceV) -> Option<ValV> {
    match place {
        RtPlaceV::Local(name) => value_of(f.vars, name),
        RtPlaceV::SelfField(field) => match f.self_ctx {
            None => None,
            Some((_, id)) => match m.heap.object(id) {
                None => None,
                Some(fields) => value_of(fields, field),
            },
        },
    }
}

/// The state once a place has been emptied.
pub open spec fn emptied(m: MachV, f: FrameV, place: RtPlaceV) -> (MachV, FrameV) {
    match place {
        RtPlaceV::Local(name) => (m, FrameV { vars: unbind(f.vars, name), ..f }),
        RtPlaceV::SelfField(field) => match f.self_ctx {
            None => (m, f),
            Some((_, id)) => match m.heap.object(id) {
                None => (m, f),
                Some(fields) => (
                    MachV { heap: m.heap.set_object(id, unbind(fields, field)), ..m },
                    f,
                ),
            },
        },
    }
}

impl Machine {
    /// Takes a field of an object out of it.
    pub fn take_field(&mut self, id: usize, field: &str) -> (r: Option<RtVal>)
        ensures
            match old(self)@.heap.object(id) {
                None => r is None && final(self)@ == old(self)@,
                Some(fields) => opt_view(r) == value_of(fields, field@) && final(self)@ == (MachV {
                    heap: old(self)@.heap.set_object(id, unbind(fields, field@)),
                    ..old(self)@
                }),
            },
    {
        if id >= self.heap.objects.len() {
            return None;
        }
        let ghost before = self.heap.objects@;
        assert(self@.heap.objects[id as int] == before[id as int]@);
        let held = take(&mut self.heap.objects[id].fields, field);
        assert(self.heap.objects@ =~= before.update(id as int, self.heap.objects@[id as int]));
        held
    }

    /// Puts a value into a field of an object.
    pub fn put_field(&mut self, id: usize, field: &str, value: RtVal)
        requires
            id < old(self)@.heap.objects.len(),
        ensures
            final(self)@ == (MachV {
                heap: old(self)@.heap.set_object(
                    id,
                    bind(old(self)@.heap.objects[id as int], field@, value@),
                ),
                ..old(self)@
            }),
    {
        let ghost before = self.heap.objects@;
        assert(self@.heap.objects[id as int] == before[id as int]@);
        put(&mut self.heap.objects[id].fields, field, value);
        assert(self.heap.objects@ =~= before.update(id as int, self.heap.objects@[id as int]));
    }

    /// Takes the value out of a place. This is what makes a move a move: no later destruction can
    /// reach the value a second time.
    pub fn take_place(&mut self, place: &RtPlace, frame: &mut Frame) -> (r: Option<RtVal>)
        ensures
            opt_view(r) == held_at(old(self)@, old(frame)@, place@),
            (final(self)@, final(frame)@) == emptied(old(self)@, old(frame)@, place@),
    {
        match place {
            RtPlace::Local(name) => take(&mut frame.vars, name.as_str()),
            RtPlace::SelfField(field) => match frame.self_ctx {
                None => None,
                Some((_, id)) => self.take_field(id, field.as_str()),
            },
        }
    }
}

// ------------------------------------------------------------------------------------------
// Activation
// ------------------------------------------------------------------------------------------

pub open spec fn reach(s: Seq<DropId>, d: DropId) -> Seq<DropId> {
    if s.contains(d) {
        s
    } else {
        s.push(d)
    }
}

pub open spec fn unreach(s: Seq<DropId>, d: DropId) -> Seq<DropId> {
    s.filter(|x: DropId| x != d)
}

pub fn has_drop(s: &Vec<DropId>, d: DropId) -> (r: bool)
    ensures
        r == s@.contains(d),
{
    let n: usize = s.len();
    let mut i: usize = 0;
    while i < n
        invariant
            n == s@.len(),
            i <= n,
            forall|k: int| 0 <= k < i ==> s@[k] != d,
        decreases n - i,
    {
        if s[i] == d {
            return true;
        }
        i = i + 1;
    }
    false
}

pub fn remove_drop(s: &mut Vec<DropId>, d: DropId)
    ensures
        final(s)@ == unreach(old(s)@, d),
{
    let mut out: Vec<DropId> = Vec::new();
    let n: usize = s.len();
    let mut i: usize = 0;
    proof {
        reveal(Seq::filter);
    }
    while i < n
        invariant
            n == s@.len(),
            s@ == old(s)@,
            i <= n,
            out@ == unreach(s@.take(i as int), d),
        decreases n - i,
    {
        proof {
            reveal(Seq::filter);
            assert(s@.take(i + 1).drop_last() =~= s@.take(i as int));
            assert(s@.take(i + 1).last() == s@[i as int]);
        }
        if s[i] != d {
            out.push(s[i]);
        }
        i = i + 1;
    }
    assert(s@.take(n as int) =~= s@);
    *s = out;
}

/// A declaration that this run has reached makes its candidate due.
pub open spec fn armed(plan: PlanV, f: FrameV, name: Seq<char>, scope: ScopeId, span: Span) -> Result<
    FrameV,
    TrapV,
> {
    match plan.candidate_for(local_place(name)) {
        None => Ok(f),
        Some(c) => if c.scope != scope {
            Err(
                undefined(
                    span,
                    "internal control plan assigned `"@ + name
                        + "` to a different lexical scope"@,
                ),
            )
        } else {
            Ok(FrameV { reached: reach(f.reached, c.id), ..f })
        },
    }
}

/// What arming leaves: the frame that `s` says, or its refusal and the frame as it was.
pub open spec fn arms(
    r: Result<(), Trap>,
    before: FrameV,
    after: FrameV,
    s: Result<FrameV, TrapV>,
) -> bool {
    match s {
        Ok(f) => r is Ok && after == f,
        Err(t) => (r matches Err(x) && x@ == t) && after == before,
    }
}

impl Frame {
    pub fn arm(&mut self, plan: &BodyPlan, name: &str, scope: ScopeId, span: Span) -> (r: Result<
        (),
        Trap,
    >)
        requires
            plan@.wf(),
        ensures
            arms(r, old(self)@, final(self)@, armed(plan@, old(self)@, name@, scope, span)),
    {
        match plan.candidate_for_place(&Place::local(name)) {
            None => Ok(()),
            Some(candidate) => {
                if candidate.scope != scope {
                    return Err(
                        Trap::undefined(
                            span,
                            cat3(
                                "internal control plan assigned `",
                                name,
                                "` to a different lexical scope",
                            ),
                        ),
                    );
                }
                if !has_drop(&self.reached, candidate.id) {
                    self.reached.push(candidate.id);
                }
                Ok(())
            },
        }
    }
}

// ------------------------------------------------------------------------------------------
// Trap sites
// ------------------------------------------------------------------------------------------

/// The retained sites from `i` on abort through the empty route, in the scope that is expected.
pub open spec fn sites_abort(sites: Seq<TrapSiteV>, expected: Option<ScopeId>, i: nat) -> Result<
    (),
    TrapV,
>
    decreases sites.len() - i,
{
    if i >= sites.len() {
        Ok(())
    } else {
        let site = sites[i as int];
        if (expected matches Some(scope) && site.key.scope != scope) || site.route
            != trap_route_v() {
            Err(
                undefined(
                    site.key.span,
                    "internal trap site does not abort through the empty no-unwind route"@,
                ),
            )
        } else {
            sites_abort(sites, expected, i + 1)
        }
    }
}

pub open spec fn consume_sites(sites: Result<Seq<TrapSiteV>, ErrV>, expected: Option<ScopeId>) -> Result<
    (),
    TrapV,
> {
    match sites {
        Err(e) => Err(plan_trap(e)),
        Ok(sites) => sites_abort(sites, expected, 0),
    }
}

impl SiteV {
    /// What can trap in the expression itself is retained in the active scope.
    #[verifier::opaque]
    pub open spec fn expression(self, e: Expr) -> Result<(), TrapV> {
        consume_sites(self.plan.expression_trap_sites(self.scope, e), Some(self.scope))
    }

    /// What can trap in the statement itself is retained.
    #[verifier::opaque]
    pub open spec fn statement(self, s: Stmt) -> Result<(), TrapV> {
        consume_sites(self.plan.statement_trap_sites(self.scope, s), None)
    }
}

pub fn consume_trap_sites(sites: &Vec<TrapSite>, expected_scope: Option<ScopeId>) -> (r: Result<
    (),
    Trap,
>)
    ensures
        yields(r, sites_abort(views(sites@), expected_scope, 0)),
{
    let n: usize = sites.len();
    let mut i: usize = 0;
    while i < n
        invariant
            n == sites@.len(),
            i <= n,
            sites_abort(views(sites@), expected_scope, 0) == sites_abort(
                views(sites@),
                expected_scope,
                i as nat,
            ),
        decreases n - i,
    {
        let site = &sites[i];
        assert(views(sites@)[i as int] == site@);
        let elsewhere = match expected_scope {
            Some(scope) => site.scope() != scope,
            None => false,
        };
        if elsewhere || !site.route().is_terminal_trap() {
            return Err(
                Trap::undefined(
                    site.span(),
                    owned("internal trap site does not abort through the empty no-unwind route"),
                ),
            );
        }
        i = i + 1;
    }
    Ok(())
}

impl<'a> TrapContext<'a> {
    pub fn consume_expression(&self, expression: &Expr) -> (r: Result<(), Trap>)
        ensures
            yields(r, self@.expression(*expression)),
    {
        proof {
            reveal(SiteV::expression);
        }
        match self.plan.expression_trap_sites(self.scope, expression) {
            Err(e) => Err(control_plan_trap(e)),
            Ok(sites) => consume_trap_sites(&sites, Some(self.scope)),
        }
    }

    pub fn consume_statement(&self, statement: &Stmt) -> (r: Result<(), Trap>)
        requires
            self.plan@.wf(),
        ensures
            yields(r, self@.statement(*statement)),
    {
        proof {
            reveal(SiteV::statement);
        }
        match self.plan.statement_trap_sites(self.scope, statement) {
            Err(e) => Err(control_plan_trap(e)),
            Ok(sites) => consume_trap_sites(&sites, None),
        }
    }
}

// ------------------------------------------------------------------------------------------
// Parameters
// ------------------------------------------------------------------------------------------

/// A resource whose keys are followed while the program runs.
pub open spec fn shadowed(ty: Ty) -> bool {
    ty matches Ty::Res(k) && (k is ResourceMapPointsToU64 || k is ResourceMapPointsToRecord)
}

pub fn has_resource_shadow(ty: &Ty) -> (r: bool)
    ensures
        r == shadowed(*ty),
{
    matches!(
        ty,
        Ty::Res(ResKind::ResourceMapPointsToU64) | Ty::Res(ResKind::ResourceMapPointsToRecord(_))
    )
}

/// A parameter that no runtime value is passed for.
pub open spec fn erased(ty: Ty) -> bool {
    ty is Res && !shadowed(ty)
}

pub fn is_erased(ty: &Ty) -> (r: bool)
    ensures
        r == erased(*ty),
{
    ty.is_resource() && !has_resource_shadow(ty)
}

pub open spec fn with_var(f: FrameV, name: Seq<char>, v: ValV) -> FrameV {
    FrameV { vars: bind(f.vars, name, v), ..f }
}

pub open spec fn with_entry(f: FrameV, name: Seq<char>, v: ValV) -> FrameV {
    FrameV { entry: bind(f.entry, name, v), ..f }
}

/// The frame with an entry snapshot, where there is one.
pub open spec fn with_old(f: FrameV, name: Seq<char>, s: Option<SpecV>) -> FrameV {
    match s {
        Some(s) => FrameV { olds: bind(f.olds, name, s), ..f },
        None => f,
    }
}

/// What binding arguments says, and the machine and the frame after it: on a refusal, with what was
/// bound before.
pub type BoundV = (Result<(), TrapV>, MachV, FrameV);

/// As [`BoundV`], where the machine is only read.
pub type FramedV = (Result<(), TrapV>, FrameV);

/// One argument of a function. What the caller keeps is snapshot; what is handed over is copied,
/// for a contract speaks of the value at entry whatever becomes of its storage.
pub open spec fn bind_argument(m: MachV, f: FrameV, p: Param, v: ValV) -> BoundV {
    if (v is Arr || v is Obj) && p.ty.unique_borrow() {
        (Ok(()), m, with_var(with_old(f, p.name@, snapshot(m.heap, v)), p.name@, v))
    } else if v is Arr && p.ty is Array {
        match detached(m.heap, v) {
            Some((h, copy)) => (
                Ok(()),
                MachV { heap: h, ..m },
                with_var(with_entry(f, p.name@, copy), p.name@, v),
            ),
            None => (Err(stuck(p.span, "entry copy"@)), m, f),
        }
    } else if v is Arr {
        (Ok(()), m, with_var(f, p.name@, v))
    } else if copyable(v) {
        (Ok(()), m, with_var(with_entry(f, p.name@, v), p.name@, v))
    } else {
        (Err(stuck(p.span, "copied owner"@)), m, f)
    }
}

/// The arguments from `k` on, for the parameters from `i` on that have a runtime value.
pub open spec fn bind_arguments(
    m: MachV,
    f: FrameV,
    params: Seq<Param>,
    i: nat,
    args: Seq<ValV>,
    k: nat,
) -> BoundV
    decreases params.len() - i,
{
    if i >= params.len() {
        (Ok(()), m, f)
    } else if erased(params[i as int].ty) {
        bind_arguments(m, f, params, i + 1, args, k)
    } else if k >= args.len() {
        (Ok(()), m, f)
    } else {
        let first = bind_argument(m, f, params[i as int], args[k as int]);
        if first.0 is Err {
            first
        } else {
            bind_arguments(first.1, first.2, params, i + 1, args, k + 1)
        }
    }
}

/// The parameters from `i` on: each that has no runtime value gets a placeholder, and each is
/// reached.
pub open spec fn arm_params(plan: PlanV, f: FrameV, params: Seq<Param>, i: nat) -> FramedV
    decreases params.len() - i,
{
    if i >= params.len() {
        (Ok(()), f)
    } else {
        let p = params[i as int];
        let placed = if erased(p.ty) {
            with_var(f, p.name@, ValV::Unit)
        } else {
            f
        };
        match armed(plan, placed, p.name@, plan.frame_scope, p.span) {
            Err(t) => (Err(t), placed),
            Ok(f) => arm_params(plan, f, params, i + 1),
        }
    }
}

/// The arguments of an initializer or a method, from `i` on.
pub open spec fn bind_members(
    m: MachV,
    plan: PlanV,
    f: FrameV,
    params: Seq<Param>,
    args: Seq<ValV>,
    i: nat,
) -> FramedV
    decreases params.len() - i,
{
    if i >= params.len() || i >= args.len() {
        (Ok(()), f)
    } else {
        let p = params[i as int];
        let v = args[i as int];
        if !(v is Obj && p.ty.unique_borrow()) && !copyable(v) {
            (Err(stuck(p.span, "copied owner"@)), f)
        } else {
            let noted = if v is Obj && p.ty.unique_borrow() {
                with_old(f, p.name@, snapshot(m.heap, v))
            } else {
                with_entry(f, p.name@, v)
            };
            let placed = with_var(noted, p.name@, v);
            match armed(plan, placed, p.name@, plan.frame_scope, p.span) {
                Err(t) => (Err(t), placed),
                Ok(f) => bind_members(m, plan, f, params, args, i + 1),
            }
        }
    }
}

/// A computed binding and what it left stand for stated ones.
pub open spec fn binds(r: Result<(), Trap>, m: MachV, f: FrameV, s: BoundV) -> bool {
    yields(r, s.0) && m == s.1 && f == s.2
}

/// As [`binds`], where the machine is only read.
pub open spec fn frames(r: Result<(), Trap>, f: FrameV, s: FramedV) -> bool {
    yields(r, s.0) && f == s.1
}

/// What only allocates: the rest of the machine stays.
pub open spec fn only_heap(a: MachV, b: MachV) -> bool {
    b == (MachV { heap: b.heap, ..a })
}

impl Frame {
    pub fn note_old(&mut self, name: &str, snapshot: Option<SpecVal>)
        ensures
            final(self)@ == with_old(old(self)@, name@, opt_view(snapshot)),
    {
        match snapshot {
            Some(s) => put(&mut self.olds, name, s),
            None => {},
        }
    }

    pub fn set_var(&mut self, name: &str, v: RtVal)
        ensures
            final(self)@ == with_var(old(self)@, name@, v@),
    {
        put(&mut self.vars, name, v);
    }

    fn bind_argument(&mut self, m: &mut Machine, p: &Param, v: RtVal) -> (r: Result<(), Trap>)
        ensures
            binds(
                r,
                final(m)@,
                final(self)@,
                bind_argument(old(m)@, old(self)@, *p, v@),
            ),
            only_heap(old(m)@, final(m)@),
    {
        let shared = matches!(&v, RtVal::Arr(_) | RtVal::Obj { .. });
        if shared && p.ty.is_unique_borrow() {
            let s = m.heap.spec_of(&v);
            self.note_old(p.name.as_str(), s);
        } else if matches!(&v, RtVal::Arr(_)) && matches!(&p.ty, Ty::Array(_)) {
            match m.heap.deep_copy(&v) {
                Some(copy) => {
                    put(&mut self.entry_scalars, p.name.as_str(), copy);
                },
                None => {
                    return Err(Trap::stuck(p.span, "entry copy"));
                },
            }
        } else if matches!(&v, RtVal::Arr(_)) {
        } else if v.is_copyable() {
            put(&mut self.entry_scalars, p.name.as_str(), v.duplicate());
        } else {
            return Err(Trap::stuck(p.span, "copied owner"));
        }
        self.set_var(p.name.as_str(), v);
        Ok(())
    }

    pub fn bind_arguments(&mut self, m: &mut Machine, params: &Vec<Param>, args: &Vec<RtVal>) -> (r:
        Result<(), Trap>)
        ensures
            binds(
                r,
                final(m)@,
                final(self)@,
                bind_arguments(old(m)@, old(self)@, params@, 0, views(args@), 0),
            ),
            only_heap(old(m)@, final(m)@),
    {
        let ghost vals = views(args@);
        let n: usize = params.len();
        let mut i: usize = 0;
        let mut k: usize = 0;
        while i < n
            invariant
                n == params@.len(),
                i <= n,
                k <= i,
                vals == views(args@),
                only_heap(old(m)@, m@),
                bind_arguments(old(m)@, old(self)@, params@, 0, vals, 0) == bind_arguments(
                    m@,
                    self@,
                    params@,
                    i as nat,
                    vals,
                    k as nat,
                ),
            decreases n - i,
        {
            let p = &params[i];
            if !is_erased(&p.ty) {
                if k >= args.len() {
                    return Ok(());
                }
                assert(vals[k as int] == args@[k as int]@);
                match self.bind_argument(m, p, args[k].duplicate()) {
                    Err(t) => {
                        return Err(t);
                    },
                    Ok(_) => {},
                }
                k = k + 1;
            }
            i = i + 1;
        }
        Ok(())
    }

    pub fn arm_params(&mut self, plan: &BodyPlan, params: &Vec<Param>) -> (r: Result<(), Trap>)
        requires
            plan@.wf(),
        ensures
            frames(r, final(self)@, arm_params(plan@, old(self)@, params@, 0)),
    {
        let n: usize = params.len();
        let mut i: usize = 0;
        while i < n
            invariant
                plan@.wf(),
                n == params@.len(),
                i <= n,
                arm_params(plan@, old(self)@, params@, 0) == arm_params(
                    plan@,
                    self@,
                    params@,
                    i as nat,
                ),
            decreases n - i,
        {
            let p = &params[i];
            if is_erased(&p.ty) {
                self.set_var(p.name.as_str(), RtVal::Unit);
            }
            match self.arm(plan, p.name.as_str(), plan.frame_scope, p.span) {
                Err(t) => {
                    return Err(t);
                },
                Ok(_) => {},
            }
            i = i + 1;
        }
        Ok(())
    }

    pub fn bind_members(
        &mut self,
        m: &Machine,
        plan: &BodyPlan,
        params: &Vec<Param>,
        args: &Vec<RtVal>,
    ) -> (r: Result<(), Trap>)
        requires
            plan@.wf(),
        ensures
            frames(
                r,
                final(self)@,
                bind_members(m@, plan@, old(self)@, params@, views(args@), 0),
            ),
    {
        let ghost vals = views(args@);
        let n: usize = params.len();
        let mut i: usize = 0;
        while i < n
            invariant
                plan@.wf(),
                n == params@.len(),
                i <= n,
                vals == views(args@),
                bind_members(m@, plan@, old(self)@, params@, vals, 0) == bind_members(
                    m@,
                    plan@,
                    self@,
                    params@,
                    vals,
                    i as nat,
                ),
            decreases n - i,
        {
            if i >= args.len() {
                return Ok(());
            }
            let p = &params[i];
            let v = &args[i];
            assert(vals[i as int] == v@);
            if matches!(v, RtVal::Obj { .. }) && p.ty.is_unique_borrow() {
                let s = m.heap.spec_of(v);
                self.note_old(p.name.as_str(), s);
            } else if v.is_copyable() {
                put(&mut self.entry_scalars, p.name.as_str(), v.duplicate());
            } else {
                return Err(Trap::stuck(p.span, "copied owner"));
            }
            self.set_var(p.name.as_str(), v.duplicate());
            match self.arm(plan, p.name.as_str(), plan.frame_scope, p.span) {
                Err(t) => {
                    return Err(t);
                },
                Ok(_) => {},
            }
            i = i + 1;
        }
        Ok(())
    }
}

// ------------------------------------------------------------------------------------------
// Ranges
// ------------------------------------------------------------------------------------------

/// The result of an operation fits its type, or the trap that shows its source.
pub open spec fn in_range(source: Seq<char>, val: int, it: IntTy, e: Expr, what: Seq<char>) -> Result<
    (),
    TrapV,
> {
    if it.least() <= val <= it.greatest() {
        Ok(())
    } else {
        let end = if e.span.end <= byte_len(source) {
            e.span.end as int
        } else {
            byte_len(source) as int
        };
        match byte_slice(source, e.span.start as int, end) {
            None => Err(stuck(e.span, "source range"@)),
            Some(src) => Err(
                trap(
                    e.span,
                    "overflow: `"@ + src + "` = "@ + int_text(val) + " does not fit in `"@
                        + int_ty_name(it) + "` ("@ + what + ")"@,
                ),
            ),
        }
    }
}

pub fn check_range(source: &str, val: i128, it: IntTy, e: &Expr, what: &str) -> (r: Result<
    (),
    Trap,
>)
    ensures
        yields(r, in_range(source@, val as int, it, *e, what@)),
{
    if val < it.min() || val > it.max() {
        let len: usize = source.as_bytes().len();
        let end = if e.span.end <= len {
            e.span.end
        } else {
            len
        };
        return match slice_bytes(source, e.span.start, end) {
            None => Err(Trap::stuck(e.span, "source range")),
            Some(src) => Err(
                Trap::defined(
                    e.span,
                    cat3(
                        cat7(
                            "overflow: `",
                            src.as_str(),
                            "` = ",
                            signed_decimal(val).as_str(),
                            " does not fit in `",
                            it.name().as_str(),
                            "` (",
                        ).as_str(),
                        what,
                        ")",
                    ),
                ),
            ),
        };
    }
    Ok(())
}

// ------------------------------------------------------------------------------------------
// Exits
// ------------------------------------------------------------------------------------------

/// One destruction of an exit.
pub struct DropStep {
    pub id: DropId,
    pub name: String,
    pub action: ValueDropAction,
    pub span: Span,
}

pub ghost struct DropStepV {
    pub id: DropId,
    pub name: Seq<char>,
    pub action: ActionV,
    pub span: Span,
}

impl View for DropStep {
    type V = DropStepV;

    open spec fn view(&self) -> DropStepV {
        DropStepV {
            id: self.id,
            name: self.name@,
            action: self.action@,
            span: self.span,
        }
    }
}

/// The destructions of an exit among the first `n` candidates: those whose declarations were
/// reached.
pub open spec fn due_drops(plan: PlanV, reached: Seq<DropId>, drops: Seq<DropId>, n: nat) -> Result<
    Seq<DropStepV>,
    TrapV,
>
    decreases n,
{
    if n == 0 || n > drops.len() {
        Ok(Seq::empty())
    } else {
        match due_drops(plan, reached, drops, (n - 1) as nat) {
            Err(t) => Err(t),
            Ok(front) => {
                let d = drops[n - 1];
                if !reached.contains(d) {
                    Ok(front)
                } else if d.0 >= plan.candidates.len() {
                    Err(stuck(Span { start: 0, end: 0 }, "drop candidate"@))
                } else {
                    let c = plan.candidates[d.0 as int];
                    if c.place.field is Some {
                        Err(
                            undefined(
                                c.span,
                                "internal lexical cleanup candidate `"@ + c.place.text()
                                    + "` is not a local"@,
                            ),
                        )
                    } else {
                        Ok(
                            front.push(
                                DropStepV {
                                    id: d,
                                    name: c.place.root,
                                    action: c.drop_action,
                                    span: c.span,
                                },
                            ),
                        )
                    }
                }
            },
        }
    }
}

/// The names that an exit clears, among the first `n` places.
pub open spec fn due_clears(clears: Seq<PlaceV>, n: nat) -> Result<Seq<Seq<char>>, TrapV>
    decreases n,
{
    if n == 0 || n > clears.len() {
        Ok(Seq::empty())
    } else {
        match due_clears(clears, (n - 1) as nat) {
            Err(t) => Err(t),
            Ok(front) => if clears[n - 1].field is Some {
                Err(
                    undefined(
                        Span { start: 0, end: 0 },
                        "internal lexical clear `"@ + clears[n - 1].text() + "` is not a local"@,
                    ),
                )
            } else {
                Ok(front.push(clears[n - 1].root))
            },
        }
    }
}

/// The frame without the names from `i` on.
pub open spec fn cleared(f: FrameV, names: Seq<Seq<char>>, i: nat) -> FrameV
    decreases names.len() - i,
{
    if i >= names.len() {
        f
    } else {
        cleared(FrameV { vars: unbind(f.vars, names[i as int]), ..f }, names, i + 1)
    }
}

proof fn lemma_due_drops_fail(
    plan: PlanV,
    reached: Seq<DropId>,
    drops: Seq<DropId>,
    k: nat,
    n: nat,
)
    requires
        k <= n <= drops.len(),
        due_drops(plan, reached, drops, k) is Err,
    ensures
        due_drops(plan, reached, drops, n) == due_drops(plan, reached, drops, k),
    decreases n,
{
    if k < n {
        lemma_due_drops_fail(plan, reached, drops, k, (n - 1) as nat);
    }
}

proof fn lemma_due_clears_fail(clears: Seq<PlaceV>, k: nat, n: nat)
    requires
        k <= n <= clears.len(),
        due_clears(clears, k) is Err,
    ensures
        due_clears(clears, n) == due_clears(clears, k),
    decreases n,
{
    if k < n {
        lemma_due_clears_fail(clears, k, (n - 1) as nat);
    }
}

pub open spec fn resolves<T: View>(r: Result<Vec<T>, Trap>, s: Result<Seq<T::V>, TrapV>) -> bool {
    match (r, s) {
        (Ok(x), Ok(v)) => views(x@) == v,
        (Err(e), Err(f)) => e@ == f,
        _ => false,
    }
}

pub fn resolve_drops(plan: &BodyPlan, reached: &Vec<DropId>, drops: &Vec<DropId>) -> (r: Result<
    Vec<DropStep>,
    Trap,
>)
    ensures
        resolves(r, due_drops(plan@, reached@, views(drops@), drops@.len())),
{
    let mut out: Vec<DropStep> = Vec::new();
    let n: usize = drops.len();
    let mut i: usize = 0;
    while i < n
        invariant
            n == drops@.len(),
            i <= n,
            due_drops(plan@, reached@, views(drops@), i as nat) == Ok::<Seq<DropStepV>, TrapV>(
                views(out@),
            ),
        decreases n - i,
    {
        let d = drops[i];
        assert(views(drops@)[i as int] == d);
        if has_drop(reached, d) {
            if d.0 >= plan.candidates.len() {
                proof {
                    lemma_due_drops_fail(
                        plan@,
                        reached@,
                        views(drops@),
                        (i + 1) as nat,
                        n as nat,
                    );
                }
                return Err(Trap::stuck(Span { start: 0, end: 0 }, "drop candidate"));
            }
            let c = plan.candidate(d);
            if !c.place.is_root() {
                proof {
                    lemma_due_drops_fail(
                        plan@,
                        reached@,
                        views(drops@),
                        (i + 1) as nat,
                        n as nat,
                    );
                }
                return Err(
                    Trap::undefined(
                        c.span,
                        cat3(
                            "internal lexical cleanup candidate `",
                            c.place.render().as_str(),
                            "` is not a local",
                        ),
                    ),
                );
            }
            out.push(
                DropStep {
                    id: d,
                    name: owned(c.place.root()),
                    action: c.drop_action.copy(),
                    span: c.span,
                },
            );
        }
        i = i + 1;
    }
    Ok(out)
}

pub fn resolve_clears(clears: &Vec<Place>) -> (r: Result<Vec<String>, Trap>)
    ensures
        resolves(r, due_clears(views(clears@), clears@.len())),
{
    let mut out: Vec<String> = Vec::new();
    let n: usize = clears.len();
    let mut i: usize = 0;
    while i < n
        invariant
            n == clears@.len(),
            i <= n,
            due_clears(views(clears@), i as nat) == Ok::<Seq<Seq<char>>, TrapV>(views(out@)),
        decreases n - i,
    {
        let place = &clears[i];
        assert(views(clears@)[i as int] == place@);
        if !place.is_root() {
            proof {
                lemma_due_clears_fail(views(clears@), (i + 1) as nat, n as nat);
            }
            return Err(
                Trap::undefined(
                    Span { start: 0, end: 0 },
                    cat3("internal lexical clear `", place.render().as_str(), "` is not a local"),
                ),
            );
        }
        out.push(owned(place.root()));
        i = i + 1;
    }
    Ok(out)
}

impl Frame {
    pub fn clear(&mut self, names: &Vec<String>)
        ensures
            final(self)@ == cleared(old(self)@, views(names@), 0),
            final(self)@.vars.len() <= old(self)@.vars.len(),
    {
        let n: usize = names.len();
        let mut i: usize = 0;
        while i < n
            invariant
                n == names@.len(),
                i <= n,
                self@.vars.len() <= old(self)@.vars.len(),
                cleared(old(self)@, views(names@), 0) == cleared(self@, views(names@), i as nat),
            decreases n - i,
        {
            assert(views(names@)[i as int] == names@[i as int]@);
            proof {
                lemma_unbind_len(self@.vars, names@[i as int]@);
            }
            take(&mut self.vars, names[i].as_str());
            i = i + 1;
        }
    }
}

} // verus!
