//! Entering and leaving a callable.
use vstd::prelude::*;

use crate::ast::{ClassDecl, FnDecl, RecordDecl, SelfKind};
use crate::bindings::{Binding, put};
use crate::drops::ExitRoute;
use crate::interp::acts;
use crate::machine::{Frame, Interp, MachV, Machine, only_skips};
use crate::place::CallOwner;
use crate::plan::{BodyPlan, PlanV};
use crate::repr::{group_views, views};
use crate::semantics::{
    EntryV, admitted, class_at, contract_text, enter_function, enter_init, enter_method, fn_at,
    frame_exit, init_at, leave_init, leave_method, method_at, plan_for, record_at, record_fields,
};
use crate::text::{cat2, cat3, same_text};
use crate::value::{RtVal, Trap, TrapV, control_plan_trap, yields};

verus! {

broadcast use group_views;

/// A callable about to run: its plan and its frame.
pub struct Entry<'a> {
    pub plan: &'a BodyPlan,
    pub frame: Frame,
}

impl<'a> Entry<'a> {
    pub open spec fn view(&self) -> EntryV {
        EntryV { plan: self.plan@, frame: self.frame@ }
    }
}

pub open spec fn enters(r: Result<Entry, Trap>, m: MachV, s: (Result<EntryV, TrapV>, MachV)) -> bool {
    m == s.1 && match (r, s.0) {
        (Ok(x), Ok(v)) => x@ == v && x.plan@.wf(),
        (Err(e), Err(t)) => e@ == t,
        _ => false,
    }
}

// ------------------------------------------------------------------------------------------
// Declarations
// ------------------------------------------------------------------------------------------

pub fn find_fn(fns: &Vec<FnDecl>, name: &str) -> (r: Option<usize>)
    ensures
        match fn_at(fns@, name@, fns@.len()) {
            Some(i) => r == Some(i as usize) && i < fns@.len() && i <= usize::MAX,
            None => r is None,
        },
{
    let mut n: usize = fns.len();
    assert(fns.len() == fns@.len());
    while n > 0
        invariant
            n <= fns@.len(),
            fns@.len() <= usize::MAX,
            fn_at(fns@, name@, fns@.len()) == fn_at(fns@, name@, n as nat),
        decreases n,
    {
        if same_text(fns[n - 1].name.as_str(), name) {
            return Some(n - 1);
        }
        n = n - 1;
    }
    None
}

pub fn find_class(classes: &Vec<ClassDecl>, name: &str) -> (r: Option<usize>)
    ensures
        match class_at(classes@, name@, 0) {
            Some(i) => r == Some(i as usize) && i < classes@.len() && i <= usize::MAX,
            None => r is None,
        },
{
    let n: usize = classes.len();
    let mut i: usize = 0;
    while i < n
        invariant
            n == classes@.len(),
            i <= n,
            class_at(classes@, name@, 0) == class_at(classes@, name@, i as nat),
        decreases n - i,
    {
        if same_text(classes[i].name.as_str(), name) {
            return Some(i);
        }
        i = i + 1;
    }
    None
}

pub fn find_record(records: &Vec<RecordDecl>, name: &str) -> (r: Option<usize>)
    ensures
        match record_at(records@, name@, 0) {
            Some(i) => r == Some(i as usize) && i < records@.len() && i <= usize::MAX,
            None => r is None,
        },
{
    let n: usize = records.len();
    let mut i: usize = 0;
    while i < n
        invariant
            n == records@.len(),
            i <= n,
            record_at(records@, name@, 0) == record_at(records@, name@, i as nat),
        decreases n - i,
    {
        if same_text(records[i].name.as_str(), name) {
            return Some(i);
        }
        i = i + 1;
    }
    None
}

pub fn find_init(class: &ClassDecl, name: &str) -> (r: Option<usize>)
    ensures
        match init_at(*class, name@, 0) {
            Some(i) => r == Some(i as usize) && i < class.inits@.len() && i <= usize::MAX,
            None => r is None,
        },
{
    let n: usize = class.inits.len();
    let mut i: usize = 0;
    while i < n
        invariant
            n == class.inits@.len(),
            i <= n,
            init_at(*class, name@, 0) == init_at(*class, name@, i as nat),
        decreases n - i,
    {
        if same_text(class.inits[i].name.as_str(), name) {
            return Some(i);
        }
        i = i + 1;
    }
    None
}

pub fn find_method(class: &ClassDecl, name: &str) -> (r: Option<usize>)
    ensures
        match method_at(*class, name@, 0) {
            Some(i) => r == Some(i as usize) && i < class.methods@.len() && i <= usize::MAX,
            None => r is None,
        },
{
    let n: usize = class.methods.len();
    let mut i: usize = 0;
    while i < n
        invariant
            n == class.methods@.len(),
            i <= n,
            method_at(*class, name@, 0) == method_at(*class, name@, i as nat),
        decreases n - i,
    {
        if same_text(class.methods[i].f.name.as_str(), name) {
            return Some(i);
        }
        i = i + 1;
    }
    None
}

pub fn name_fields(r: &RecordDecl, vals: Vec<RtVal>) -> (out: Vec<Binding<RtVal>>)
    requires
        vals@.len() <= r.fields@.len(),
    ensures
        views(out@) == record_fields(*r, views(vals@), vals@.len()),
{
    let mut out: Vec<Binding<RtVal>> = Vec::new();
    let n: usize = vals.len();
    let mut i: usize = 0;
    while i < n
        invariant
            n == vals@.len(),
            n <= r.fields@.len(),
            i <= n,
            views(out@) == record_fields(*r, views(vals@), i as nat),
        decreases n - i,
    {
        assert(views(vals@)[i as int] == vals@[i as int]@);
        put(&mut out, r.fields[i].name.as_str(), vals[i].duplicate());
        i = i + 1;
    }
    out
}

impl<'a> Interp<'a> {
    /// The plans that a run follows are well formed.
    pub open spec fn ready(&self, plan: PlanV) -> bool {
        self.control@.wf() && plan.wf()
    }

    // --------------------------------------------------------------------------------------
    // Entering and leaving a callable
    // --------------------------------------------------------------------------------------

    pub fn plan_for(&self, owner: &CallOwner, g: &FnDecl) -> (r: Result<&'a BodyPlan, Trap>)
        requires
            self.control@.wf(),
        ensures
            yields(r, plan_for(self@, owner@, *g)),
            r matches Ok(p) ==> p@.wf(),
    {
        proof {
            reveal(plan_for);
        }
        let control = self.control;
        match control.body(owner, g.span) {
            Err(e) => Err(control_plan_trap(e)),
            Ok(b) => match b.validate_callable(g.span, g.params.as_slice(), g.body.as_slice()) {
                Err(e) => Err(control_plan_trap(e)),
                Ok(_) => Ok(b.plan()),
            },
        }
    }

    pub fn check_entry(&self, plan: &'a BodyPlan, frame: Frame, g: &FnDecl, name: &str, m: &mut Machine) -> (r:
        Result<Entry<'a>, Trap>)
        requires
            plan@.wf(),
        ensures
            enters(r, final(m)@, admitted(plan@, frame@, *g, name@, old(m)@)),
            only_skips(old(m)@, final(m)@),
    {
        proof {
            reveal(admitted);
        }
        let what = cat3("pre of `", name, "`");
        proof {
            reveal_strlit("pre");
            reveal_strlit("pre of `");
            reveal_strlit(" of `");
            assert(what@ =~= contract_text("pre"@, name@));
        }
        match m.check_clauses(&frame, &g.pres, None, what.as_str()) {
            Err(t) => Err(t),
            Ok(_) => Ok(Entry { plan, frame }),
        }
    }

    pub fn enter_function(&self, g: &FnDecl, args: &Vec<RtVal>, m: &mut Machine) -> (r: Result<
        Entry<'a>,
        Trap,
    >)
        requires
            self.control@.wf(),
        ensures
            enters(r, final(m)@, enter_function(self@, *g, views(args@), old(m)@)),
            final(m)@.fuel == old(m)@.fuel,
            final(m)@.uart == old(m)@.uart,
    {
        proof {
            reveal(enter_function);
        }
        let plan = match self.plan_for(&CallOwner::Function(g.name.clone()), g) {
            Err(t) => {
                return Err(t);
            },
            Ok(plan) => plan,
        };
        let mut frame = Frame::new(None);
        match frame.bind_arguments(m, &g.params, args) {
            Err(t) => {
                return Err(t);
            },
            Ok(_) => {},
        }
        match frame.arm_params(plan, &g.params) {
            Err(t) => {
                return Err(t);
            },
            Ok(_) => {},
        }
        self.check_entry(plan, frame, g, g.name.as_str(), m)
    }

    pub fn enter_init(&self, ci: usize, g: &FnDecl, args: &Vec<RtVal>, m: &mut Machine) -> (r: Result<
        Entry<'a>,
        Trap,
    >)
        requires
            self.control@.wf(),
            ci < self@.classes.len(),
        ensures
            enters(r, final(m)@, enter_init(self@, ci, *g, views(args@), old(m)@)),
            final(m)@.fuel == old(m)@.fuel,
            final(m)@.uart == old(m)@.uart,
    {
        proof {
            reveal(enter_init);
        }
        let class = &self.classes[ci];
        let plan = match self.plan_for(
            &CallOwner::Constructor { class: class.name.clone(), init: g.name.clone() },
            g,
        ) {
            Err(t) => {
                return Err(t);
            },
            Ok(plan) => plan,
        };
        let none: Vec<Binding<RtVal>> = Vec::new();
        assert(views(none@) =~= Seq::empty());
        let id: usize = m.heap.add_object(none);
        let mut frame = Frame::new(Some((ci, id)));
        match frame.bind_members(m, plan, &g.params, args) {
            Err(t) => {
                return Err(t);
            },
            Ok(_) => {},
        }
        let name = cat3(class.name.as_str(), "::", g.name.as_str());
        self.check_entry(plan, frame, g, name.as_str(), m)
    }

    pub fn enter_method(
        &self,
        ci: usize,
        g: &FnDecl,
        id: usize,
        args: &Vec<RtVal>,
        m: &mut Machine,
    ) -> (r: Result<Entry<'a>, Trap>)
        requires
            self.control@.wf(),
            ci < self@.classes.len(),
        ensures
            enters(r, final(m)@, enter_method(self@, ci, *g, id, views(args@), old(m)@)),
            final(m)@.fuel == old(m)@.fuel,
            final(m)@.uart == old(m)@.uart,
    {
        proof {
            reveal(enter_method);
        }
        let class = &self.classes[ci];
        let plan = match self.plan_for(
            &CallOwner::Method { class: class.name.clone(), method: g.name.clone() },
            g,
        ) {
            Err(t) => {
                return Err(t);
            },
            Ok(plan) => plan,
        };
        let copy = match m.heap.deep_copy(&RtVal::Obj { class: ci, fields: id }) {
            None => {
                return Err(Trap::stuck(g.span, "entry copy"));
            },
            Some(copy) => copy,
        };
        let mut frame = Frame::new(Some((ci, id)));
        let entry = m.heap.spec_of(&copy);
        frame.note_old("self", entry);
        match frame.bind_members(m, plan, &g.params, args) {
            Err(t) => {
                return Err(t);
            },
            Ok(_) => {},
        }
        let name = cat3(class.name.as_str(), "::", g.name.as_str());
        self.check_entry(plan, frame, g, name.as_str(), m)
    }

    pub fn post_text(name: &str) -> (r: String)
        ensures
            r@ == contract_text("post"@, name@),
    {
        let what = cat3("post of `", name, "`");
        proof {
            reveal_strlit("post");
            reveal_strlit("post of `");
            reveal_strlit(" of `");
            assert(what@ =~= contract_text("post"@, name@));
        }
        what
    }

    pub fn leave_init(&self, class: &ClassDecl, g: &FnDecl, id: usize, m: &mut Machine, f: &Frame) -> (r:
        Result<(), Trap>)
        ensures
            acts(r, final(m)@, leave_init(*class, *g, id, old(m)@, f@)),
            only_skips(old(m)@, final(m)@),
    {
        proof {
            reveal(leave_init);
        }
        let name = cat3(class.name.as_str(), "::", g.name.as_str());
        match m.check_clauses(f, &g.posts, None, Self::post_text(name.as_str()).as_str()) {
            Err(t) => Err(t),
            Ok(_) => m.check_invariants_at(class, id, cat2(name.as_str(), " exit").as_str()),
        }
    }

    pub fn leave_method(
        &self,
        class: &ClassDecl,
        kind: SelfKind,
        g: &FnDecl,
        id: usize,
        result: &RtVal,
        m: &mut Machine,
        f: &Frame,
    ) -> (r: Result<(), Trap>)
        ensures
            acts(r, final(m)@, leave_method(*class, kind, *g, id, result@, old(m)@, f@)),
            only_skips(old(m)@, final(m)@),
    {
        proof {
            reveal(leave_method);
        }
        let name = cat3(class.name.as_str(), "::", g.name.as_str());
        if kind == SelfKind::Mut {
            match m.check_invariants_at(class, id, cat2(name.as_str(), " exit").as_str()) {
                Err(t) => {
                    return Err(t);
                },
                Ok(_) => {},
            }
        }
        m.check_clauses(
            f,
            &g.posts,
            Some(result),
            Self::post_text(name.as_str()).as_str(),
        )
    }

    /// The cleanup of the frame.
    pub fn frame_exit(plan: &BodyPlan) -> (r: ExitRoute)
        requires
            plan@.wf(),
        ensures
            r@ == frame_exit(plan@),
    {
        proof {
            reveal(frame_exit);
        }
        plan.implicit_return().frame
    }
}

} // verus!
