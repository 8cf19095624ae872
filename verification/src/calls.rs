//! Calls of functions, initializers and methods.
use vstd::prelude::*;

use crate::ast::FnDecl;
use crate::callable::{find_init, find_method};
use crate::interp::{Flow, acts};
use crate::machine::{in_order, Interp, Machine};
use crate::repr::{group_views, views};
use crate::semantics::{
    call, construct, enter_function, enter_init, enter_method, frame_exit, invoke, leave_init,
    leave_method,
};
use crate::span::Span;
use crate::value::{RtVal, Trap};

verus! {

broadcast use group_views;

impl<'a> Interp<'a> {
    // --------------------------------------------------------------------------------------
    // Calls
    // --------------------------------------------------------------------------------------

    pub fn call(&self, g: &FnDecl, args: &Vec<RtVal>, m: &mut Machine) -> (r: Result<RtVal, Trap>)
        requires
            self.control@.wf(),
        ensures
            acts(r, final(m)@, call(self@, *g, views(args@), old(m)@)),
            final(m)@.fuel <= old(m)@.fuel,
            in_order(old(m)@, final(m)@),
        decreases old(m)@.fuel, 2nat, 0nat, 0nat, 0nat,
    {
        let x = match self.enter_function(g, args, m) {
            Err(t) => {
                return Err(t);
            },
            Ok(x) => x,
        };
        let plan = x.plan;
        let mut frame = x.frame;
        let result: RtVal = match self.exec_body(&g.body, plan, m, &mut frame) {
            Err(t) => {
                return Err(t);
            },
            Ok(Flow::Return(v)) => v,
            Ok(Flow::Normal) => RtVal::Unit,
        };
        match m.check_clauses(
            &frame,
            &g.posts,
            Some(&result),
            Self::post_text(g.name.as_str()).as_str(),
        ) {
            Err(t) => {
                return Err(t);
            },
            Ok(_) => {},
        }
        match self.cleanup_route(&Self::frame_exit(plan), plan, m, &mut frame) {
            Err(t) => Err(t),
            Ok(_) => Ok(result),
        }
    }

    pub fn construct(
        &self,
        ci: usize,
        init_name: &str,
        args: &Vec<RtVal>,
        span: Span,
        m: &mut Machine,
    ) -> (r: Result<RtVal, Trap>)
        requires
            self.control@.wf(),
        ensures
            acts(r, final(m)@, construct(self@, ci, init_name@, views(args@), span, old(m)@)),
            final(m)@.fuel <= old(m)@.fuel,
            in_order(old(m)@, final(m)@),
        decreases old(m)@.fuel, 2nat, 0nat, 0nat, 0nat,
    {
        match m.burn(span) {
            Err(t) => {
                return Err(t);
            },
            Ok(_) => {},
        }
        if ci >= self.classes.len() {
            return Err(Trap::stuck(span, "class"));
        }
        let class = &self.classes[ci];
        let g: &FnDecl = match find_init(class, init_name) {
            None => {
                return Err(Trap::stuck(span, "initializer"));
            },
            Some(k) => &class.inits[k],
        };
        let id: usize = m.heap.objects.len();
        assert(id == m@.heap.objects.len());
        let x = match self.enter_init(ci, g, args, m) {
            Err(t) => {
                return Err(t);
            },
            Ok(x) => x,
        };
        let plan = x.plan;
        let mut frame = x.frame;
        match self.exec_body(&g.body, plan, m, &mut frame) {
            Err(t) => {
                return Err(t);
            },
            Ok(_) => {},
        }
        match self.leave_init(class, g, id, m, &frame) {
            Err(t) => {
                return Err(t);
            },
            Ok(_) => {},
        }
        match self.cleanup_route(&Self::frame_exit(plan), plan, m, &mut frame) {
            Err(t) => Err(t),
            Ok(_) => Ok(RtVal::Obj { class: ci, fields: id }),
        }
    }

    pub fn invoke(
        &self,
        ci: usize,
        method: &str,
        id: usize,
        args: &Vec<RtVal>,
        span: Span,
        m: &mut Machine,
    ) -> (r: Result<RtVal, Trap>)
        requires
            self.control@.wf(),
        ensures
            acts(
                r,
                final(m)@,
                invoke(self@, ci, method@, id, views(args@), span, old(m)@),
            ),
            final(m)@.fuel <= old(m)@.fuel,
            in_order(old(m)@, final(m)@),
        decreases old(m)@.fuel, 2nat, 0nat, 0nat, 0nat,
    {
        if ci >= self.classes.len() {
            return Err(Trap::stuck(span, "class"));
        }
        let class = &self.classes[ci];
        let k: usize = match find_method(class, method) {
            None => {
                return Err(Trap::stuck(span, "method"));
            },
            Some(k) => k,
        };
        let kind = class.methods[k].self_kind;
        let g: &FnDecl = &class.methods[k].f;
        let x = match self.enter_method(ci, g, id, args, m) {
            Err(t) => {
                return Err(t);
            },
            Ok(x) => x,
        };
        let plan = x.plan;
        let mut frame = x.frame;
        let result: RtVal = match self.exec_body(&g.body, plan, m, &mut frame) {
            Err(t) => {
                return Err(t);
            },
            Ok(Flow::Return(v)) => v,
            Ok(Flow::Normal) => RtVal::Unit,
        };
        match self.leave_method(class, kind, g, id, &result, m, &frame) {
            Err(t) => {
                return Err(t);
            },
            Ok(_) => {},
        }
        match self.cleanup_route(&Self::frame_exit(plan), plan, m, &mut frame) {
            Err(t) => Err(t),
            Ok(_) => Ok(result),
        }
    }
}

} // verus!
