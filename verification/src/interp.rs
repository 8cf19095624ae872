//! The evaluation of expressions and calls.
use vstd::prelude::*;

use crate::ast::{DeviceOp, Expr, ExprKind, FnDecl, ResOp, Ty};
use crate::machine::{
    Frame, FrameV, Interp, MachV, Machine, TrapContext, has_resource_shadow, in_order, source_place,
};
use crate::repr::{group_views, views};
use crate::semantics::{
    FlowV, Out, call, call_args, eval, eval_alloc, eval_array_lit, eval_binary, eval_bool,
    eval_call, eval_class_index, eval_ctor, eval_device, eval_erased, eval_index, eval_int,
    eval_is_some, eval_kind, eval_list, eval_method, eval_moved, eval_narrow, eval_operand,
    eval_opt_value, eval_raw, eval_record, eval_res, eval_self_index, eval_some, eval_unary,
    eval_widen, moved_list, operand_list,
};
use crate::steps::{array_id_of, copy_of, empty_option_of, record_field_of};
use crate::text::cat3;
use crate::value::{RtVal, Trap, TrapV, ValV, yields};

verus! {

broadcast use group_views;

/// How a statement ends.
#[derive(Debug)]
pub enum Flow {
    Normal,
    Return(RtVal),
}

impl View for Flow {
    type V = FlowV;

    open spec fn view(&self) -> FlowV {
        match *self {
            Flow::Normal => FlowV::Normal,
            Flow::Return(v) => FlowV::Return(v@),
        }
    }
}

/// A computed outcome stands for a stated one.
pub open spec fn gives<T: View>(r: Result<T, Trap>, m: MachV, f: FrameV, o: Out<T::V>) -> bool {
    yields(r, o.r) && m == o.m && f == o.f
}

pub open spec fn gives_list(r: Result<Vec<RtVal>, Trap>, m: MachV, f: FrameV, o: Out<
    Seq<ValV>,
>) -> bool {
    m == o.m && f == o.f && match (r, o.r) {
        (Ok(x), Ok(v)) => views(x@) == v,
        (Err(e), Err(t)) => e@ == t,
        _ => false,
    }
}

/// A computed step of the machine stands for a stated one.
pub open spec fn acts<T: View>(r: Result<T, Trap>, m: MachV, s: (Result<T::V, TrapV>, MachV)) -> bool {
    yields(r, s.0) && m == s.1
}

impl<'a> Interp<'a> {
    // --------------------------------------------------------------------------------------
    // Expressions
    // --------------------------------------------------------------------------------------

    pub fn eval(&self, e: &Expr, m: &mut Machine, f: &mut Frame, traps: TrapContext<'_>) -> (r:
        Result<RtVal, Trap>)
        requires
            self.ready(traps@.plan),
        ensures
            gives(r, final(m)@, final(f)@, eval(self@, traps@, *e, old(m)@, old(f)@)),
            final(m)@.fuel <= old(m)@.fuel,
            in_order(old(m)@, final(m)@),
        decreases old(m)@.fuel, 3nat, 0nat, 0nat, 0nat,
    {
        match m.burn(e.span) {
            Err(t) => {
                return Err(t);
            },
            Ok(_) => {},
        }
        match traps.consume_expression(e) {
            Err(t) => {
                return Err(t);
            },
            Ok(_) => {},
        }
        self.eval_kind(e, m, f, traps)
    }

    pub fn eval_int(&self, e: &Expr, m: &mut Machine, f: &mut Frame, traps: TrapContext<'_>) -> (r:
        Result<i128, Trap>)
        requires
            self.ready(traps@.plan),
        ensures
            gives(r, final(m)@, final(f)@, eval_int(self@, traps@, *e, old(m)@, old(f)@)),
            final(m)@.fuel <= old(m)@.fuel,
            in_order(old(m)@, final(m)@),
        decreases old(m)@.fuel, 3nat, 0nat, 1nat, 0nat,
    {
        match self.eval(e, m, f, traps) {
            Err(t) => Err(t),
            Ok(RtVal::Int(n)) => Ok(n),
            Ok(_) => Err(Trap::stuck(e.span, "integer expression")),
        }
    }

    pub fn eval_bool(&self, e: &Expr, m: &mut Machine, f: &mut Frame, traps: TrapContext<'_>) -> (r:
        Result<bool, Trap>)
        requires
            self.ready(traps@.plan),
        ensures
            gives(r, final(m)@, final(f)@, eval_bool(self@, traps@, *e, old(m)@, old(f)@)),
            final(m)@.fuel <= old(m)@.fuel,
            in_order(old(m)@, final(m)@),
        decreases old(m)@.fuel, 3nat, 0nat, 1nat, 0nat,
    {
        match self.eval(e, m, f, traps) {
            Err(t) => Err(t),
            Ok(RtVal::Bool(b)) => Ok(b),
            Ok(_) => Err(Trap::stuck(e.span, "boolean expression")),
        }
    }

    /// Evaluates an expression in a position that takes the value: declarations, assignments,
    /// arguments and returns all transfer ownership the same way.
    pub fn eval_moved(&self, e: &Expr, m: &mut Machine, f: &mut Frame, traps: TrapContext<'_>) -> (r:
        Result<RtVal, Trap>)
        requires
            self.ready(traps@.plan),
        ensures
            gives(r, final(m)@, final(f)@, eval_moved(self@, traps@, *e, old(m)@, old(f)@)),
            final(m)@.fuel <= old(m)@.fuel,
            in_order(old(m)@, final(m)@),
        decreases old(m)@.fuel, 3nat, 0nat, 1nat, 0nat,
    {
        let v = match self.eval(e, m, f, traps) {
            Err(t) => {
                return Err(t);
            },
            Ok(v) => v,
        };
        if matches!(&v, RtVal::Obj { .. } | RtVal::Arr(_) | RtVal::ResMap(_)) {
            match source_place(e) {
                Some(place) => {
                    m.take_place(&place, f);
                },
                None => {},
            }
        }
        Ok(v)
    }

    pub fn eval_erased_resource_arg(
        &self,
        e: &Expr,
        m: &mut Machine,
        f: &mut Frame,
        traps: TrapContext<'_>,
    ) -> (r: Result<(), Trap>)
        requires
            self.ready(traps@.plan),
        ensures
            gives(r, final(m)@, final(f)@, eval_erased(self@, traps@, *e, old(m)@, old(f)@)),
            final(m)@.fuel <= old(m)@.fuel,
            in_order(old(m)@, final(m)@),
        decreases old(m)@.fuel, 3nat, 0nat, 2nat, 0nat,
    {
        match &e.kind {
            ExprKind::Var(_) | ExprKind::Borrow { .. } | ExprKind::SelfField { .. } => Ok(()),
            _ => match self.eval_moved(e, m, f, traps) {
                Err(t) => Err(t),
                Ok(_) => Ok(()),
            },
        }
    }

    pub fn eval_erased_resource_operand(
        &self,
        e: &Expr,
        m: &mut Machine,
        f: &mut Frame,
        traps: TrapContext<'_>,
    ) -> (r: Result<(), Trap>)
        requires
            self.ready(traps@.plan),
        ensures
            gives(r, final(m)@, final(f)@, eval_operand(self@, traps@, *e, old(m)@, old(f)@)),
            final(m)@.fuel <= old(m)@.fuel,
            in_order(old(m)@, final(m)@),
        decreases old(m)@.fuel, 3nat, 0nat, 3nat, 0nat,
    {
        if matches!(&e.ty, Some(Ty::Res(_))) {
            return self.eval_erased_resource_arg(e, m, f, traps);
        }
        match self.eval_moved(e, m, f, traps) {
            Err(t) => Err(t),
            Ok(_) => Ok(()),
        }
    }

    /// The first `limit` expressions, in order.
    pub fn eval_list(
        &self,
        args: &Vec<Expr>,
        limit: usize,
        m: &mut Machine,
        f: &mut Frame,
        traps: TrapContext<'_>,
    ) -> (r: Result<Vec<RtVal>, Trap>)
        requires
            self.ready(traps@.plan),
        ensures
            gives_list(
                r,
                final(m)@,
                final(f)@,
                eval_list(
                    self@,
                    traps@,
                    args@,
                    0,
                    limit as nat,
                    Seq::empty(),
                    old(m)@,
                    old(f)@,
                ),
            ),
            final(m)@.fuel <= old(m)@.fuel,
            in_order(old(m)@, final(m)@),
            r matches Ok(v) ==> v@.len() <= limit,
        decreases old(m)@.fuel, 3nat, 0nat, 4nat, limit as nat,
    {
        let mut out: Vec<RtVal> = Vec::new();
        let n: usize = args.len();
        let mut i: usize = 0;
        let ghost whole = eval_list(
            self@,
            traps@,
            args@,
            0,
            limit as nat,
            Seq::empty(),
            old(m)@,
            old(f)@,
        );
        while i < n && i < limit
            invariant
                self.ready(traps@.plan),
                n == args@.len(),
                i <= n,
                i <= limit,
                out@.len() == i,
                m@.fuel <= old(m)@.fuel,
                in_order(old(m)@, m@),
                whole == eval_list(
            self@,
            traps@,
            args@,
            0,
            limit as nat,
            Seq::empty(),
            old(m)@,
            old(f)@,
        ),
                whole == eval_list(
                    self@,
                    traps@,
                    args@,
                    i as nat,
                    limit as nat,
                    views(out@),
                    m@,
                    f@,
                ),
            decreases n - i,
        {
            match self.eval(&args[i], m, f, traps) {
                Err(t) => {
                    return Err(t);
                },
                Ok(v) => {
                    out.push(v);
                },
            }
            i = i + 1;
        }
        Ok(out)
    }

    pub fn moved_list(
        &self,
        args: &Vec<Expr>,
        m: &mut Machine,
        f: &mut Frame,
        traps: TrapContext<'_>,
    ) -> (r: Result<Vec<RtVal>, Trap>)
        requires
            self.ready(traps@.plan),
        ensures
            gives_list(
                r,
                final(m)@,
                final(f)@,
                moved_list(self@, traps@, args@, 0, Seq::empty(), old(m)@, old(f)@),
            ),
            final(m)@.fuel <= old(m)@.fuel,
            in_order(old(m)@, final(m)@),
        decreases old(m)@.fuel, 3nat, 0nat, 4nat, args@.len(),
    {
        let mut out: Vec<RtVal> = Vec::new();
        let n: usize = args.len();
        let mut i: usize = 0;
        let ghost whole = moved_list(self@, traps@, args@, 0, Seq::empty(), old(m)@, old(f)@);
        while i < n
            invariant
                self.ready(traps@.plan),
                n == args@.len(),
                i <= n,
                m@.fuel <= old(m)@.fuel,
                in_order(old(m)@, m@),
                whole == moved_list(self@, traps@, args@, 0, Seq::empty(), old(m)@, old(f)@),
                whole == moved_list(self@, traps@, args@, i as nat, views(out@), m@, f@),
            decreases n - i,
        {
            match self.eval_moved(&args[i], m, f, traps) {
                Err(t) => {
                    return Err(t);
                },
                Ok(v) => {
                    out.push(v);
                },
            }
            i = i + 1;
        }
        Ok(out)
    }

    pub fn operand_list(
        &self,
        args: &Vec<Expr>,
        m: &mut Machine,
        f: &mut Frame,
        traps: TrapContext<'_>,
    ) -> (r: Result<(), Trap>)
        requires
            self.ready(traps@.plan),
        ensures
            gives(
                r,
                final(m)@,
                final(f)@,
                operand_list(self@, traps@, args@, 0, old(m)@, old(f)@),
            ),
            final(m)@.fuel <= old(m)@.fuel,
            in_order(old(m)@, final(m)@),
        decreases old(m)@.fuel, 3nat, 0nat, 4nat, args@.len(),
    {
        let n: usize = args.len();
        let mut i: usize = 0;
        let ghost whole = operand_list(self@, traps@, args@, 0, old(m)@, old(f)@);
        while i < n
            invariant
                self.ready(traps@.plan),
                n == args@.len(),
                i <= n,
                m@.fuel <= old(m)@.fuel,
                in_order(old(m)@, m@),
                whole == operand_list(self@, traps@, args@, 0, old(m)@, old(f)@),
                whole == operand_list(self@, traps@, args@, i as nat, m@, f@),
            decreases n - i,
        {
            match self.eval_erased_resource_operand(&args[i], m, f, traps) {
                Err(t) => {
                    return Err(t);
                },
                Ok(_) => {},
            }
            i = i + 1;
        }
        Ok(())
    }

    pub fn call_args(
        &self,
        g: &FnDecl,
        args: &Vec<Expr>,
        m: &mut Machine,
        f: &mut Frame,
        traps: TrapContext<'_>,
    ) -> (r: Result<Vec<RtVal>, Trap>)
        requires
            self.ready(traps@.plan),
        ensures
            gives_list(
                r,
                final(m)@,
                final(f)@,
                call_args(self@, traps@, *g, args@, 0, Seq::empty(), old(m)@, old(f)@),
            ),
            final(m)@.fuel <= old(m)@.fuel,
            in_order(old(m)@, final(m)@),
        decreases old(m)@.fuel, 3nat, 0nat, 4nat, args@.len(),
    {
        let mut out: Vec<RtVal> = Vec::new();
        let n: usize = args.len();
        let np: usize = g.params.len();
        let mut i: usize = 0;
        let ghost whole = call_args(
            self@,
            traps@,
            *g,
            args@,
            0,
            Seq::empty(),
            old(m)@,
            old(f)@,
        );
        while i < n && i < np
            invariant
                self.ready(traps@.plan),
                n == args@.len(),
                np == g.params@.len(),
                i <= n,
                m@.fuel <= old(m)@.fuel,
                in_order(old(m)@, m@),
                whole == call_args(
            self@,
            traps@,
            *g,
            args@,
            0,
            Seq::empty(),
            old(m)@,
            old(f)@,
        ),
                whole == call_args(self@, traps@, *g, args@, i as nat, views(out@), m@, f@),
            decreases n - i,
        {
            let ty = &g.params[i].ty;
            if ty.is_resource() && (g.foreign.is_some() || !has_resource_shadow(ty)) {
                match self.eval_erased_resource_arg(&args[i], m, f, traps) {
                    Err(t) => {
                        return Err(t);
                    },
                    Ok(_) => {},
                }
            } else {
                match self.eval_moved(&args[i], m, f, traps) {
                    Err(t) => {
                        return Err(t);
                    },
                    Ok(v) => {
                        out.push(v);
                    },
                }
            }
            i = i + 1;
        }
        Ok(out)
    }

    pub fn eval_kind(&self, e: &Expr, m: &mut Machine, f: &mut Frame, traps: TrapContext<'_>) -> (r:
        Result<RtVal, Trap>)
        requires
            self.ready(traps@.plan),
        ensures
            gives(r, final(m)@, final(f)@, eval_kind(self@, traps@, *e, old(m)@, old(f)@)),
            final(m)@.fuel <= old(m)@.fuel,
            in_order(old(m)@, final(m)@),
        decreases old(m)@.fuel, 4nat, 0nat, 1nat, 0nat,
    {
        match &e.kind {
            ExprKind::SlotOp { op, .. } => Err(
                Trap::undefined(
                    e.span,
                    cat3(
                        "interp.slots_unsupported: `",
                        op.name().as_str(),
                        "` has no interpreter semantics yet",
                    ),
                ),
            ),
            ExprKind::IntLit(n) => Ok(RtVal::Int(*n)),
            ExprKind::BoolLit(b) => Ok(RtVal::Bool(*b)),
            ExprKind::Var(name) => copy_of(f.local(name.as_str()), e.span),
            ExprKind::ResOp { .. } => self.eval_res(e, m, f, traps),
            ExprKind::DeviceOp { .. } => self.eval_device(e, m, f, traps),
            ExprKind::RawOp { .. } => self.eval_raw(e, m, f, traps),
            ExprKind::Len { array } => m.array_len(
                array_id_of(f.local(array.as_str())),
                e.span,
            ),
            ExprKind::Index { .. } => self.eval_index(e, m, f, traps),
            ExprKind::IsSome { .. } => self.eval_is_some(e, m, f, traps),
            ExprKind::OptValue { .. } => self.eval_opt_value(e, m, f, traps),
            ExprKind::OptTake { option, option_span } => f.slot_take(
                option.as_str(),
                *option_span,
                e.span,
            ),
            ExprKind::TraitCall { .. } => Err(Trap::stuck(e.span, "trait call")),
            ExprKind::ClassField { obj, field, .. } => copy_of(
                m.field_of(f.local(obj.as_str()), field.as_str()),
                e.span,
            ),
            ExprKind::RecordField { obj, field, .. } => copy_of(
                record_field_of(f.local(obj.as_str()), field.as_str()),
                e.span,
            ),
            ExprKind::ClassFieldLen { obj, field } => m.array_len(
                array_id_of(m.field_of(f.local(obj.as_str()), field.as_str())),
                e.span,
            ),
            ExprKind::ClassFieldIndex { .. } => self.eval_class_index(e, m, f, traps),
            ExprKind::Widen { .. } => self.eval_widen(e, m, f, traps),
            ExprKind::Narrow { .. } => self.eval_narrow(e, m, f, traps),
            ExprKind::SomeE(_) => self.eval_some(e, m, f, traps),
            ExprKind::NoneE => empty_option_of(&e.ty, e.span),
            ExprKind::ArrayLit(_) => self.eval_array_lit(e, m, f, traps),
            ExprKind::Borrow { array, field, .. } => self.borrow(
                m,
                f,
                array.as_str(),
                field,
                e.span,
            ),
            ExprKind::AllocArray { .. } => self.eval_alloc(e, m, f, traps),
            ExprKind::SelfField { field } => copy_of(m.self_field(f, field.as_str()), e.span),
            ExprKind::SelfFieldLen { field } => m.array_len(
                array_id_of(m.self_field(f, field.as_str())),
                e.span,
            ),
            ExprKind::SelfFieldIndex { .. } => self.eval_self_index(e, m, f, traps),
            ExprKind::CtorCall { .. } => self.eval_ctor(e, m, f, traps),
            ExprKind::RecordLit { .. } => self.eval_record(e, m, f, traps),
            ExprKind::MethodCall { .. } => self.eval_method(e, m, f, traps),
            ExprKind::Unary { .. } => self.eval_unary(e, m, f, traps),
            ExprKind::Binary { .. } => self.eval_binary(e, m, f, traps),
            ExprKind::Call { .. } => self.eval_call(e, m, f, traps),
        }
    }
}

} // verus!
