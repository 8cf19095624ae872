//! The evaluation of each kind of expression.
use vstd::prelude::*;

use crate::ast::{BinOp, DeviceOp, Expr, ExprKind, FnDecl, ResOp, Ty, UnOp};
use crate::callable::{find_class, find_fn, find_record, name_fields};
use crate::devices::call_shim;
use crate::interp::gives;
use crate::machine::{in_order, Frame, Interp, Machine, TrapContext};
use crate::repr::{group_views, opt_view};
use crate::semantics::{
    borrowed, call, call_args, construct, eval, eval_alloc, eval_array_lit, eval_binary,
    eval_bool, eval_call, eval_class_index, eval_ctor, eval_device, eval_index, eval_int,
    eval_is_some, eval_list, eval_map_key, eval_map_put, eval_map_take, eval_method, eval_moved,
    eval_narrow, eval_opt_value, eval_raw, eval_record, eval_res, eval_self_index, eval_some,
    eval_unary, eval_widen, invoke, missing, moved_list, operand_list,
};
use crate::span::Span;
use crate::steps::{
    array_id_of, compare_ints, compute, copy_of, map_id_of, narrow, negate, object_id_of,
    payload_value_of, presence_of, slot_presence_of, wrap_owned_value, wrap_pointer_value,
};
use crate::text::{owned, same_text};
use crate::value::{RtVal, Trap, lemma_record_view, yields};

verus! {

broadcast use group_views;


pub fn missing_operand(e: &Expr) -> (r: Trap)
    ensures
        r@ == missing(*e),
{
    Trap::stuck(e.span, "operand")
}

impl<'a> Interp<'a> {
    pub fn borrow(&self, m: &Machine, f: &Frame, base: &str, field: &Option<String>, span: Span) -> (r:
        Result<RtVal, Trap>)
        ensures
            yields(r, borrowed(m@, f@, base@, opt_view(*field), span)),
    {
        let held = if same_text(base, "self") {
            match f.self_ctx {
                None => Err(Trap::stuck(span, "absent value")),
                Some((class, fields)) => Ok(RtVal::Obj { class, fields }),
            }
        } else {
            copy_of(f.local(base), span)
        };
        let v = match held {
            Err(t) => {
                return Err(t);
            },
            Ok(v) => v,
        };
        match field {
            None => Ok(v),
            Some(name) => copy_of(m.field_of(Some(&v), name.as_str()), span),
        }
    }

    pub fn eval_res(&self, e: &Expr, m: &mut Machine, f: &mut Frame, traps: TrapContext<'_>) -> (r:
        Result<RtVal, Trap>)
        requires
            self.ready(traps@.plan),
        ensures
            gives(r, final(m)@, final(f)@, eval_res(self@, traps@, *e, old(m)@, old(f)@)),
            final(m)@.fuel <= old(m)@.fuel,
            in_order(old(m)@, final(m)@),
        decreases old(m)@.fuel, 4nat, 0nat, 0nat, 0nat,
    {
        let (op, args) = match &e.kind {
            ExprKind::ResOp { op, args } => (*op, args),
            _ => {
                return Err(missing_operand(e));
            },
        };
        match op {
            ResOp::TestWorld => {
                if args.len() < 1 {
                    return Err(missing_operand(e));
                }
                match self.eval_int(&args[0], m, f, traps) {
                    Err(t) => {
                        return Err(t);
                    },
                    Ok(script) => {
                        m.select_world(script);
                    },
                }
                Ok(RtVal::Unit)
            },
            ResOp::TestUart => {
                if m.uart.is_some() {
                    return Err(
                        Trap::undefined(
                            e.span,
                            owned("test_uart: a UART profile is already selected"),
                        ),
                    );
                }
                if args.len() < 1 {
                    return Err(missing_operand(e));
                }
                match self.eval_int(&args[0], m, f, traps) {
                    Err(t) => {
                        return Err(t);
                    },
                    Ok(script) => {
                        m.select_uart(script);
                    },
                }
                Ok(RtVal::Unit)
            },
            ResOp::OpenFileOf => {
                if args.len() < 2 {
                    return Err(missing_operand(e));
                }
                match self.eval_erased_resource_arg(&args[0], m, f, traps) {
                    Err(t) => {
                        return Err(t);
                    },
                    Ok(_) => {},
                }
                let fd: i128 = match self.eval_int(&args[1], m, f, traps) {
                    Err(t) => {
                        return Err(t);
                    },
                    Ok(fd) => fd,
                };
                match m.adopt(fd, e.span) {
                    Err(t) => Err(t),
                    Ok(_) => Ok(RtVal::Unit),
                }
            },
            ResOp::ResourceMapEmpty => Ok(RtVal::ResMap(m.heap.add_map())),
            ResOp::ResourceMapTake => self.eval_map_take(e, args, m, f, traps),
            ResOp::ResourceMapPut => self.eval_map_put(e, args, m, f, traps),
            _ => match self.operand_list(args, m, f, traps) {
                Err(t) => Err(t),
                Ok(_) => Ok(RtVal::Unit),
            },
        }
    }

    pub fn eval_map_key(
        &self,
        e: &Expr,
        args: &Vec<Expr>,
        m: &mut Machine,
        f: &mut Frame,
        traps: TrapContext<'_>,
    ) -> (r: Result<(usize, i128), Trap>)
        requires
            self.ready(traps@.plan),
        ensures
            gives(
                r,
                final(m)@,
                final(f)@,
                eval_map_key(self@, traps@, *e, args@, old(m)@, old(f)@),
            ),
            final(m)@.fuel <= old(m)@.fuel,
            in_order(old(m)@, final(m)@),
        decreases old(m)@.fuel, 3nat, 0nat, 5nat, 0nat,
    {
        if args.len() < 2 {
            return Err(missing_operand(e));
        }
        let v = match self.eval(&args[0], m, f, traps) {
            Err(t) => {
                return Err(t);
            },
            Ok(v) => v,
        };
        let id: usize = match map_id_of(&v) {
            None => {
                return Err(Trap::stuck(e.span, "resource map"));
            },
            Some(id) => id,
        };
        match self.eval_int(&args[1], m, f, traps) {
            Err(t) => Err(t),
            Ok(key) => Ok((id, key)),
        }
    }

    pub fn eval_map_take(
        &self,
        e: &Expr,
        args: &Vec<Expr>,
        m: &mut Machine,
        f: &mut Frame,
        traps: TrapContext<'_>,
    ) -> (r: Result<RtVal, Trap>)
        requires
            self.ready(traps@.plan),
        ensures
            gives(
                r,
                final(m)@,
                final(f)@,
                eval_map_take(self@, traps@, *e, args@, old(m)@, old(f)@),
            ),
            final(m)@.fuel <= old(m)@.fuel,
            in_order(old(m)@, final(m)@),
        decreases old(m)@.fuel, 3nat, 0nat, 6nat, 0nat,
    {
        let (id, key) = match self.eval_map_key(e, args, m, f, traps) {
            Err(t) => {
                return Err(t);
            },
            Ok(x) => x,
        };
        match m.map_take(id, key, e.span) {
            Err(t) => Err(t),
            Ok(_) => Ok(RtVal::Unit),
        }
    }

    pub fn eval_map_put(
        &self,
        e: &Expr,
        args: &Vec<Expr>,
        m: &mut Machine,
        f: &mut Frame,
        traps: TrapContext<'_>,
    ) -> (r: Result<RtVal, Trap>)
        requires
            self.ready(traps@.plan),
        ensures
            gives(
                r,
                final(m)@,
                final(f)@,
                eval_map_put(self@, traps@, *e, args@, old(m)@, old(f)@),
            ),
            final(m)@.fuel <= old(m)@.fuel,
            in_order(old(m)@, final(m)@),
        decreases old(m)@.fuel, 3nat, 0nat, 6nat, 0nat,
    {
        if args.len() < 3 {
            return Err(missing_operand(e));
        }
        let (id, key) = match self.eval_map_key(e, args, m, f, traps) {
            Err(t) => {
                return Err(t);
            },
            Ok(x) => x,
        };
        match self.eval_erased_resource_arg(&args[2], m, f, traps) {
            Err(t) => {
                return Err(t);
            },
            Ok(_) => {},
        }
        match m.map_put(id, key, e.span) {
            Err(t) => Err(t),
            Ok(_) => Ok(RtVal::Unit),
        }
    }

    pub fn eval_device(&self, e: &Expr, m: &mut Machine, f: &mut Frame, traps: TrapContext<'_>) -> (r:
        Result<RtVal, Trap>)
        requires
            self.ready(traps@.plan),
        ensures
            gives(r, final(m)@, final(f)@, eval_device(self@, traps@, *e, old(m)@, old(f)@)),
            final(m)@.fuel <= old(m)@.fuel,
            in_order(old(m)@, final(m)@),
        decreases old(m)@.fuel, 4nat, 0nat, 0nat, 0nat,
    {
        match &e.kind {
            ExprKind::DeviceOp { op: DeviceOp::UartStatus, .. } => m.uart_status(e.span),
            ExprKind::DeviceOp { op: DeviceOp::UartWrite, args } => {
                if m.uart.is_none() {
                    return Err(
                        Trap::undefined(e.span, owned("uart_write: no UART profile selected")),
                    );
                }
                if args.len() < 1 {
                    return Err(missing_operand(e));
                }
                match self.eval_int(&args[0], m, f, traps) {
                    Err(t) => Err(t),
                    Ok(byte) => m.uart_write(byte, e.span),
                }
            },
            _ => Err(missing_operand(e)),
        }
    }

    pub fn eval_raw(&self, e: &Expr, m: &mut Machine, f: &mut Frame, traps: TrapContext<'_>) -> (r:
        Result<RtVal, Trap>)
        requires
            self.ready(traps@.plan),
        ensures
            gives(r, final(m)@, final(f)@, eval_raw(self@, traps@, *e, old(m)@, old(f)@)),
            final(m)@.fuel <= old(m)@.fuel,
            in_order(old(m)@, final(m)@),
        decreases old(m)@.fuel, 4nat, 0nat, 0nat, 0nat,
    {
        match &e.kind {
            ExprKind::RawOp { op, args } => {
                assert(args.len() == args@.len());
                match self.eval_list(args, args.len(), m, f, traps) {
                    Err(t) => Err(t),
                    Ok(vals) => m.raw.step(self.records.as_slice(), *op, &vals, e.span),
                }
            },
            _ => Err(missing_operand(e)),
        }
    }

    pub fn eval_index(&self, e: &Expr, m: &mut Machine, f: &mut Frame, traps: TrapContext<'_>) -> (r:
        Result<RtVal, Trap>)
        requires
            self.ready(traps@.plan),
        ensures
            gives(r, final(m)@, final(f)@, eval_index(self@, traps@, *e, old(m)@, old(f)@)),
            final(m)@.fuel <= old(m)@.fuel,
            in_order(old(m)@, final(m)@),
        decreases old(m)@.fuel, 4nat, 0nat, 0nat, 0nat,
    {
        match &e.kind {
            ExprKind::Index { array, index, .. } => match self.eval_int(index, m, f, traps) {
                Err(t) => Err(t),
                Ok(idx) => m.array_get(array_id_of(f.local(array.as_str())), idx, e.span),
            },
            _ => Err(missing_operand(e)),
        }
    }

    pub fn eval_is_some(&self, e: &Expr, m: &mut Machine, f: &mut Frame, traps: TrapContext<'_>) -> (r:
        Result<RtVal, Trap>)
        requires
            self.ready(traps@.plan),
        ensures
            gives(r, final(m)@, final(f)@, eval_is_some(self@, traps@, *e, old(m)@, old(f)@)),
            final(m)@.fuel <= old(m)@.fuel,
            in_order(old(m)@, final(m)@),
        decreases old(m)@.fuel, 4nat, 0nat, 0nat, 0nat,
    {
        match &e.kind {
            ExprKind::IsSome { operand } => {
                let slot = match &operand.kind {
                    ExprKind::Var(name) => slot_presence_of(f.local(name.as_str())),
                    _ => None,
                };
                match slot {
                    Some(b) => Ok(RtVal::Bool(b)),
                    None => match self.eval(operand, m, f, traps) {
                        Err(t) => Err(t),
                        Ok(v) => presence_of(&v, e.span),
                    },
                }
            },
            _ => Err(missing_operand(e)),
        }
    }

    pub fn eval_opt_value(&self, e: &Expr, m: &mut Machine, f: &mut Frame, traps: TrapContext<'_>) -> (r:
        Result<RtVal, Trap>)
        requires
            self.ready(traps@.plan),
        ensures
            gives(
                r,
                final(m)@,
                final(f)@,
                eval_opt_value(self@, traps@, *e, old(m)@, old(f)@),
            ),
            final(m)@.fuel <= old(m)@.fuel,
            in_order(old(m)@, final(m)@),
        decreases old(m)@.fuel, 4nat, 0nat, 0nat, 0nat,
    {
        match &e.kind {
            ExprKind::OptValue { operand } => match self.eval(operand, m, f, traps) {
                Err(t) => Err(t),
                Ok(v) => payload_value_of(v, e.span),
            },
            _ => Err(missing_operand(e)),
        }
    }

    pub fn eval_class_index(
        &self,
        e: &Expr,
        m: &mut Machine,
        f: &mut Frame,
        traps: TrapContext<'_>,
    ) -> (r: Result<RtVal, Trap>)
        requires
            self.ready(traps@.plan),
        ensures
            gives(
                r,
                final(m)@,
                final(f)@,
                eval_class_index(self@, traps@, *e, old(m)@, old(f)@),
            ),
            final(m)@.fuel <= old(m)@.fuel,
            in_order(old(m)@, final(m)@),
        decreases old(m)@.fuel, 4nat, 0nat, 0nat, 0nat,
    {
        match &e.kind {
            ExprKind::ClassFieldIndex { obj, field, index, .. } => {
                match array_id_of(m.field_of(f.local(obj.as_str()), field.as_str())) {
                    None => Err(Trap::stuck(e.span, "array field")),
                    Some(id) => match self.eval_int(index, m, f, traps) {
                        Err(t) => Err(t),
                        Ok(idx) => m.array_get(Some(id), idx, e.span),
                    },
                }
            },
            _ => Err(missing_operand(e)),
        }
    }

    pub fn eval_self_index(
        &self,
        e: &Expr,
        m: &mut Machine,
        f: &mut Frame,
        traps: TrapContext<'_>,
    ) -> (r: Result<RtVal, Trap>)
        requires
            self.ready(traps@.plan),
        ensures
            gives(
                r,
                final(m)@,
                final(f)@,
                eval_self_index(self@, traps@, *e, old(m)@, old(f)@),
            ),
            final(m)@.fuel <= old(m)@.fuel,
            in_order(old(m)@, final(m)@),
        decreases old(m)@.fuel, 4nat, 0nat, 0nat, 0nat,
    {
        match &e.kind {
            ExprKind::SelfFieldIndex { field, index } => match self.eval_int(index, m, f, traps) {
                Err(t) => Err(t),
                Ok(idx) => m.array_get(
                    array_id_of(m.self_field(f, field.as_str())),
                    idx,
                    e.span,
                ),
            },
            _ => Err(missing_operand(e)),
        }
    }

    pub fn eval_widen(&self, e: &Expr, m: &mut Machine, f: &mut Frame, traps: TrapContext<'_>) -> (r:
        Result<RtVal, Trap>)
        requires
            self.ready(traps@.plan),
        ensures
            gives(r, final(m)@, final(f)@, eval_widen(self@, traps@, *e, old(m)@, old(f)@)),
            final(m)@.fuel <= old(m)@.fuel,
            in_order(old(m)@, final(m)@),
        decreases old(m)@.fuel, 4nat, 0nat, 0nat, 0nat,
    {
        match &e.kind {
            ExprKind::Widen { arg, .. } => self.eval(arg, m, f, traps),
            _ => Err(missing_operand(e)),
        }
    }

    pub fn eval_narrow(&self, e: &Expr, m: &mut Machine, f: &mut Frame, traps: TrapContext<'_>) -> (r:
        Result<RtVal, Trap>)
        requires
            self.ready(traps@.plan),
        ensures
            gives(r, final(m)@, final(f)@, eval_narrow(self@, traps@, *e, old(m)@, old(f)@)),
            final(m)@.fuel <= old(m)@.fuel,
            in_order(old(m)@, final(m)@),
        decreases old(m)@.fuel, 4nat, 0nat, 0nat, 0nat,
    {
        match &e.kind {
            ExprKind::Narrow { target, arg } => match self.eval_int(arg, m, f, traps) {
                Err(t) => Err(t),
                Ok(v) => narrow(v, *target, e.span),
            },
            _ => Err(missing_operand(e)),
        }
    }

    pub fn eval_some(&self, e: &Expr, m: &mut Machine, f: &mut Frame, traps: TrapContext<'_>) -> (r:
        Result<RtVal, Trap>)
        requires
            self.ready(traps@.plan),
        ensures
            gives(r, final(m)@, final(f)@, eval_some(self@, traps@, *e, old(m)@, old(f)@)),
            final(m)@.fuel <= old(m)@.fuel,
            in_order(old(m)@, final(m)@),
        decreases old(m)@.fuel, 4nat, 0nat, 0nat, 0nat,
    {
        let (inner, option) = match (&e.kind, &e.ty) {
            (ExprKind::SomeE(inner), Some(option)) => (inner, option),
            _ => {
                return Err(Trap::stuck(e.span, "option construction"));
            },
        };
        if option.is_affine_option() {
            return match self.eval_moved(inner, m, f, traps) {
                Err(t) => Err(t),
                Ok(v) => wrap_owned_value(v, e.span),
            };
        }
        match option {
            Ty::Option(payload) => match self.eval(inner, m, f, traps) {
                Err(t) => Err(t),
                Ok(v) => Ok(
                    RtVal::Opt { payload: (&**payload).clone(), value: Some(Box::new(v)) },
                ),
            },
            Ty::OptionRaw(_) => match self.eval(inner, m, f, traps) {
                Err(t) => Err(t),
                Ok(v) => wrap_pointer_value(v, e.span),
            },
            _ => Err(Trap::stuck(e.span, "option construction")),
        }
    }

    pub fn eval_array_lit(&self, e: &Expr, m: &mut Machine, f: &mut Frame, traps: TrapContext<'_>) -> (r:
        Result<RtVal, Trap>)
        requires
            self.ready(traps@.plan),
        ensures
            gives(
                r,
                final(m)@,
                final(f)@,
                eval_array_lit(self@, traps@, *e, old(m)@, old(f)@),
            ),
            final(m)@.fuel <= old(m)@.fuel,
            in_order(old(m)@, final(m)@),
        decreases old(m)@.fuel, 4nat, 0nat, 0nat, 0nat,
    {
        match (&e.kind, &e.ty) {
            (ExprKind::ArrayLit(elems), Some(Ty::Array(payload))) => {
                assert(elems.len() == elems@.len());
                match self.eval_list(elems, elems.len(), m, f, traps) {
                    Err(t) => Err(t),
                    Ok(values) => m.literal_array((&**payload).clone(), values, e.span),
                }
            },
            _ => Err(Trap::stuck(e.span, "array literal")),
        }
    }

    pub fn eval_alloc(&self, e: &Expr, m: &mut Machine, f: &mut Frame, traps: TrapContext<'_>) -> (r:
        Result<RtVal, Trap>)
        requires
            self.ready(traps@.plan),
        ensures
            gives(r, final(m)@, final(f)@, eval_alloc(self@, traps@, *e, old(m)@, old(f)@)),
            final(m)@.fuel <= old(m)@.fuel,
            in_order(old(m)@, final(m)@),
        decreases old(m)@.fuel, 4nat, 0nat, 0nat, 0nat,
    {
        match &e.kind {
            ExprKind::AllocArray { elem, len, init } => {
                let n: i128 = match self.eval_int(len, m, f, traps) {
                    Err(t) => {
                        return Err(t);
                    },
                    Ok(n) => n,
                };
                match self.eval(init, m, f, traps) {
                    Err(t) => Err(t),
                    Ok(v) => m.allocate_array(elem.clone(), n, v, e.span),
                }
            },
            _ => Err(missing_operand(e)),
        }
    }

    pub fn eval_ctor(&self, e: &Expr, m: &mut Machine, f: &mut Frame, traps: TrapContext<'_>) -> (r:
        Result<RtVal, Trap>)
        requires
            self.ready(traps@.plan),
        ensures
            gives(r, final(m)@, final(f)@, eval_ctor(self@, traps@, *e, old(m)@, old(f)@)),
            final(m)@.fuel <= old(m)@.fuel,
            in_order(old(m)@, final(m)@),
        decreases old(m)@.fuel, 4nat, 0nat, 0nat, 0nat,
    {
        match &e.kind {
            ExprKind::CtorCall { class, init, args, .. } => {
                let ci: usize = match find_class(self.classes, class.as_str()) {
                    None => {
                        return Err(Trap::stuck(e.span, "class"));
                    },
                    Some(ci) => ci,
                };
                match self.moved_list(args, m, f, traps) {
                    Err(t) => Err(t),
                    Ok(vals) => self.construct(ci, init.as_str(), &vals, e.span, m),
                }
            },
            _ => Err(missing_operand(e)),
        }
    }

    pub fn eval_record(&self, e: &Expr, m: &mut Machine, f: &mut Frame, traps: TrapContext<'_>) -> (r:
        Result<RtVal, Trap>)
        requires
            self.ready(traps@.plan),
        ensures
            gives(r, final(m)@, final(f)@, eval_record(self@, traps@, *e, old(m)@, old(f)@)),
            final(m)@.fuel <= old(m)@.fuel,
            in_order(old(m)@, final(m)@),
        decreases old(m)@.fuel, 4nat, 0nat, 0nat, 0nat,
    {
        broadcast use lemma_record_view;

        match &e.kind {
            ExprKind::RecordLit { record, args } => {
                let ri: usize = match find_record(self.records, record.as_str()) {
                    None => {
                        return Err(Trap::stuck(e.span, "record"));
                    },
                    Some(ri) => ri,
                };
                let decl = &self.records[ri];
                assert(decl.fields.len() == decl.fields@.len());
                match self.eval_list(args, decl.fields.len(), m, f, traps) {
                    Err(t) => Err(t),
                    Ok(vals) => {
                        let fields = name_fields(decl, vals);
                        Ok(RtVal::Record { record: ri, fields })
                    },
                }
            },
            _ => Err(missing_operand(e)),
        }
    }

    pub fn eval_method(&self, e: &Expr, m: &mut Machine, f: &mut Frame, traps: TrapContext<'_>) -> (r:
        Result<RtVal, Trap>)
        requires
            self.ready(traps@.plan),
        ensures
            gives(r, final(m)@, final(f)@, eval_method(self@, traps@, *e, old(m)@, old(f)@)),
            final(m)@.fuel <= old(m)@.fuel,
            in_order(old(m)@, final(m)@),
        decreases old(m)@.fuel, 4nat, 0nat, 0nat, 0nat,
    {
        match &e.kind {
            ExprKind::MethodCall { recv, method, args, .. } => {
                let (ci, id) = match object_id_of(f.local(recv.as_str())) {
                    None => {
                        return Err(Trap::stuck(e.span, "class receiver"));
                    },
                    Some(x) => x,
                };
                match self.moved_list(args, m, f, traps) {
                    Err(t) => Err(t),
                    Ok(vals) => self.invoke(ci, method.as_str(), id, &vals, e.span, m),
                }
            },
            _ => Err(missing_operand(e)),
        }
    }

    pub fn eval_unary(&self, e: &Expr, m: &mut Machine, f: &mut Frame, traps: TrapContext<'_>) -> (r:
        Result<RtVal, Trap>)
        requires
            self.ready(traps@.plan),
        ensures
            gives(r, final(m)@, final(f)@, eval_unary(self@, traps@, *e, old(m)@, old(f)@)),
            final(m)@.fuel <= old(m)@.fuel,
            in_order(old(m)@, final(m)@),
        decreases old(m)@.fuel, 4nat, 0nat, 0nat, 0nat,
    {
        match &e.kind {
            ExprKind::Unary { op: UnOp::Not, operand } => {
                match self.eval_bool(operand, m, f, traps) {
                    Err(t) => Err(t),
                    Ok(b) => Ok(RtVal::Bool(!b)),
                }
            },
            ExprKind::Unary { op: UnOp::Neg, operand } => {
                match self.eval_int(operand, m, f, traps) {
                    Err(t) => Err(t),
                    Ok(v) => negate(self.source, v, e),
                }
            },
            _ => Err(missing_operand(e)),
        }
    }

    pub fn eval_binary(&self, e: &Expr, m: &mut Machine, f: &mut Frame, traps: TrapContext<'_>) -> (r:
        Result<RtVal, Trap>)
        requires
            self.ready(traps@.plan),
        ensures
            gives(r, final(m)@, final(f)@, eval_binary(self@, traps@, *e, old(m)@, old(f)@)),
            final(m)@.fuel <= old(m)@.fuel,
            in_order(old(m)@, final(m)@),
        decreases old(m)@.fuel, 4nat, 0nat, 0nat, 0nat,
    {
        let (op, lhs, rhs) = match &e.kind {
            ExprKind::Binary { op, lhs, rhs, .. } => (*op, lhs, rhs),
            _ => {
                return Err(missing_operand(e));
            },
        };
        if matches!(op, BinOp::And | BinOp::Or) {
            let l: bool = match self.eval_bool(lhs, m, f, traps) {
                Err(t) => {
                    return Err(t);
                },
                Ok(l) => l,
            };
            if l == matches!(op, BinOp::Or) {
                return Ok(RtVal::Bool(l));
            }
            return match self.eval_bool(rhs, m, f, traps) {
                Err(t) => Err(t),
                Ok(r) => Ok(RtVal::Bool(r)),
            };
        }
        let a: i128 = match self.eval_int(lhs, m, f, traps) {
            Err(t) => {
                return Err(t);
            },
            Ok(a) => a,
        };
        let b: i128 = match self.eval_int(rhs, m, f, traps) {
            Err(t) => {
                return Err(t);
            },
            Ok(b) => b,
        };
        if op.is_comparison() {
            return Ok(RtVal::Bool(compare_ints(op, a, b)));
        }
        compute(self.source, op, a, b, e, rhs.span)
    }

    pub fn eval_call(&self, e: &Expr, m: &mut Machine, f: &mut Frame, traps: TrapContext<'_>) -> (r:
        Result<RtVal, Trap>)
        requires
            self.ready(traps@.plan),
        ensures
            gives(r, final(m)@, final(f)@, eval_call(self@, traps@, *e, old(m)@, old(f)@)),
            final(m)@.fuel <= old(m)@.fuel,
            in_order(old(m)@, final(m)@),
        decreases old(m)@.fuel, 4nat, 0nat, 0nat, 0nat,
    {
        let (callee, args) = match &e.kind {
            ExprKind::Call { callee, args, .. } => (callee, args),
            _ => {
                return Err(missing_operand(e));
            },
        };
        let g: &FnDecl = match find_fn(self.fns, callee.as_str()) {
            None => {
                return Err(Trap::stuck(e.span, "function"));
            },
            Some(i) => &self.fns[i],
        };
        let vals = match self.call_args(g, args, m, f, traps) {
            Err(t) => {
                return Err(t);
            },
            Ok(vals) => vals,
        };
        match &g.foreign {
            Some(info) => call_shim(
                &mut m.raw,
                &mut m.world,
                g.name.as_str(),
                info.audit_id.as_str(),
                &vals,
                e.span,
            ),
            None => self.call(g, &vals, m),
        }
    }
}

} // verus!
