//! What single operations of an expression do, once their operands are values.
use vstd::prelude::*;

use crate::ast::{int_ty_name, BinOp, Expr, IntTy, Ty};
use crate::bindings::{find, value_of};
use crate::devices::{
    lemma_select_is_orderly, lemma_status_is_orderly, lemma_write_is_orderly, new_uart, orderly,
    scripted_world, PosixWorld, ScriptedUart};
use crate::machine::{
    check_range, held_at, in_order, in_range, with_var, Frame, FrameV, MachV, Machine, RtPlaceV,
};
use crate::render::misfit_trap;
use crate::repr::{group_views, opt_view, views};
use crate::span::Span;
use crate::text::{cat2, cat3, cat5, int_text, nat_text, owned, signed_decimal, usize_decimal};
use crate::value::{
    array_of_values, array_repeat, array_store, copyable, stuck, trap, undefined, yields, ArrV,
    RtArray, RtVal, Trap, TrapV, ValV,
};

verus! {

broadcast use group_views;

// ------------------------------------------------------------------------------------------
// Reading places
// ------------------------------------------------------------------------------------------

/// A value that is read without being taken: there is one, and it owns nothing that a copy would
/// own a second time.
pub open spec fn copied(v: Option<ValV>, span: Span) -> Result<ValV, TrapV> {
    match v {
        None => Err(stuck(span, "absent value"@)),
        Some(v) => if copyable(v) {
            Ok(v)
        } else {
            Err(stuck(span, "copied owner"@))
        },
    }
}

pub fn copy_of(v: Option<&RtVal>, span: Span) -> (r: Result<RtVal, Trap>)
    ensures
        yields(r, copied(opt_view(v), span)),
{
    match v {
        None => Err(Trap::stuck(span, "absent value")),
        Some(v) => if v.is_copyable() {
            Ok(v.duplicate())
        } else {
            Err(Trap::stuck(span, "copied owner"))
        },
    }
}

/// The storage of an array value.
pub open spec fn array_id(v: Option<ValV>) -> Option<usize> {
    match v {
        Some(ValV::Arr(id)) => Some(id),
        _ => None,
    }
}

pub fn array_id_of(v: Option<&RtVal>) -> (r: Option<usize>)
    ensures
        r == array_id(opt_view(v)),
{
    match v {
        Some(RtVal::Arr(id)) => Some(*id),
        _ => None,
    }
}

/// The class and the storage of an object value.
pub open spec fn object_id(v: Option<ValV>) -> Option<(usize, usize)> {
    match v {
        Some(ValV::Obj { class, fields }) => Some((class, fields)),
        _ => None,
    }
}

pub fn object_id_of(v: Option<&RtVal>) -> (r: Option<(usize, usize)>)
    ensures
        r == object_id(opt_view(v)),
{
    match v {
        Some(RtVal::Obj { class, fields }) => Some((*class, *fields)),
        _ => None,
    }
}

/// What a field of an object value holds.
pub open spec fn field_of(m: MachV, v: Option<ValV>, field: Seq<char>) -> Option<ValV> {
    match object_id(v) {
        None => None,
        Some((_, id)) => match m.heap.object(id) {
            None => None,
            Some(fields) => value_of(fields, field),
        },
    }
}

/// What a field of a record value holds.
pub open spec fn record_field(v: Option<ValV>, field: Seq<char>) -> Option<ValV> {
    match v {
        Some(ValV::Record { fields, .. }) => value_of(fields, field),
        _ => None,
    }
}

pub fn record_field_of<'a>(v: Option<&'a RtVal>, field: &str) -> (r: Option<&'a RtVal>)
    ensures
        opt_view(r) == record_field(opt_view(v), field@),
{
    broadcast use crate::value::lemma_record_view;

    match v {
        Some(RtVal::Record { record: _, fields }) => find(fields, field),
        _ => None,
    }
}

impl Machine {
    pub fn field_of(&self, v: Option<&RtVal>, field: &str) -> (r: Option<&RtVal>)
        ensures
            opt_view(r) == field_of(self@, opt_view(v), field@),
    {
        match object_id_of(v) {
            None => None,
            Some((_, id)) => match self.heap.object(id) {
                None => None,
                Some(fields) => find(fields, field),
            },
        }
    }

    /// What a field of the object at hand holds.
    pub fn self_field(&self, frame: &Frame, field: &str) -> (r: Option<&RtVal>)
        ensures
            opt_view(r) == held_at(self@, frame@, RtPlaceV::SelfField(field@)),
    {
        match frame.self_ctx {
            None => None,
            Some((_, id)) => match self.heap.object(id) {
                None => None,
                Some(fields) => find(fields, field),
            },
        }
    }
}

impl Frame {
    pub fn local(&self, name: &str) -> (r: Option<&RtVal>)
        ensures
            opt_view(r) == value_of(self@.vars, name@),
    {
        find(&self.vars, name)
    }
}

// ------------------------------------------------------------------------------------------
// Arrays
// ------------------------------------------------------------------------------------------

pub open spec fn array_at(m: MachV, id: Option<usize>) -> Option<ArrV> {
    match id {
        None => None,
        Some(id) => m.heap.array(id),
    }
}

pub open spec fn array_len(m: MachV, id: Option<usize>, span: Span) -> Result<ValV, TrapV> {
    match array_at(m, id) {
        None => Err(stuck(span, "array"@)),
        Some(a) => Ok(ValV::Int(a.values.len() as i128)),
    }
}

pub open spec fn out_of_bounds(what: Seq<char>, idx: i128, len: nat, span: Span) -> TrapV {
    trap(
        span,
        what + " out of bounds: index "@ + int_text(idx as int) + ", length "@ + nat_text(len),
    )
}

pub open spec fn array_get(m: MachV, id: Option<usize>, idx: i128, span: Span) -> Result<
    ValV,
    TrapV,
> {
    match array_at(m, id) {
        None => Err(stuck(span, "array"@)),
        Some(a) => if idx < 0 || idx >= a.values.len() {
            Err(out_of_bounds("index"@, idx, a.values.len(), span))
        } else {
            Ok(a.values[idx as int])
        },
    }
}

pub open spec fn array_put(m: MachV, id: Option<usize>, idx: i128, v: ValV, span: Span) -> (
    Result<(), TrapV>,
    MachV,
) {
    match array_at(m, id) {
        None => (Err(stuck(span, "array"@)), m),
        Some(a) => if idx < 0 || idx >= a.values.len() {
            (Err(out_of_bounds("store index"@, idx, a.values.len(), span)), m)
        } else {
            match array_store(a, idx as int, v, span) {
                Err(x) => (Err(misfit_trap(m.heap, x)), m),
                Ok(a) => (Ok(()), MachV { heap: m.heap.set_array(id->Some_0, a), ..m }),
            }
        },
    }
}

fn bounds_trap(what: &str, idx: i128, len: usize, span: Span) -> (r: Trap)
    ensures
        r@ == out_of_bounds(what@, idx, len as nat, span),
{
    Trap::defined(
        span,
        cat5(
            what,
            " out of bounds: index ",
            signed_decimal(idx).as_str(),
            ", length ",
            usize_decimal(len).as_str(),
        ),
    )
}

impl Machine {
    pub fn array_len(&self, id: Option<usize>, span: Span) -> (r: Result<RtVal, Trap>)
        ensures
            yields(r, array_len(self@, id, span)),
    {
        match id {
            None => Err(Trap::stuck(span, "array")),
            Some(id) => match self.heap.array(id) {
                None => Err(Trap::stuck(span, "array")),
                Some(a) => Ok(RtVal::Int(a.len() as i128)),
            },
        }
    }

    pub fn array_get(&self, id: Option<usize>, idx: i128, span: Span) -> (r: Result<RtVal, Trap>)
        ensures
            yields(r, array_get(self@, id, idx, span)),
    {
        match id {
            None => Err(Trap::stuck(span, "array")),
            Some(id) => match self.heap.array(id) {
                None => Err(Trap::stuck(span, "array")),
                Some(a) => {
                    let len: usize = a.len();
                    if idx < 0 || idx >= len as i128 {
                        return Err(bounds_trap("index", idx, len, span));
                    }
                    Ok(a.get(idx as usize))
                },
            },
        }
    }

    pub fn array_put(&mut self, id: Option<usize>, idx: i128, v: RtVal, span: Span) -> (r: Result<
        (),
        Trap,
    >)
        ensures
            yields(r, array_put(old(self)@, id, idx, v@, span).0),
            final(self)@ == array_put(old(self)@, id, idx, v@, span).1,
    {
        let id = match id {
            None => {
                return Err(Trap::stuck(span, "array"));
            },
            Some(id) => id,
        };
        if id >= self.heap.arrays.len() {
            return Err(Trap::stuck(span, "array"));
        }
        let ghost before = self.heap.arrays@;
        assert(self@.heap.arrays[id as int] == before[id as int]@);
        let len: usize = self.heap.arrays[id].len();
        if idx < 0 || idx >= len as i128 {
            return Err(bounds_trap("store index", idx, len, span));
        }
        let r = self.heap.arrays[id].set(idx as usize, v, span);
        assert(self.heap.arrays@ =~= before.update(id as int, self.heap.arrays@[id as int]));
        assert(self@.heap.arrays =~= views(before).update(id as int, self.heap.arrays@[id as int]@));
        proof {
            if r is Err {
                assert(self@.heap.arrays =~= views(before));
            }
        }
        match r {
            Ok(_) => Ok(()),
            Err(x) => Err(x.payload_mismatch(&self.heap)),
        }
    }

    /// New storage for an array value.
    pub fn store_array(&mut self, a: RtArray) -> (r: RtVal)
        ensures
            r@ == ValV::Arr(old(self)@.heap.arrays.len() as usize),
            final(self)@ == (MachV { heap: old(self)@.heap.with_array(a@), ..old(self)@ }),
    {
        RtVal::Arr(self.heap.add_array(a))
    }
}

/// A literal becomes new storage.
pub open spec fn literal_array(m: MachV, payload: Ty, values: Seq<ValV>, span: Span) -> (
    Result<ValV, TrapV>,
    MachV,
) {
    match array_of_values(payload, values, span) {
        Err(x) => (Err(misfit_trap(m.heap, x)), m),
        Ok(a) => (
            Ok(ValV::Arr(m.heap.arrays.len() as usize)),
            MachV { heap: m.heap.with_array(a), ..m },
        ),
    }
}

/// The most elements that an allocation may ask for.
pub const MAX_ELEMENTS: i128 = 50_000_000;

/// An allocation becomes new storage, or the out-of-memory trap.
pub open spec fn allocate_array(m: MachV, payload: Ty, n: i128, v: ValV, span: Span) -> (
    Result<ValV, TrapV>,
    MachV,
) {
    if n < 0 || n > MAX_ELEMENTS {
        (Err(trap(span, "OOM trap: alloc_array of length "@ + int_text(n as int))), m)
    } else {
        match array_repeat(payload, v, n as nat, span) {
            Err(x) => (Err(misfit_trap(m.heap, x)), m),
            Ok(a) => (
                Ok(ValV::Arr(m.heap.arrays.len() as usize)),
                MachV { heap: m.heap.with_array(a), ..m },
            ),
        }
    }
}

impl Machine {
    pub fn literal_array(&mut self, payload: Ty, values: Vec<RtVal>, span: Span) -> (r: Result<
        RtVal,
        Trap,
    >)
        ensures
            yields(r, literal_array(old(self)@, payload, views(values@), span).0),
            final(self)@ == literal_array(old(self)@, payload, views(values@), span).1,
    {
        match RtArray::from_values(payload, values, span) {
            Err(x) => Err(x.payload_mismatch(&self.heap)),
            Ok(a) => Ok(self.store_array(a)),
        }
    }

    pub fn allocate_array(&mut self, payload: Ty, n: i128, v: RtVal, span: Span) -> (r: Result<
        RtVal,
        Trap,
    >)
        ensures
            yields(r, allocate_array(old(self)@, payload, n, v@, span).0),
            final(self)@ == allocate_array(old(self)@, payload, n, v@, span).1,
    {
        if n < 0 || n > MAX_ELEMENTS {
            return Err(
                Trap::defined(
                    span,
                    cat2("OOM trap: alloc_array of length ", signed_decimal(n).as_str()),
                ),
            );
        }
        match RtArray::repeat(payload, v, n as usize, span) {
            Err(x) => Err(x.payload_mismatch(&self.heap)),
            Ok(a) => Ok(self.store_array(a)),
        }
    }
}

// ------------------------------------------------------------------------------------------
// Options
// ------------------------------------------------------------------------------------------

/// Whether an owning option in a named slot holds its payload.
pub open spec fn slot_presence(v: Option<ValV>) -> Option<bool> {
    match v {
        Some(ValV::AffineOptBoolArray(value)) => Some(value is Some),
        Some(ValV::AffineOptClass { value, .. }) => Some(value is Some),
        _ => None,
    }
}

pub fn slot_presence_of(v: Option<&RtVal>) -> (r: Option<bool>)
    ensures
        r == slot_presence(opt_view(v)),
{
    match v {
        Some(RtVal::AffineOptBoolArray(value)) => Some(value.is_some()),
        Some(RtVal::AffineOptClass { class: _, value }) => Some(value.is_some()),
        _ => None,
    }
}

pub open spec fn presence(v: ValV, span: Span) -> Result<ValV, TrapV> {
    match v {
        ValV::Opt { value, .. } => Ok(ValV::Bool(value is Some)),
        ValV::PtrOpt(o) => Ok(ValV::Bool(o is Some)),
        _ => Err(stuck(span, "option operand"@)),
    }
}

pub fn presence_of(v: &RtVal, span: Span) -> (r: Result<RtVal, Trap>)
    ensures
        yields(r, presence(v@, span)),
{
    match v {
        RtVal::Opt { payload: _, value } => Ok(RtVal::Bool(value.is_some())),
        RtVal::PtrOpt(o) => Ok(RtVal::Bool(o.is_some())),
        _ => Err(Trap::stuck(span, "option operand")),
    }
}

pub open spec fn payload_value(v: ValV, span: Span) -> Result<ValV, TrapV> {
    match v {
        ValV::Opt { value: Some(x), .. } => Ok(*x),
        ValV::PtrOpt(Some((a, o))) => Ok(ValV::Ptr(a, o)),
        ValV::Opt { value: None, .. } | ValV::PtrOpt(None) => Err(
            trap(span, "`.value` of an empty option"@),
        ),
        _ => Err(stuck(span, "option operand"@)),
    }
}

pub fn payload_value_of(v: RtVal, span: Span) -> (r: Result<RtVal, Trap>)
    ensures
        yields(r, payload_value(v@, span)),
{
    match v {
        RtVal::Opt { payload: _, value } => match value {
            Some(x) => Ok(*x),
            None => Err(Trap::defined(span, owned("`.value` of an empty option"))),
        },
        RtVal::PtrOpt(o) => match o {
            Some((a, o)) => Ok(RtVal::Ptr(a, o)),
            None => Err(Trap::defined(span, owned("`.value` of an empty option"))),
        },
        _ => Err(Trap::stuck(span, "option operand")),
    }
}

/// Takes the payload out of an owning option in a named slot; the slot then holds none.
pub open spec fn slot_take(f: FrameV, name: Seq<char>, span: Span, at: Span) -> (
    Result<ValV, TrapV>,
    FrameV,
) {
    match value_of(f.vars, name) {
        Some(ValV::AffineOptBoolArray(Some(id))) => (
            Ok(ValV::Arr(id)),
            with_var(f, name, ValV::AffineOptBoolArray(None)),
        ),
        Some(ValV::AffineOptClass { class, value: Some(fields) }) => (
            Ok(ValV::Obj { class, fields }),
            with_var(f, name, ValV::AffineOptClass { class, value: None }),
        ),
        Some(ValV::AffineOptBoolArray(None)) | Some(
            ValV::AffineOptClass { value: None, .. },
        ) => (Err(trap(span, "`.take` of an empty affine option"@)), f),
        _ => (Err(stuck(at, "affine option local"@)), f),
    }
}

impl Frame {
    pub fn slot_take(&mut self, name: &str, span: Span, at: Span) -> (r: Result<RtVal, Trap>)
        ensures
            yields(r, slot_take(old(self)@, name@, span, at).0),
            final(self)@ == slot_take(old(self)@, name@, span, at).1,
    {
        let slot: RtVal = match find(&self.vars, name) {
            None => {
                return Err(Trap::stuck(at, "affine option local"));
            },
            Some(v) => v.duplicate(),
        };
        match slot {
            RtVal::AffineOptBoolArray(value) => match value {
                Some(id) => {
                    self.set_var(name, RtVal::AffineOptBoolArray(None));
                    Ok(RtVal::Arr(id))
                },
                None => Err(Trap::defined(span, owned("`.take` of an empty affine option"))),
            },
            RtVal::AffineOptClass { class, value } => match value {
                Some(fields) => {
                    self.set_var(name, RtVal::AffineOptClass { class, value: None });
                    Ok(RtVal::Obj { class, fields })
                },
                None => Err(Trap::defined(span, owned("`.take` of an empty affine option"))),
            },
            _ => Err(Trap::stuck(at, "affine option local")),
        }
    }
}

/// An owned payload wrapped in its owning option.
pub open spec fn wrap_owned(v: ValV, span: Span) -> Result<ValV, TrapV> {
    match v {
        ValV::Arr(id) => Ok(ValV::AffineOptBoolArray(Some(id))),
        ValV::Obj { class, fields } => Ok(ValV::AffineOptClass { class, value: Some(fields) }),
        _ => Err(stuck(span, "affine option payload"@)),
    }
}

pub fn wrap_owned_value(v: RtVal, span: Span) -> (r: Result<RtVal, Trap>)
    ensures
        yields(r, wrap_owned(v@, span)),
{
    match v {
        RtVal::Arr(id) => Ok(RtVal::AffineOptBoolArray(Some(id))),
        RtVal::Obj { class, fields } => Ok(RtVal::AffineOptClass { class, value: Some(fields) }),
        _ => Err(Trap::stuck(span, "affine option payload")),
    }
}

/// A raw pointer wrapped in its option.
pub open spec fn wrap_pointer(v: ValV, span: Span) -> Result<ValV, TrapV> {
    match v {
        ValV::Ptr(a, o) => Ok(ValV::PtrOpt(Some((a, o)))),
        _ => Err(stuck(span, "raw pointer option"@)),
    }
}

pub fn wrap_pointer_value(v: RtVal, span: Span) -> (r: Result<RtVal, Trap>)
    ensures
        yields(r, wrap_pointer(v@, span)),
{
    match v {
        RtVal::Ptr(a, o) => Ok(RtVal::PtrOpt(Some((a, o)))),
        _ => Err(Trap::stuck(span, "raw pointer option")),
    }
}

/// The empty option of a checked type.
pub open spec fn empty_option(ty: Option<Ty>, span: Span) -> Result<ValV, TrapV> {
    match ty {
        Some(option) => if option.affine_option() {
            match option.affine_payload() {
                Some(Ty::Class(class)) => Ok(ValV::AffineOptClass { class, value: None }),
                _ => Ok(ValV::AffineOptBoolArray(None)),
            }
        } else {
            match option {
                Ty::Option(payload) => Ok(ValV::Opt { payload: *payload, value: None }),
                Ty::OptionRaw(_) => Ok(ValV::PtrOpt(None)),
                _ => Err(stuck(span, "option construction"@)),
            }
        },
        None => Err(stuck(span, "option construction"@)),
    }
}

pub fn empty_option_of(ty: &Option<Ty>, span: Span) -> (r: Result<RtVal, Trap>)
    ensures
        yields(r, empty_option(*ty, span)),
{
    match ty {
        Some(option) => if option.is_affine_option() {
            match option.as_affine_option_payload() {
                Some(Ty::Class(class)) => Ok(RtVal::AffineOptClass { class, value: None }),
                _ => Ok(RtVal::AffineOptBoolArray(None)),
            }
        } else {
            match option {
                Ty::Option(payload) => Ok(
                    RtVal::Opt { payload: (&**payload).clone(), value: None },
                ),
                Ty::OptionRaw(_) => Ok(RtVal::PtrOpt(None)),
                _ => Err(Trap::stuck(span, "option construction")),
            }
        },
        None => Err(Trap::stuck(span, "option construction")),
    }
}

// ------------------------------------------------------------------------------------------
// Arithmetic
// ------------------------------------------------------------------------------------------

pub open spec fn machine_int(n: int) -> bool {
    i128::MIN <= n <= i128::MAX
}

/// The integer type of an expression.
pub open spec fn int_type(e: Expr) -> Option<IntTy> {
    match e.ty {
        Some(Ty::Int(it)) => Some(it),
        _ => None,
    }
}

pub fn int_type_of(e: &Expr) -> (r: Option<IntTy>)
    ensures
        r == int_type(*e),
{
    match &e.ty {
        Some(Ty::Int(it)) => Some(*it),
        _ => None,
    }
}

pub open spec fn narrowed(v: i128, target: IntTy, span: Span) -> Result<ValV, TrapV> {
    if target.least() <= v <= target.greatest() {
        Ok(ValV::Int(v))
    } else {
        Err(
            trap(
                span,
                "narrow out of range: "@ + int_text(v as int) + " does not fit in `"@
                    + int_ty_name(target) + "`"@,
            ),
        )
    }
}

pub fn narrow(v: i128, target: IntTy, span: Span) -> (r: Result<RtVal, Trap>)
    ensures
        yields(r, narrowed(v, target, span)),
{
    if v < target.min() || v > target.max() {
        return Err(
            Trap::defined(
                span,
                cat5(
                    "narrow out of range: ",
                    signed_decimal(v).as_str(),
                    " does not fit in `",
                    target.name().as_str(),
                    "`",
                ),
            ),
        );
    }
    Ok(RtVal::Int(v))
}

pub open spec fn negated(source: Seq<char>, v: i128, e: Expr) -> Result<ValV, TrapV> {
    match int_type(e) {
        None => Err(stuck(e.span, "integer type"@)),
        Some(it) => if !machine_int(-v) {
            Err(stuck(e.span, "negation"@))
        } else {
            match in_range(source, -v, it, e, "negation"@) {
                Err(t) => Err(t),
                Ok(_) => Ok(ValV::Int((-v) as i128)),
            }
        },
    }
}

pub fn negate(source: &str, v: i128, e: &Expr) -> (r: Result<RtVal, Trap>)
    ensures
        yields(r, negated(source@, v, *e)),
{
    let it = match int_type_of(e) {
        None => {
            return Err(Trap::stuck(e.span, "integer type"));
        },
        Some(it) => it,
    };
    if v == i128::MIN {
        return Err(Trap::stuck(e.span, "negation"));
    }
    let n: i128 = -v;
    match check_range(source, n, it, e, "negation") {
        Err(t) => Err(t),
        Ok(_) => Ok(RtVal::Int(n)),
    }
}

pub open spec fn compared(op: BinOp, a: i128, b: i128) -> bool {
    match op {
        BinOp::Lt => a < b,
        BinOp::Le => a <= b,
        BinOp::Gt => a > b,
        BinOp::Ge => a >= b,
        BinOp::Eq => a == b,
        _ => a != b,
    }
}

/// The exact result of an operator, before it is held against its type.
pub open spec fn exact(op: BinOp, a: i128, b: i128, it: IntTy, span: Span, rhs: Span) -> Result<
    int,
    TrapV,
> {
    match op {
        BinOp::Add => if machine_int(a + b) {
            Ok(a + b)
        } else {
            Err(stuck(span, "addition"@))
        },
        BinOp::Sub => if machine_int(a - b) {
            Ok(a - b)
        } else {
            Err(stuck(span, "subtraction"@))
        },
        BinOp::Mul => if machine_int(a * b) {
            Ok(a * b)
        } else {
            Err(trap(span, "multiplication exceeds i128 (ghost width)"@))
        },
        BinOp::Div | BinOp::Rem => if b == 0 {
            Err(trap(rhs, "division by zero"@))
        } else if op is Div && it.is_signed() && a == it.least() && b == -1 {
            Err(
                trap(span, "Euclidean quotient overflows: "@ + int_ty_name(it) + ".min / -1"@),
            )
        } else if a == i128::MIN && b == -1 {
            Err(stuck(span, "division"@))
        } else if op is Div {
            Ok((a as int) / (b as int))
        } else {
            Ok((a as int) % (b as int))
        },
        _ => Err(stuck(span, "operator"@)),
    }
}

/// The value of an arithmetic operator on two integers.
pub open spec fn computed(source: Seq<char>, op: BinOp, a: i128, b: i128, e: Expr, rhs: Span) -> Result<
    ValV,
    TrapV,
> {
    match int_type(e) {
        None => Err(stuck(e.span, "integer type"@)),
        Some(it) => match exact(op, a, b, it, e.span, rhs) {
            Err(t) => Err(t),
            Ok(n) => if op is Add || op is Sub || op is Mul {
                match in_range(source, n, it, e, op.spec_symbol()) {
                    Err(t) => Err(t),
                    Ok(_) => Ok(ValV::Int(n as i128)),
                }
            } else {
                Ok(ValV::Int(n as i128))
            },
        },
    }
}

proof fn lemma_quotient(a: int, b: int)
    requires
        i128::MIN <= a <= i128::MAX,
        i128::MIN <= b <= i128::MAX,
        b != 0,
        !(a == i128::MIN && b == -1),
    ensures
        machine_int(a / b),
        machine_int(a % b),
{
    let q = a / b;
    let r = a % b;
    assert(a == b * q + r && 0 <= r && (b > 0 ==> r < b) && (b < 0 ==> r < -b)) by (nonlinear_arith)
        requires
            b != 0,
            q == a / b,
            r == a % b,
    ;
    let top: int = i128::MAX as int;
    if b > 0 {
        assert(q <= top) by (nonlinear_arith)
            requires
                a == b * q + r,
                0 <= r,
                b >= 1,
                a <= top,
                top > 0,
        ;
        assert(q >= -top - 1) by (nonlinear_arith)
            requires
                a == b * q + r,
                r < b,
                b >= 1,
                a >= -top - 1,
                top > 0,
        ;
    } else if b == -1 {
        assert(q == -a) by (nonlinear_arith)
            requires
                a == b * q + r,
                0 <= r,
                r < -b,
                b == -1,
        ;
    } else {
        assert(q <= top) by (nonlinear_arith)
            requires
                a == b * q + r,
                0 <= r,
                r < -b,
                b <= -2,
                a >= -top - 1,
                top > 2,
        ;
        assert(q >= -top - 1) by (nonlinear_arith)
            requires
                a == b * q + r,
                0 <= r,
                b <= -2,
                a <= top,
                top > 2,
        ;
    }
}

fn exact_value(op: BinOp, a: i128, b: i128, it: IntTy, span: Span, rhs: Span) -> (r: Result<
    i128,
    Trap,
>)
    ensures
        match exact(op, a, b, it, span, rhs) {
            Ok(n) => r matches Ok(x) && x == n,
            Err(t) => r matches Err(x) && x@ == t,
        },
{
    match op {
        BinOp::Add => match a.checked_add(b) {
            Some(n) => Ok(n),
            None => Err(Trap::stuck(span, "addition")),
        },
        BinOp::Sub => match a.checked_sub(b) {
            Some(n) => Ok(n),
            None => Err(Trap::stuck(span, "subtraction")),
        },
        BinOp::Mul => match a.checked_mul(b) {
            Some(n) => Ok(n),
            None => Err(
                Trap::defined(span, owned("multiplication exceeds i128 (ghost width)")),
            ),
        },
        BinOp::Div | BinOp::Rem => {
            if b == 0 {
                return Err(Trap::defined(rhs, owned("division by zero")));
            }
            let divides = matches!(op, BinOp::Div);
            if divides && it.signed() && a == it.min() && b == -1 {
                return Err(
                    Trap::defined(
                        span,
                        cat3("Euclidean quotient overflows: ", it.name().as_str(), ".min / -1"),
                    ),
                );
            }
            if a == i128::MIN && b == -1 {
                return Err(Trap::stuck(span, "division"));
            }
            proof {
                lemma_quotient(a as int, b as int);
            }
            if divides {
                match a.checked_div_euclid(b) {
                    Some(n) => Ok(n),
                    None => Err(Trap::stuck(span, "division")),
                }
            } else {
                match a.checked_rem_euclid(b) {
                    Some(n) => Ok(n),
                    None => Err(Trap::stuck(span, "division")),
                }
            }
        },
        _ => Err(Trap::stuck(span, "operator")),
    }
}

pub fn compare_ints(op: BinOp, a: i128, b: i128) -> (r: bool)
    ensures
        r == compared(op, a, b),
{
    match op {
        BinOp::Lt => a < b,
        BinOp::Le => a <= b,
        BinOp::Gt => a > b,
        BinOp::Ge => a >= b,
        BinOp::Eq => a == b,
        _ => a != b,
    }
}

pub fn compute(source: &str, op: BinOp, a: i128, b: i128, e: &Expr, rhs: Span) -> (r: Result<
    RtVal,
    Trap,
>)
    ensures
        yields(r, computed(source@, op, a, b, *e, rhs)),
{
    let it = match int_type_of(e) {
        None => {
            return Err(Trap::stuck(e.span, "integer type"));
        },
        Some(it) => it,
    };
    let n: i128 = match exact_value(op, a, b, it, e.span, rhs) {
        Err(t) => {
            return Err(t);
        },
        Ok(n) => n,
    };
    if matches!(op, BinOp::Add | BinOp::Sub | BinOp::Mul) {
        match check_range(source, n, it, e, op.symbol()) {
            Err(t) => {
                return Err(t);
            },
            Ok(_) => {},
        }
    }
    Ok(RtVal::Int(n))
}

// ------------------------------------------------------------------------------------------
// Worlds, devices and key sets
// ------------------------------------------------------------------------------------------

pub open spec fn with_world(m: MachV, script: i128) -> MachV {
    MachV { world: Some(scripted_world(script)), ..m }
}

pub open spec fn with_uart(m: MachV, script: i128) -> MachV {
    MachV { uart: Some(new_uart(script)), ..m }
}

/// Adoption spends the world's claim on a descriptor: each is handed out once.
pub open spec fn adopt(m: MachV, fd: i128, span: Span) -> (Result<(), TrapV>, MachV) {
    match m.world {
        None => (Ok(()), m),
        Some(w) => if !w.has(fd) {
            (
                Err(
                    trap(
                        span,
                        "open_file: descriptor "@ + int_text(fd as int)
                            + " is not open in this world"@,
                    ),
                ),
                m,
            )
        } else if w.claimed.contains(fd) {
            (
                Err(
                    trap(
                        span,
                        "open_file: descriptor "@ + int_text(fd as int)
                            + "'s authority has already been handed out"@,
                    ),
                ),
                m,
            )
        } else {
            (
                Ok(()),
                MachV {
                    world: Some(
                        crate::devices::WorldV { claimed: w.claimed.push(fd), ..w },
                    ),
                    ..m
                },
            )
        },
    }
}

/// The key set of a map value.
pub open spec fn map_id(v: ValV) -> Option<usize> {
    match v {
        ValV::ResMap(id) => Some(id),
        _ => None,
    }
}

pub open spec fn map_take(m: MachV, id: usize, key: i128, span: Span) -> (Result<(), TrapV>, MachV) {
    match m.heap.map(id) {
        None => (Err(stuck(span, "resource map"@)), m),
        Some(keys) => if !keys.contains(key) {
            (
                Err(trap(span, "resource_map_take: key "@ + int_text(key as int) + " is absent"@)),
                m,
            )
        } else {
            (
                Ok(()),
                MachV {
                    heap: m.heap.set_map(id, keys.remove(keys.index_of_first(key)->Some_0)),
                    ..m
                },
            )
        },
    }
}

pub open spec fn map_put(m: MachV, id: usize, key: i128, span: Span) -> (Result<(), TrapV>, MachV) {
    match m.heap.map(id) {
        None => (Err(stuck(span, "resource map"@)), m),
        Some(keys) => if keys.contains(key) {
            (
                Err(
                    trap(
                        span,
                        "resource_map_put: key "@ + int_text(key as int)
                            + " is already occupied"@,
                    ),
                ),
                m,
            )
        } else {
            (Ok(()), MachV { heap: m.heap.set_map(id, keys.push(key)), ..m })
        },
    }
}

pub open spec fn uart_status(m: MachV, span: Span) -> (Result<ValV, TrapV>, MachV) {
    match m.uart {
        None => (Err(undefined(span, "uart_status: no UART profile selected"@)), m),
        Some(u) => (
            Ok(ValV::Int(u.status_value())),
            MachV { uart: Some(u.after_status()), ..m },
        ),
    }
}

pub open spec fn uart_write(m: MachV, byte: i128, span: Span) -> (Result<ValV, TrapV>, MachV) {
    match m.uart {
        None => (Err(stuck(span, "transmitter"@)), m),
        Some(u) => if !u.ready {
            (Err(undefined(span, "uart_write: transmitter is not ready"@)), m)
        } else {
            (Ok(ValV::Unit), MachV { uart: Some(u.after_write(byte)), ..m })
        },
    }
}

fn key_position(keys: &Vec<i128>, key: i128) -> (r: Option<usize>)
    ensures
        match r {
            Some(i) => i < keys@.len() && keys@.contains(key) && keys@.index_of_first(key) == Some(
                i as int,
            ),
            None => !keys@.contains(key),
        },
{
    let n: usize = keys.len();
    let mut i: usize = 0;
    while i < n
        invariant
            n == keys@.len(),
            i <= n,
            forall|k: int| 0 <= k < i ==> keys@[k] != key,
        decreases n - i,
    {
        if keys[i] == key {
            proof {
                keys@.index_of_first_ensures(key);
                assert(keys@.contains(key));
            }
            return Some(i);
        }
        i = i + 1;
    }
    None
}

impl Machine {
    pub fn select_world(&mut self, script: i128)
        ensures
            final(self)@ == with_world(old(self)@, script),
    {
        self.world = Some(PosixWorld::scripted(script));
    }

    pub fn select_uart(&mut self, script: i128)
        ensures
            final(self)@ == with_uart(old(self)@, script),
            in_order(old(self)@, final(self)@),
    {
        proof {
            lemma_select_is_orderly(script);
        }
        self.uart = Some(ScriptedUart::new(script));
    }

    pub fn adopt(&mut self, fd: i128, span: Span) -> (r: Result<(), Trap>)
        ensures
            yields(r, adopt(old(self)@, fd, span).0),
            final(self)@ == adopt(old(self)@, fd, span).1,
    {
        match &mut self.world {
            None => Ok(()),
            Some(w) => {
                if fd < 0 || fd >= w.fds {
                    return Err(
                        Trap::defined(
                            span,
                            cat3(
                                "open_file: descriptor ",
                                signed_decimal(fd).as_str(),
                                " is not open in this world",
                            ),
                        ),
                    );
                }
                if !w.claim(fd) {
                    return Err(
                        Trap::defined(
                            span,
                            cat3(
                                "open_file: descriptor ",
                                signed_decimal(fd).as_str(),
                                "'s authority has already been handed out",
                            ),
                        ),
                    );
                }
                Ok(())
            },
        }
    }

    pub fn map_take(&mut self, id: usize, key: i128, span: Span) -> (r: Result<(), Trap>)
        ensures
            yields(r, map_take(old(self)@, id, key, span).0),
            final(self)@ == map_take(old(self)@, id, key, span).1,
    {
        if id >= self.heap.maps.len() {
            return Err(Trap::stuck(span, "resource map"));
        }
        let ghost before = self.heap.maps@;
        assert(self@.heap.maps[id as int] == before[id as int]@);
        match key_position(&self.heap.maps[id].keys, key) {
            None => Err(
                Trap::defined(
                    span,
                    cat3("resource_map_take: key ", signed_decimal(key).as_str(), " is absent"),
                ),
            ),
            Some(i) => {
                self.heap.maps[id].keys.remove(i);
                assert(self.heap.maps@ =~= before.update(id as int, self.heap.maps@[id as int]));
                Ok(())
            },
        }
    }

    pub fn map_put(&mut self, id: usize, key: i128, span: Span) -> (r: Result<(), Trap>)
        ensures
            yields(r, map_put(old(self)@, id, key, span).0),
            final(self)@ == map_put(old(self)@, id, key, span).1,
    {
        if id >= self.heap.maps.len() {
            return Err(Trap::stuck(span, "resource map"));
        }
        let ghost before = self.heap.maps@;
        assert(self@.heap.maps[id as int] == before[id as int]@);
        match key_position(&self.heap.maps[id].keys, key) {
            Some(_) => Err(
                Trap::defined(
                    span,
                    cat3(
                        "resource_map_put: key ",
                        signed_decimal(key).as_str(),
                        " is already occupied",
                    ),
                ),
            ),
            None => {
                self.heap.maps[id].keys.push(key);
                assert(self.heap.maps@ =~= before.update(id as int, self.heap.maps@[id as int]));
                Ok(())
            },
        }
    }

    pub fn uart_status(&mut self, span: Span) -> (r: Result<RtVal, Trap>)
        ensures
            yields(r, uart_status(old(self)@, span).0),
            final(self)@ == uart_status(old(self)@, span).1,
            in_order(old(self)@, final(self)@),
    {
        match &mut self.uart {
            None => Err(
                Trap::undefined(span, owned("uart_status: no UART profile selected")),
            ),
            Some(u) => {
                proof {
                    if orderly(old(self)@.uart) {
                        lemma_status_is_orderly(u@);
                    }
                }
                Ok(RtVal::Int(u.status()))
            },
        }
    }

    pub fn uart_write(&mut self, byte: i128, span: Span) -> (r: Result<RtVal, Trap>)
        ensures
            yields(r, uart_write(old(self)@, byte, span).0),
            final(self)@ == uart_write(old(self)@, byte, span).1,
            in_order(old(self)@, final(self)@),
    {
        match &mut self.uart {
            None => Err(Trap::stuck(span, "transmitter")),
            Some(u) => {
                if !u.ready {
                    return Err(
                        Trap::undefined(span, owned("uart_write: transmitter is not ready")),
                    );
                }
                proof {
                    if orderly(old(self)@.uart) {
                        lemma_write_is_orderly(u@, byte);
                    }
                }
                u.write(byte);
                Ok(RtVal::Unit)
            },
        }
    }
}

/// The key set of a map value.
pub fn map_id_of(v: &RtVal) -> (r: Option<usize>)
    ensures
        r == map_id(v@),
{
    match v {
        RtVal::ResMap(id) => Some(*id),
        _ => None,
    }
}

} // verus!
