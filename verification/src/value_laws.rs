//! What values are: which inhabit a payload, which may be copied, what a snapshot of them shows, and
//! what types are called.
use vstd::prelude::*;

use crate::ast::{int_ty_name, ty_name, DeviceOp, Expr, ExprKind, IntTy, Mutability, ResOp, Ty};
use crate::devices::{new_uart, scripted_world};
use crate::eval_laws::under_way;
use crate::heap::{
    array_snapshot, fields_snapshot, object_snapshot, snapshot, snapshot_within, values_snapshot,
    FieldsV, HeapV, SpecV,
};
use crate::machine::{burned, CodeV, FrameV, MachV, SiteV};
use crate::semantics::{
    eval, eval_device, eval_int, eval_kind, eval_map_key, eval_map_take, eval_res, spent,
};
use crate::steps::{map_take, uart_status, uart_write};
use crate::value::{copyable, fields_copyable, inhabits, TrapV, ValV};

verus! {

/// An integer inhabits every concrete integer payload, a truth value the payload of truth values, a
/// record its own record type; nothing else inhabits any payload.
pub proof fn law_inhabitants(v: ValV, payload: Ty)
    ensures
        payload matches Ty::Int(t) ==> (inhabits(v, payload) <==> v is Int && !(t is TParam)),
        payload is Bool ==> (inhabits(v, payload) <==> v is Bool),
        payload matches Ty::Record(r) ==> (inhabits(v, payload) <==> (
        v matches ValV::Record { record, .. } && record == r)),
        !(payload is Int) && !(payload is Bool) && !(payload is Record) ==> !inhabits(v, payload),
{
}

proof fn lemma_fields_copyable(fields: FieldsV, n: nat)
    requires
        n <= fields.len(),
    ensures
        fields_copyable(fields, n) <==> (forall|i: int|
            0 <= i < n ==> copyable((#[trigger] fields[i]).value)),
    decreases n,
{
    if n > 0 {
        lemma_fields_copyable(fields, (n - 1) as nat);
        if fields_copyable(fields, n) {
            assert forall|i: int| 0 <= i < n implies copyable((#[trigger] fields[i]).value) by {
                if i < n - 1 {
                    assert(copyable(fields[i].value));
                }
            }
        } else if forall|i: int| 0 <= i < n ==> copyable((#[trigger] fields[i]).value) {
            assert(copyable(fields[n - 1].value));
            assert(false);
        }
    }
}

/// An owning option may not be copied, full or empty; an option and a record may where all that they
/// hold may; everything else may.
pub proof fn law_copyable_values(v: ValV)
    ensures
        v is AffineOptBoolArray || v is AffineOptClass ==> !copyable(v),
        v matches ValV::Opt { value: Some(x), .. } ==> (copyable(v) <==> copyable(*x)),
        v matches ValV::Opt { value: None, .. } ==> copyable(v),
        v matches ValV::Record { fields, .. } ==> (copyable(v) <==> (forall|i: int|
            0 <= i < fields.len() ==> copyable((#[trigger] fields[i]).value))),
        v is Int || v is Bool || v is Arr || v is Obj || v is Ptr || v is PtrOpt || v is ResMap || v
            is Unit ==> copyable(v),
{
    match v {
        ValV::Record { fields, .. } => {
            lemma_fields_copyable(fields, fields.len());
        },
        _ => {},
    }
}

// ------------------------------------------------------------------------------------------
// Snapshots
// ------------------------------------------------------------------------------------------

/// The snapshot of a scalar: itself.
pub open spec fn shown_scalar(v: ValV) -> Option<SpecV> {
    match v {
        ValV::Int(n) => Some(SpecV::Int(n)),
        ValV::Bool(b) => Some(SpecV::Bool(b)),
        _ => None,
    }
}

proof fn lemma_values(h: HeapV, s: Seq<ValV>, n: nat, depth: nat)
    requires
        n <= s.len(),
        forall|i: int| 0 <= i < s.len() ==> shown_scalar(#[trigger] s[i]) is Some,
    ensures
        values_snapshot(h, s, n, depth) matches Some(shown) && shown.len() == n && forall|i: int|
            0 <= i < n ==> Some(#[trigger] shown[i]) == shown_scalar(s[i]),
    decreases n,
{
    if n > 0 {
        lemma_values(h, s, (n - 1) as nat, depth);
        assert(shown_scalar(s[n - 1]) is Some);
        assert(snapshot_within(h, s[n - 1], depth) == shown_scalar(s[n - 1]));
    }
}

/// A snapshot of an array of scalars shows its payload type and every element, in order.
pub proof fn law_array_snapshots_show_every_element(h: HeapV, id: usize, i: int)
    requires
        h.array(id) is Some,
        forall|k: int|
            0 <= k < h.array(id)->Some_0.values.len() ==> shown_scalar(
                #[trigger] h.array(id)->Some_0.values[k],
            ) is Some,
    ensures
        snapshot(h, ValV::Arr(id)) matches Some(SpecV::Arr { payload, values }) && payload
            == h.array(id)->Some_0.payload && values.len() == h.array(id)->Some_0.values.len() && (0
            <= i < values.len() ==> Some(values[i]) == shown_scalar(
            h.array(id)->Some_0.values[i],
        )),
{
    let a = h.array(id)->Some_0;
    let depth = h.depth();
    assert(depth > 0);
    lemma_values(h, a.values, a.values.len(), (depth - 1) as nat);
    assert(snapshot(h, ValV::Arr(id)) == array_snapshot(h, id, depth));
}

proof fn lemma_fields(h: HeapV, s: FieldsV, n: nat, depth: nat)
    requires
        n <= s.len(),
        forall|i: int| 0 <= i < s.len() ==> shown_scalar((#[trigger] s[i]).value) is Some,
    ensures
        fields_snapshot(h, s, n, depth).len() == n,
        forall|i: int|
            0 <= i < n ==> (#[trigger] fields_snapshot(h, s, n, depth)[i]).name == s[i].name && Some(
                fields_snapshot(h, s, n, depth)[i].value,
            ) == shown_scalar(s[i].value),
    decreases n,
{
    if n > 0 {
        lemma_fields(h, s, (n - 1) as nat, depth);
        assert(shown_scalar(s[n - 1].value) is Some);
        assert(snapshot_within(h, s[n - 1].value, depth) == shown_scalar(s[n - 1].value));
    }
}

/// A snapshot of an object of scalars shows every field under its name, in order.
pub proof fn law_object_snapshots_show_every_field(h: HeapV, class: usize, id: usize, i: int)
    requires
        h.object(id) is Some,
        forall|k: int|
            0 <= k < h.object(id)->Some_0.len() ==> shown_scalar(
                (#[trigger] h.object(id)->Some_0[k]).value,
            ) is Some,
    ensures
        snapshot(h, ValV::Obj { class, fields: id }) matches Some(SpecV::Obj(fields)) && fields.len()
            == h.object(id)->Some_0.len() && (0 <= i < fields.len() ==> fields[i].name
            == h.object(id)->Some_0[i].name && Some(fields[i].value) == shown_scalar(
            h.object(id)->Some_0[i].value,
        )),
{
    let f = h.object(id)->Some_0;
    let depth = h.depth();
    assert(depth > 0);
    lemma_fields(h, f, f.len(), (depth - 1) as nat);
    assert(snapshot(h, ValV::Obj { class, fields: id }) == object_snapshot(h, id, depth));
}

// ------------------------------------------------------------------------------------------
// Names of types
// ------------------------------------------------------------------------------------------

/// A type is called as the source writes it: by its sign and width, or around the name of what it
/// holds.
pub proof fn law_types_are_named(inner: Ty, t: IntTy)
    ensures
        int_ty_name(IntTy::I8) == "i8"@,
        int_ty_name(IntTy::I16) == "i16"@,
        int_ty_name(IntTy::I32) == "i32"@,
        int_ty_name(IntTy::I64) == "i64"@,
        int_ty_name(IntTy::U8) == "u8"@,
        int_ty_name(IntTy::U16) == "u16"@,
        int_ty_name(IntTy::U32) == "u32"@,
        int_ty_name(IntTy::U64) == "u64"@,
        ty_name(Ty::Int(t)) == int_ty_name(t),
        ty_name(Ty::Bool) == "bool"@,
        ty_name(Ty::Unit) == "unit"@,
        ty_name(Ty::Array(Box::new(inner))) == "["@ + ty_name(inner) + "]"@,
        ty_name(Ty::Option(Box::new(inner))) == "option<"@ + ty_name(inner) + ">"@,
        ty_name(Ty::Borrow(Box::new(inner), Mutability::Shared)) == "&"@ + ty_name(inner),
        ty_name(Ty::Borrow(Box::new(inner), Mutability::Mut)) == "&mut "@ + ty_name(inner),
        t.is_signed() <==> t.least() < 0,
{
    reveal_with_fuel(ty_name, 2);
}

// ------------------------------------------------------------------------------------------
// Resources and devices
// ------------------------------------------------------------------------------------------

/// A test's world and its transmitter are the scripted ones that it asked for; a second transmitter
/// is undefined behavior. A new map is empty, and no map that was there changes.
pub proof fn law_test_resources(c: CodeV, p: SiteV, e: Expr, m: MachV, f: FrameV, other: usize)
    requires
        under_way(p, e, m),
        m.heap.maps.len() < usize::MAX,
    ensures
        e.kind matches ExprKind::ResOp { op: ResOp::TestWorld, args } ==> (args@.len() >= 1 ==> (spent(
            eval_int(c, p, args@[0], burned(m), f),
            burned(m),
        ).r matches Ok(script) ==> eval(c, p, e, m, f).r == Ok::<ValV, TrapV>(ValV::Unit) && eval(
            c,
            p,
            e,
            m,
            f,
        ).m.world == Some(scripted_world(script)))),
        e.kind matches ExprKind::ResOp { op: ResOp::TestUart, args } ==> (m.uart is Some ==> (eval(
            c,
            p,
            e,
            m,
            f,
        ).r matches Err(t) && t.undef)),
        e.kind matches ExprKind::ResOp { op: ResOp::TestUart, args } ==> (m.uart is None
            && args@.len() >= 1 ==> (spent(
            eval_int(c, p, args@[0], burned(m), f),
            burned(m),
        ).r matches Ok(script) ==> eval(c, p, e, m, f).r == Ok::<ValV, TrapV>(ValV::Unit) && eval(
            c,
            p,
            e,
            m,
            f,
        ).m.uart == Some(new_uart(script)))),
        e.kind matches ExprKind::ResOp { op: ResOp::ResourceMapEmpty, .. } ==> (eval(
            c,
            p,
            e,
            m,
            f,
        ).r matches Ok(ValV::ResMap(id)) && m.heap.map(id) is None && eval(
            c,
            p,
            e,
            m,
            f,
        ).m.heap.map(id) == Some(Seq::<i128>::empty()) && (other != id ==> eval(
            c,
            p,
            e,
            m,
            f,
        ).m.heap.map(other) == m.heap.map(other))),
{
    assert(eval(c, p, e, m, f) == eval_kind(c, p, e, burned(m), f));
    if e.kind is ResOp {
        assert(eval_kind(c, p, e, burned(m), f) == eval_res(c, p, e, burned(m), f));
    }
}

/// A key is taken out of the map that the first operand names, by the value of the second.
pub proof fn law_map_operations(c: CodeV, p: SiteV, e: Expr, m: MachV, f: FrameV, id: usize, key: i128)
    requires
        under_way(p, e, m),
    ensures
        e.kind matches ExprKind::ResOp { op: ResOp::ResourceMapTake, args } ==> {
            let o = spent(eval_map_key(c, p, e, args@, burned(m), f), burned(m));
            o.r == Ok::<(usize, i128), TrapV>((id, key)) ==> eval(c, p, e, m, f).m == map_take(
                o.m,
                id,
                key,
                e.span,
            ).1 && (eval(c, p, e, m, f).r is Ok <==> map_take(o.m, id, key, e.span).0 is Ok)
        },
{
    assert(eval(c, p, e, m, f) == eval_kind(c, p, e, burned(m), f));
    match e.kind {
        ExprKind::ResOp { op, args } => {
            assert(eval_kind(c, p, e, burned(m), f) == eval_res(c, p, e, burned(m), f));
            if op is ResourceMapTake {
                assert(eval_res(c, p, e, burned(m), f) == eval_map_take(
                    c,
                    p,
                    e,
                    args@,
                    burned(m),
                    f,
                ));
            }
        },
        _ => {},
    }
}

/// A status is what the transmitter says, and a write hands it the byte.
pub proof fn law_device_values(c: CodeV, p: SiteV, e: Expr, m: MachV, f: FrameV)
    requires
        under_way(p, e, m),
    ensures
        e.kind matches ExprKind::DeviceOp { op: DeviceOp::UartStatus, .. } ==> eval(c, p, e, m, f).r
            == uart_status(burned(m), e.span).0 && eval(c, p, e, m, f).m == uart_status(
            burned(m),
            e.span,
        ).1,
        e.kind matches ExprKind::DeviceOp { op: DeviceOp::UartWrite, args } ==> (m.uart is Some
            && args@.len() >= 1 ==> {
            let o = spent(eval_int(c, p, args@[0], burned(m), f), burned(m));
            o.r matches Ok(byte) ==> eval(c, p, e, m, f).r == uart_write(o.m, byte, e.span).0 && eval(
                c,
                p,
                e,
                m,
                f,
            ).m == uart_write(o.m, byte, e.span).1
        }),
        e.kind matches ExprKind::DeviceOp { op: DeviceOp::UartWrite, args } ==> (m.uart is None
            ==> eval(c, p, e, m, f).r is Err),
{
    assert(eval(c, p, e, m, f) == eval_kind(c, p, e, burned(m), f));
    if e.kind is DeviceOp {
        assert(eval_kind(c, p, e, burned(m), f) == eval_device(c, p, e, burned(m), f));
    }
}

} // verus!
