//! What a trap says: its place, its message, and whether the behavior was undefined.
use vstd::prelude::*;

use crate::ast::{int_ty_name, BinOp, Clause, Expr, IntTy, Ty};
use crate::bindings::value_of;
use crate::eval_laws::in_type;
use crate::machine::{in_range, out_of_fuel, variant_env, FrameV, MachV};
use crate::monitor::measure_value;
use crate::rawheap::{at_text, live_at, raw_load8, raw_store8, RawV};
use crate::semantics::{check_descent, monitored_head};
use crate::span::Span;
use crate::steps::{
    adopt, allocate_array, array_get, array_put, exact, map_put, map_take, narrowed, payload_value,
    slot_take, uart_status, uart_write, MAX_ELEMENTS,
};
use crate::text::{byte_len, byte_slice, int_text, nat_text};
use crate::value::{TrapV, ValV};

verus! {

/// A defined trap at a place, with a message.
pub open spec fn stops<T>(r: Result<T, TrapV>, span: Span, message: Seq<char>) -> bool {
    r matches Err(t) && t.span == span && t.message == message && !t.undef
}

/// Undefined behavior at a place, with a message.
pub open spec fn breaks<T>(r: Result<T, TrapV>, span: Span, message: Seq<char>) -> bool {
    r matches Err(t) && t.span == span && t.message == message && t.undef
}

/// A result out of its range names the value and the type that does not have it; an overflow also the
/// source that computed it, and the operation.
pub proof fn law_ranges_are_told(
    source: Seq<char>,
    n: int,
    v: i128,
    it: IntTy,
    e: Expr,
    what: Seq<char>,
    src: Seq<char>,
)
    ensures
        !in_type(it, v as int) ==> stops(
            narrowed(v, it, e.span),
            e.span,
            "narrow out of range: "@ + int_text(v as int) + " does not fit in `"@ + int_ty_name(it)
                + "`"@,
        ),
        in_type(it, n) ==> in_range(source, n, it, e, what) is Ok,
        !in_type(it, n) && e.span.end <= byte_len(source) && byte_slice(
            source,
            e.span.start as int,
            e.span.end as int,
        ) == Some(src) ==> stops(
            in_range(source, n, it, e, what),
            e.span,
            "overflow: `"@ + src + "` = "@ + int_text(n) + " does not fit in `"@ + int_ty_name(it)
                + "` ("@ + what + ")"@,
        ),
{
}

/// A division by nothing stops at the divisor, and the one quotient that a signed type does not have
/// at the division.
pub proof fn law_divisions_are_told(op: BinOp, a: i128, b: i128, it: IntTy, span: Span, rhs: Span)
    requires
        op is Div || op is Rem,
    ensures
        b == 0 ==> stops(exact(op, a, b, it, span, rhs), rhs, "division by zero"@),
        op is Div && it.is_signed() && a == it.least() && b == -1 ==> stops(
            exact(op, a, b, it, span, rhs),
            span,
            "Euclidean quotient overflows: "@ + int_ty_name(it) + ".min / -1"@,
        ),
{
}

/// An index out of bounds names the index and the length; so does the index of a store.
pub proof fn law_bounds_are_told(m: MachV, id: usize, idx: i128, v: ValV, span: Span)
    requires
        m.heap.array(id) is Some,
        !(0 <= idx < m.heap.array(id)->Some_0.values.len()),
    ensures
        ({
            let len = m.heap.array(id)->Some_0.values.len();
            &&& stops(
                array_get(m, Some(id), idx, span),
                span,
                "index"@ + " out of bounds: index "@ + int_text(idx as int) + ", length "@
                    + nat_text(len),
            )
            &&& stops(
                array_put(m, Some(id), idx, v, span).0,
                span,
                "store index"@ + " out of bounds: index "@ + int_text(idx as int) + ", length "@
                    + nat_text(len),
            )
        }),
{
}

/// An array that is too long, or shorter than nothing, is a trap that names the length.
pub proof fn law_lengths_are_told(m: MachV, payload: Ty, n: i128, v: ValV, span: Span)
    requires
        n < 0 || n > MAX_ELEMENTS,
    ensures
        stops(
            allocate_array(m, payload, n, v, span).0,
            span,
            "OOM trap: alloc_array of length "@ + int_text(n as int),
        ),
{
}

/// The value of an empty option, and the payload of an empty owning one, are traps.
pub proof fn law_empty_options_are_told(
    payload: Ty,
    f: FrameV,
    name: Seq<char>,
    class: usize,
    span: Span,
    at: Span,
)
    ensures
        stops(
            payload_value(ValV::Opt { payload, value: None }, span),
            span,
            "`.value` of an empty option"@,
        ),
        stops(payload_value(ValV::PtrOpt(None), span), span, "`.value` of an empty option"@),
        value_of(f.vars, name) == Some(ValV::AffineOptBoolArray(None)) || value_of(f.vars, name)
            == Some(ValV::AffineOptClass { class, value: None }) ==> stops(
            slot_take(f, name, span, at).0,
            span,
            "`.take` of an empty affine option"@,
        ),
{
}

/// The end of the fuel is a trap of its own.
pub proof fn law_fuel_is_told(span: Span)
    ensures
        stops(
            Err::<(), TrapV>(out_of_fuel(span)),
            span,
            "fuel exhausted (runaway loop or recursion?)"@,
        ),
{
}

/// A measure below nothing, and one that did not fall, are told with their values and the text of the
/// measure, at its place.
pub proof fn law_measures_are_told(v: Clause, n: int, head: int, m: MachV, f: FrameV)
    ensures
        n < 0 ==> stops(
            monitored_head(Some(v), Some(Ok(n)), m).0,
            v.span,
            "loop variant is negative ("@ + int_text(n) + "): "@ + v.text@,
        ),
        measure_value(variant_env(m, f), v.text@) == Ok::<int, Seq<char>>(n) && n >= head ==> stops(
            check_descent(Some(v), Some(head), m, f).0,
            v.span,
            "loop variant did not decrease ("@ + int_text(head) + " → "@ + int_text(n) + "): "@
                + v.text@,
        ),
{
    reveal(monitored_head);
    reveal(check_descent);
}

/// A key that is not in a map, and one that is already, is named.
pub proof fn law_keys_are_told(m: MachV, id: usize, key: i128, span: Span)
    requires
        m.heap.map(id) is Some,
    ensures
        !m.heap.map(id)->Some_0.contains(key) ==> stops(
            map_take(m, id, key, span).0,
            span,
            "resource_map_take: key "@ + int_text(key as int) + " is absent"@,
        ),
        m.heap.map(id)->Some_0.contains(key) ==> stops(
            map_put(m, id, key, span).0,
            span,
            "resource_map_put: key "@ + int_text(key as int) + " is already occupied"@,
        ),
{
}

/// A load and a store out of reach, and a load of a byte that nothing was written to, are undefined
/// behavior, and name the place.
pub proof fn law_raw_misuse_is_undefined(raw: RawV, p: (i128, i128), b: i128, span: Span)
    ensures
        !live_at(raw, p.0 as int, p.1 as int) ==> breaks(
            raw_load8(raw, p, span).0,
            span,
            "raw_load8 out of bounds or after free: "@ + at_text(p.0, p.1 as int),
        ) && breaks(
            raw_store8(raw, p, b, span).0,
            span,
            "raw_store8 out of bounds or after free: "@ + at_text(p.0, p.1 as int),
        ),
        live_at(raw, p.0 as int, p.1 as int) && raw[p.0 as int].bytes[p.1 as int] is None ==> breaks(
            raw_load8(raw, p, span).0,
            span,
            "raw_load8 reads uninitialized byte "@ + int_text(p.1 as int) + " of allocation "@
                + int_text(p.0 as int),
        ),
        at_text(p.0, p.1 as int) == int_text(p.0 as int) + "+"@ + int_text(p.1 as int),
{
}

/// A descriptor that the world does not have, and one that was handed out before, are named; a
/// transmitter that was not selected, and one that is not ready, are undefined behavior.
pub proof fn law_device_misuse_is_told(m: MachV, fd: i128, byte: i128, span: Span)
    ensures
        m.world matches Some(w) ==> {
            &&& !w.has(fd) ==> stops(
                adopt(m, fd, span).0,
                span,
                "open_file: descriptor "@ + int_text(fd as int) + " is not open in this world"@,
            )
            &&& w.has(fd) && w.claimed.contains(fd) ==> stops(
                adopt(m, fd, span).0,
                span,
                "open_file: descriptor "@ + int_text(fd as int)
                    + "'s authority has already been handed out"@,
            )
            &&& w.has(fd) && !w.claimed.contains(fd) ==> adopt(m, fd, span).0 is Ok
        },
        m.world is None ==> adopt(m, fd, span) == (Ok::<(), TrapV>(()), m),
        m.uart is None ==> breaks(
            uart_status(m, span).0,
            span,
            "uart_status: no UART profile selected"@,
        ),
        m.uart matches Some(u) ==> {
            &&& !u.ready ==> breaks(
                uart_write(m, byte, span).0,
                span,
                "uart_write: transmitter is not ready"@,
            )
            &&& u.ready ==> uart_write(m, byte, span).0 == Ok::<ValV, TrapV>(ValV::Unit)
            &&& uart_status(m, span).0 == Ok::<ValV, TrapV>(ValV::Int(u.status_value()))
        },
{
}

} // verus!
