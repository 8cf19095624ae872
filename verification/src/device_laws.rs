//! What raw storage, the scripted world and the scripted transmitter do, call by call.
use vstd::prelude::*;

use crate::ast::{RawOp, RecordDecl};
use crate::devices::{
    new_uart, schedule_of, scripted_world, shim_read, shim_step, write_from, MmioEvent, ReadOutcome,
    UartV, WorldV,
};
use crate::rawheap::{
    law_load_after_store, live_at, raw_copy, raw_load8, raw_step, raw_store8, set_byte, word_covers,
    zeroed, RawV, RecCellV,
};
use crate::slots::{drop_slot, put_slot, slot_at, slot_value, SlotV};
use crate::span::Span;
use crate::value::{copyable, TrapV, ValV};

verus! {

// ------------------------------------------------------------------------------------------
// Bytes
// ------------------------------------------------------------------------------------------

/// A byte that can be read and written: it lies in a live allocation, within its bounds, and under no
/// typed cell.
pub proof fn law_reach_of_a_pointer(raw: RawV, a: int, off: int)
    ensures
        live_at(raw, a, off) <==> {
            &&& 0 <= a < raw.len()
            &&& raw[a].live
            &&& 0 <= off < raw[a].bytes.len()
            &&& forall|i: int|
                0 <= i < raw[a].cells_u64.len() ==> !((#[trigger] raw[a].cells_u64[i]).start <= off
                    < raw[a].cells_u64[i].start + 8)
            &&& forall|i: int|
                0 <= i < raw[a].cells_record.len() ==> !((#[trigger] raw[a].cells_record[i]).start
                    <= off < raw[a].cells_record[i].start + raw[a].cells_record[i].value.layout.size)
        },
{
}

/// A load of a byte gives what the byte holds, and is refused out of reach and where nothing was
/// written; a store of a byte is refused exactly out of reach.
pub proof fn law_bytes_are_loaded_and_stored(
    raw: RawV,
    records: Seq<RecordDecl>,
    a: i128,
    o: i128,
    b: i128,
    span: Span,
)
    ensures
        ({
            let p = ValV::Ptr(a, o);
            let load = raw_step(raw, records, RawOp::Load8, seq![p], span);
            let store = raw_step(raw, records, RawOp::Store8, seq![p, ValV::Int(b)], span);
            &&& load.0 matches Ok(v) ==> live_at(raw, a as int, o as int)
                && raw[a as int].bytes[o as int] is Some && v == ValV::Int(
                raw[a as int].bytes[o as int]->Some_0,
            )
            &&& live_at(raw, a as int, o as int) && raw[a as int].bytes[o as int] is Some ==> load.0
                is Ok
            &&& load.1 == raw
            &&& store.0 is Ok <==> live_at(raw, a as int, o as int)
            &&& store.0 is Ok ==> raw_step(store.1, records, RawOp::Load8, seq![p], span).0 == Ok::<
                ValV,
                TrapV,
            >(ValV::Int(b))
            &&& store.0 is Err ==> store.1 == raw
        }),
{
    reveal(raw_step);
    let store = raw_step(
        raw,
        records,
        RawOp::Store8,
        seq![ValV::Ptr(a, o), ValV::Int(b)],
        span,
    );
    if store.0 is Ok {
        law_load_after_store(raw, (a, o), (a, o), b, span);
        assert(store.1 == raw_store8(raw, (a, o), b, span).1);
        assert(raw_step(store.1, records, RawOp::Load8, seq![ValV::Ptr(a, o)], span) == raw_load8(
            store.1,
            (a, o),
            span,
        ));
    }
}

/// A pointer moves within its allocation by as many bytes as it is moved, and reading its position
/// or casting it changes nothing.
pub proof fn law_pointers_move_by_their_offset(
    raw: RawV,
    records: Seq<RecordDecl>,
    a: i128,
    o: i128,
    by: i128,
    back: i128,
    ri: usize,
    span: Span,
)
    ensures
        ({
            let p = ValV::Ptr(a, o);
            let moved = raw_step(raw, records, RawOp::Offset, seq![p, ValV::Int(by)], span);
            &&& moved.1 == raw
            &&& moved.0 is Ok <==> i128::MIN <= o + by <= i128::MAX
            &&& moved.0 matches Ok(v) ==> v matches ValV::Ptr(x, y) && x == a && y == o + by
            &&& raw_step(raw, records, RawOp::CastRecord(ri), seq![p], span) == (
                Ok::<ValV, TrapV>(p),
                raw,
            )
            &&& raw_step(raw, records, RawOp::PointerOffsetRecord(ri), seq![p], span) == (
                Ok::<ValV, TrapV>(ValV::Int(o)),
                raw,
            )
        }),
{
    reveal(raw_step);
}

/// Byte `k` of the destination is byte `k` of the source, as it was before.
pub open spec fn carried(raw: RawV, first: RawV, s: (i128, i128), d: (i128, i128), k: int) -> bool {
    &&& 0 <= d.0 < raw.len()
    &&& 0 <= d.1 + k < raw[d.0 as int].bytes.len()
    &&& raw[d.0 as int].bytes[d.1 + k] == first[s.0 as int].bytes[s.1 + k]
}

proof fn lemma_copy(
    first: RawV,
    raw: RawV,
    s: (i128, i128),
    d: (i128, i128),
    n: i128,
    i: nat,
    span: Span,
    a: int,
    off: int,
)
    requires
        i <= n,
        raw_copy(raw, s, d, n, i, span).0 is Ok,
        s.0 != d.0 || s.1 + n <= d.1 || d.1 + n <= s.1,
        raw.len() == first.len(),
        forall|x: int, y: int|
            0 <= x < first.len() && 0 <= y < first[x].bytes.len() && !(x == d.0 && d.1 <= y < d.1 + i)
                ==> #[trigger] raw[x].bytes[y] == first[x].bytes[y],
        forall|x: int| 0 <= x < first.len() ==> (#[trigger] raw[x]).bytes.len() == first[x].bytes.len(),
        forall|k: int| 0 <= k < i ==> #[trigger] carried(raw, first, s, d, k),
    ensures
        ({
            let after = raw_copy(raw, s, d, n, i, span).1;
            &&& after.len() == first.len()
            &&& 0 <= a < first.len() && 0 <= off < first[a].bytes.len() && !(a == d.0 && d.1 <= off
                < d.1 + n) ==> after[a].bytes[off] == first[a].bytes[off]
            &&& forall|k: int| 0 <= k < n ==> #[trigger] carried(after, first, s, d, k)
        }),
    decreases n - i,
{
    if i < n {
        let b = raw[s.0 as int].bytes[s.1 + i]->Some_0;
        let next = set_byte(raw, d.0 as int, d.1 + i, b);
        assert(raw[s.0 as int].bytes[s.1 + i] == first[s.0 as int].bytes[s.1 + i]);
        assert forall|x: int, y: int|
            0 <= x < first.len() && 0 <= y < first[x].bytes.len() && !(x == d.0 && d.1 <= y < d.1 + (i
                + 1)) implies #[trigger] next[x].bytes[y] == first[x].bytes[y] by {
            assert(raw[x].bytes[y] == first[x].bytes[y]);
        }
        assert forall|k: int| 0 <= k < i + 1 implies #[trigger] carried(next, first, s, d, k) by {
            if k < i {
                assert(carried(raw, first, s, d, k));
            }
        }
        lemma_copy(first, next, s, d, n, i + 1, span, a, off);
    }
}

/// A copy between places that do not overlap leaves at the destination what the source held, byte for
/// byte, and every other byte as it was.
pub proof fn law_copies_carry_every_byte(
    raw: RawV,
    s: (i128, i128),
    d: (i128, i128),
    n: i128,
    span: Span,
    a: int,
    off: int,
)
    requires
        n >= 0,
        s.0 != d.0 || s.1 + n <= d.1 || d.1 + n <= s.1,
        raw_copy(raw, s, d, n, 0, span).0 is Ok,
    ensures
        ({
            let after = raw_copy(raw, s, d, n, 0, span).1;
            &&& 0 <= a < raw.len() && 0 <= off < raw[a].bytes.len() && !(a == d.0 && d.1 <= off < d.1
                + n) ==> after[a].bytes[off] == raw[a].bytes[off]
            &&& forall|k: int| 0 <= k < n ==> #[trigger] carried(after, raw, s, d, k)
        }),
{
    lemma_copy(raw, raw, s, d, n, 0, span, a, off);
}

// ------------------------------------------------------------------------------------------
// Cells
// ------------------------------------------------------------------------------------------

proof fn lemma_slot_first<V>(s: Seq<SlotV<V>>, start: int, i: nat)
    ensures
        slot_at(s, start, i) matches Some(k) ==> i <= k < s.len() && s[k as int].start == start
            && forall|j: int| i <= j < k ==> (#[trigger] s[j]).start != start,
        slot_at(s, start, i) is None ==> forall|j: int|
            i <= j < s.len() ==> (#[trigger] s[j]).start != start,
    decreases s.len() - i,
{
    if i < s.len() && s[i as int].start != start {
        lemma_slot_first(s, start, i + 1);
    }
}

/// A cell that is put at an offset is what is found there, and every other offset has the cell that
/// it had.
pub proof fn law_cells_are_found_where_they_were_put<V>(
    s: Seq<SlotV<V>>,
    start: int,
    value: V,
    other: int,
)
    ensures
        slot_value(put_slot(s, start, value), start) == Some(value),
        other != start ==> slot_value(put_slot(s, start, value), other) == slot_value(s, other),
        other != start ==> slot_value(drop_slot(s, start), other) == slot_value(s, other),
{
    let t = put_slot(s, start, value);
    lemma_slot_first(s, start, 0);
    lemma_slot_first(s, other, 0);
    lemma_slot_first(t, start, 0);
    lemma_slot_first(t, other, 0);
    let u = drop_slot(s, start);
    lemma_slot_first(u, other, 0);
    match slot_at(s, start, 0) {
        Some(k) => {
            assert(t[k as int].start == start && t[k as int].value == value);
            if other != start {
                match slot_at(s, other, 0) {
                    Some(j) => {
                        assert(t[j as int] == s[j as int]);
                        let x = if j < k {
                            j as int
                        } else {
                            j - 1
                        };
                        assert(u[x] == s[j as int]);
                        match slot_at(u, other, 0) {
                            Some(y) => {
                                let z = if y < k {
                                    y as int
                                } else {
                                    y as int + 1
                                };
                                assert(u[y as int] == s[z]);
                                assert(y == x);
                            },
                            None => {},
                        }
                    },
                    None => {
                        match slot_at(u, other, 0) {
                            Some(y) => {
                                let z = if y < k {
                                    y as int
                                } else {
                                    y as int + 1
                                };
                                assert(u[y as int] == s[z]);
                            },
                            None => {},
                        }
                    },
                }
            }
        },
        None => {
            assert(t[s.len() as int].start == start);
            if other != start {
                match slot_at(s, other, 0) {
                    Some(j) => {
                        assert(t[j as int] == s[j as int]);
                    },
                    None => {},
                }
            }
        },
    }
}

/// Bytes that become a word cell are reached as bytes no more; the offset must be a multiple of
/// eight, and all eight of them must have been in reach.
pub proof fn law_word_cells_cover_their_bytes(
    raw: RawV,
    records: Seq<RecordDecl>,
    a: i128,
    o: i128,
    span: Span,
    k: int,
)
    requires
        raw_step(raw, records, RawOp::IntoCellU64, seq![ValV::Ptr(a, o)], span).0 is Ok,
        0 <= k < 8,
    ensures
        o as int % 8 == 0,
        live_at(raw, a as int, o + k),
        !live_at(
            raw_step(raw, records, RawOp::IntoCellU64, seq![ValV::Ptr(a, o)], span).1,
            a as int,
            o + k,
        ),
{
    reveal(raw_step);
    let after = raw_step(raw, records, RawOp::IntoCellU64, seq![ValV::Ptr(a, o)], span).1;
    assert(live_at(raw, a as int, o as int + k));
    assert(live_at(raw, a as int, o as int + 0));
    let cells = raw[a as int].cells_u64;
    let put = put_slot(cells, o as int, None);
    lemma_slot_first(cells, o as int, 0);
    assert(after[a as int].cells_u64 == put);
    match slot_at(cells, o as int, 0) {
        Some(i) => {
            assert(put[i as int].start == o);
        },
        None => {
            assert(put[cells.len() as int].start == o);
        },
    }
    assert(word_covers(put, o + k));
}

/// The bytes that a cell gives back are zero, and no other byte changes.
pub proof fn law_returned_bytes_are_zero(bytes: Seq<Option<i128>>, off: int, n: int, i: int)
    requires
        0 <= i < bytes.len(),
    ensures
        zeroed(bytes, off, n).len() == bytes.len(),
        off <= i < off + n ==> zeroed(bytes, off, n)[i] == Some(0i128),
        !(off <= i < off + n) ==> zeroed(bytes, off, n)[i] == bytes[i],
{
}

/// A header that was initialized gives its size and its link back, each its own; a cleared header
/// gives neither, and can be initialized again.
pub proof fn law_headers_read_back(
    raw: RawV,
    records: Seq<RecordDecl>,
    a: i128,
    o: i128,
    size: i128,
    next: i128,
    span: Span,
)
    requires
        raw_step(
            raw,
            records,
            RawOp::HeaderInit,
            seq![ValV::Ptr(a, o), ValV::Int(size), ValV::Int(next)],
            span,
        ).0 is Ok,
        o + 8 <= i128::MAX,
    ensures
        ({
            let p = seq![ValV::Ptr(a, o)];
            let init = seq![ValV::Ptr(a, o), ValV::Int(size), ValV::Int(next)];
            let full = raw_step(raw, records, RawOp::HeaderInit, init, span).1;
            let clear = raw_step(full, records, RawOp::HeaderClear, p, span);
            &&& raw_step(full, records, RawOp::HeaderSize, p, span) == (
                Ok::<ValV, TrapV>(ValV::Int(size)),
                full,
            )
            &&& raw_step(full, records, RawOp::HeaderNext, p, span) == (
                Ok::<ValV, TrapV>(ValV::Int(next)),
                full,
            )
            &&& raw_step(full, records, RawOp::HeaderInit, init, span).0 is Err
            &&& clear.0 is Ok
            &&& raw_step(clear.1, records, RawOp::HeaderSize, p, span).0 is Err
            &&& raw_step(clear.1, records, RawOp::HeaderNext, p, span).0 is Err
            &&& raw_step(clear.1, records, RawOp::HeaderInit, init, span).0 is Ok
        }),
{
    reveal(raw_step);
    let p = seq![ValV::Ptr(a, o)];
    let init = seq![ValV::Ptr(a, o), ValV::Int(size), ValV::Int(next)];
    let full = raw_step(raw, records, RawOp::HeaderInit, init, span).1;
    let al = raw[a as int];
    let one = put_slot(al.cells_u64, o as int, Some(size));
    let two = put_slot(one, o + 8, Some(next));
    law_cells_are_found_where_they_were_put(al.cells_u64, o as int, Some(size), o + 8);
    law_cells_are_found_where_they_were_put(one, o + 8, Some(next), o as int);
    assert(full[a as int].cells_u64 == two);
    let three = put_slot(two, o as int, None);
    let four = put_slot(three, o + 8, None);
    law_cells_are_found_where_they_were_put(two, o as int, None, o + 8);
    law_cells_are_found_where_they_were_put(three, o + 8, None, o as int);
    let clear = raw_step(full, records, RawOp::HeaderClear, p, span);
    assert(clear.1[a as int].cells_u64 == four);
}

/// A word that is put into a cell is what a read and a take give back; a taken and a dropped cell
/// hold nothing.
pub proof fn law_word_cells_read_back(
    raw: RawV,
    records: Seq<RecordDecl>,
    a: i128,
    o: i128,
    w: i128,
    span: Span,
)
    requires
        raw_step(
            raw,
            records,
            RawOp::CellInitU64,
            seq![ValV::Ptr(a, o), ValV::Int(w)],
            span,
        ).0 is Ok,
    ensures
        ({
            let p = seq![ValV::Ptr(a, o)];
            let full = raw_step(
                raw,
                records,
                RawOp::CellInitU64,
                seq![ValV::Ptr(a, o), ValV::Int(w)],
                span,
            ).1;
            let taken = raw_step(full, records, RawOp::CellTakeU64, p, span);
            let dropped = raw_step(full, records, RawOp::CellDropU64, p, span);
            &&& raw_step(full, records, RawOp::CellReadU64, p, span) == (
                Ok::<ValV, TrapV>(ValV::Int(w)),
                full,
            )
            &&& taken.0 == Ok::<ValV, TrapV>(ValV::Int(w))
            &&& dropped.0 == Ok::<ValV, TrapV>(ValV::Unit)
            &&& taken.1 == dropped.1
            &&& raw_step(taken.1, records, RawOp::CellReadU64, p, span).0 is Err
            &&& raw_step(taken.1, records, RawOp::CellTakeU64, p, span).0 is Err
        }),
{
    reveal(raw_step);
    let full = raw_step(
        raw,
        records,
        RawOp::CellInitU64,
        seq![ValV::Ptr(a, o), ValV::Int(w)],
        span,
    ).1;
    let al = raw[a as int];
    law_cells_are_found_where_they_were_put(al.cells_u64, o as int, Some(w), o as int);
    law_cells_are_found_where_they_were_put(full[a as int].cells_u64, o as int, None, o as int);
}

/// A record that is put into a cell of its own type is what a read and a take give back; a cell of
/// another type gives none.
pub proof fn law_record_cells_read_back(
    raw: RawV,
    records: Seq<RecordDecl>,
    ri: usize,
    other: usize,
    a: i128,
    o: i128,
    v: ValV,
    span: Span,
)
    requires
        raw_step(
            raw,
            records,
            RawOp::CellInitRecord(ri),
            seq![ValV::Ptr(a, o), v],
            span,
        ).0 is Ok,
    ensures
        ({
            let p = seq![ValV::Ptr(a, o)];
            let full = raw_step(
                raw,
                records,
                RawOp::CellInitRecord(ri),
                seq![ValV::Ptr(a, o), v],
                span,
            ).1;
            let taken = raw_step(full, records, RawOp::CellTakeRecord(ri), p, span);
            &&& copyable(v)
            &&& raw_step(full, records, RawOp::CellReadRecord(ri), p, span) == (
                Ok::<ValV, TrapV>(v),
                full,
            )
            &&& taken.0 == Ok::<ValV, TrapV>(v)
            &&& raw_step(full, records, RawOp::CellDropRecord(ri), p, span).0 is Ok
            &&& raw_step(taken.1, records, RawOp::CellReadRecord(ri), p, span).0 is Err
            &&& other != ri ==> raw_step(full, records, RawOp::CellReadRecord(other), p, span).0 is Err
            &&& raw_step(
                full,
                records,
                RawOp::CellInitRecord(ri),
                seq![ValV::Ptr(a, o), v],
                span,
            ).0 is Err
        }),
{
    reveal(raw_step);
    let args = seq![ValV::Ptr(a, o), v];
    let p = seq![ValV::Ptr(a, o)];
    let full = raw_step(raw, records, RawOp::CellInitRecord(ri), args, span).1;
    let al = raw[a as int];
    let cell = slot_value(al.cells_record, o as int)->Some_0;
    let kept = RecCellV { value: Some(v), ..cell };
    law_cells_are_found_where_they_were_put(al.cells_record, o as int, kept, o as int);
    let now = full[a as int].cells_record;
    let emptied = RecCellV { value: None, ..kept };
    law_cells_are_found_where_they_were_put(now, o as int, emptied, o as int);
    assert(args[1] == v);
}

/// Bytes that become a record cell are aligned and in reach, and the cell is empty and of its own type;
/// an empty cell of the same type, and only such a one, becomes bytes again, which are then zero.
pub proof fn law_record_cells_come_and_go(
    raw: RawV,
    records: Seq<RecordDecl>,
    ri: usize,
    a: i128,
    o: i128,
    span: Span,
    k: int,
)
    ensures
        ({
            let p = seq![ValV::Ptr(a, o)];
            let into = raw_step(raw, records, RawOp::IntoCellRecord(ri), p, span);
            let from = raw_step(raw, records, RawOp::FromCellRecord(ri), p, span);
            &&& into.0 is Ok ==> {
                &&& ri < records.len()
                &&& o as int % (records[ri as int].layout.align as int) == 0
                &&& 0 <= k < records[ri as int].layout.size ==> live_at(raw, a as int, o + k)
                &&& slot_value(into.1[a as int].cells_record, o as int) matches Some(cell)
                &&& cell.record == ri
                &&& cell.value is None
            }
            &&& from.0 is Ok ==> {
                &&& 0 <= a < raw.len()
                &&& raw[a as int].live
                &&& slot_value(raw[a as int].cells_record, o as int) matches Some(cell)
                &&& cell.record == ri
                &&& cell.value is None
                &&& 0 <= k < cell.layout.size ==> from.1[a as int].bytes[o + k] == Some(0i128)
            }
            &&& into.0 is Err ==> into.1 == raw
            &&& from.0 is Err ==> from.1 == raw
        }),
{
    reveal(raw_step);
    let p = seq![ValV::Ptr(a, o)];
    let into = raw_step(raw, records, RawOp::IntoCellRecord(ri), p, span);
    if into.0 is Ok {
        let layout = records[ri as int].layout;
        if 0 <= k < layout.size {
            assert(live_at(raw, a as int, o as int + k));
        }
        law_cells_are_found_where_they_were_put(
            raw[a as int].cells_record,
            o as int,
            RecCellV { record: ri, layout, value: None },
            o as int,
        );
    }
}

/// An empty word cell, and only such a one, becomes bytes again, which are then zero.
pub proof fn law_word_cells_come_and_go(
    raw: RawV,
    records: Seq<RecordDecl>,
    a: i128,
    o: i128,
    span: Span,
    k: int,
)
    ensures
        ({
            let p = seq![ValV::Ptr(a, o)];
            let into = raw_step(raw, records, RawOp::IntoCellU64, p, span);
            let from = raw_step(raw, records, RawOp::FromCellU64, p, span);
            &&& into.0 is Ok ==> slot_value(into.1[a as int].cells_u64, o as int) == Some(
                None::<i128>,
            )
            &&& from.0 is Ok ==> {
                &&& 0 <= a < raw.len()
                &&& raw[a as int].live
                &&& slot_value(raw[a as int].cells_u64, o as int) == Some(None::<i128>)
                &&& 0 <= k < 8 ==> from.1[a as int].bytes[o + k] == Some(0i128)
            }
            &&& into.0 is Err ==> into.1 == raw
            &&& from.0 is Err ==> from.1 == raw
        }),
{
    reveal(raw_step);
    let p = seq![ValV::Ptr(a, o)];
    let into = raw_step(raw, records, RawOp::IntoCellU64, p, span);
    if into.0 is Ok {
        assert(live_at(raw, a as int, o as int + 0));
        law_cells_are_found_where_they_were_put(
            raw[a as int].cells_u64,
            o as int,
            None,
            o as int,
        );
    }
}

// ------------------------------------------------------------------------------------------
// The scripted world
// ------------------------------------------------------------------------------------------

/// A scripted world has sixteen bytes of data, each seven more than the one before it from three on,
/// and three descriptors, all at the start and none handed out.
pub proof fn law_scripted_worlds(script: i128, i: int)
    ensures
        ({
            let w = scripted_world(script);
            &&& w.data.len() == 16
            &&& 0 <= i < 16 ==> w.data[i] == 3 + 7 * i
            &&& forall|fd: i128| #[trigger] w.has(fd) <==> 0 <= fd < 3
            &&& w.pos.len() == 3
            &&& 0 <= i < 3 ==> w.pos[i] == 0
            &&& w.claimed.len() == 0
            &&& w.reads == 0
        }),
        script == 0 ==> schedule_of(script).len() == 0,
        script == 1 ==> schedule_of(script) == seq![ReadOutcome::Full, ReadOutcome::Short(2)],
        script == 2 ==> schedule_of(script) == seq![ReadOutcome::Fail(5)],
{
}

/// Byte `k` behind the pointer is `b`.
pub open spec fn written(raw: RawV, p: (i128, i128), k: int, b: i128) -> bool {
    &&& 0 <= p.0 < raw.len()
    &&& 0 <= p.1 + k < raw[p.0 as int].bytes.len()
    &&& raw[p.0 as int].bytes[p.1 + k] == Some(b)
}

proof fn lemma_write(
    raw: RawV,
    name: Seq<char>,
    p: (i128, i128),
    bytes: Seq<i128>,
    i: nat,
    span: Span,
)
    requires
        i <= bytes.len(),
        write_from(raw, name, p, bytes, i, span).0 is Ok,
        forall|k: int| 0 <= k < i ==> #[trigger] written(raw, p, k, bytes[k]),
    ensures
        forall|k: int|
            0 <= k < bytes.len() ==> #[trigger] written(
                write_from(raw, name, p, bytes, i, span).1,
                p,
                k,
                bytes[k],
            ),
    decreases bytes.len() - i,
{
    if i < bytes.len() {
        let next = set_byte(raw, p.0 as int, p.1 + i, bytes[i as int]);
        assert forall|k: int| 0 <= k < i + 1 implies #[trigger] written(next, p, k, bytes[k]) by {
            if k < i {
                assert(written(raw, p, k, bytes[k]));
            }
        }
        lemma_write(next, name, p, bytes, i + 1, span);
    }
}

/// How many bytes a read brings: what is asked for, but no more than are left, and where the schedule
/// says so no more than it allows.
pub open spec fn brought(w: WorldV, fd: i128, n: i128) -> int {
    let left = if w.data.len() > w.pos[fd as int] {
        w.data.len() - w.pos[fd as int]
    } else {
        0
    };
    let asked = match w.outcome() {
        ReadOutcome::Short(k) => if k < n {
            k as int
        } else {
            n as int
        },
        _ => n as int,
    };
    if asked < left {
        asked
    } else {
        left
    }
}

/// A read that succeeds brings the next bytes of its descriptor, in order, to where the pointer
/// points; says how many; and moves its descriptor on by as many and no other.
pub proof fn law_reads_bring_the_next_bytes(
    raw: RawV,
    w: WorldV,
    name: Seq<char>,
    fd: i128,
    a: i128,
    o: i128,
    n: i128,
    span: Span,
)
    requires
        n >= 0,
        w.has(fd),
        fd < w.pos.len(),
        w.pos[fd as int] >= 0,
        w.data.len() <= i128::MAX,
        !(w.outcome() is Fail),
        w.outcome() matches ReadOutcome::Short(k) ==> k >= 0,
    ensures
        ({
            let s = shim_step(
                raw,
                Some(w),
                name,
                "posix.read.v1"@,
                seq![ValV::Int(fd), ValV::Ptr(a, o), ValV::Int(n)],
                span,
            );
            let got = brought(w, fd, n);
            let pos = w.pos[fd as int];
            &&& 0 <= got <= n
            &&& s.0 is Ok ==> {
                &&& s.0 == Ok::<ValV, TrapV>(ValV::Int(got as i128))
                &&& s.2 matches Some(after)
                &&& after.pos == w.pos.update(fd as int, (pos + got) as i128)
                &&& after.data == w.data
                &&& after.claimed == w.claimed
                &&& w.reads < usize::MAX ==> after.reads == w.reads + 1
                &&& forall|k: int|
                    0 <= k < got ==> #[trigger] written(s.1, (a, o), k, w.data[pos + k])
            }
        }),
{
    reveal(shim_step);
    lemma_audits();
    let args = seq![ValV::Int(fd), ValV::Ptr(a, o), ValV::Int(n)];
    let s = shim_step(raw, Some(w), name, "posix.read.v1"@, args, span);
    let got = brought(w, fd, n);
    let pos = w.pos[fd as int];
    let bytes = if got > 0 {
        w.data.subrange(pos as int, pos + got)
    } else {
        Seq::empty()
    };
    assert(s == shim_read(raw, w, name, fd, (a, o), n, span));
    if s.0 is Ok {
        lemma_write(raw, name, (a, o), bytes, 0, span);
        assert(s.1 == write_from(raw, name, (a, o), bytes, 0, span).1);
        assert forall|k: int| 0 <= k < got implies #[trigger] written(
            s.1,
            (a, o),
            k,
            w.data[pos + k],
        ) by {
            assert(bytes[k] == w.data[pos + k]);
            assert(written(s.1, (a, o), k, bytes[k]));
        }
    }
}

proof fn lemma_audits()
    ensures
        "posix.read.v1"@ != "test.fill.v1"@,
        "posix.read.v1"@ != "test.checksum.v1"@,
        "posix.close.v2"@ != "test.fill.v1"@,
        "posix.close.v2"@ != "test.checksum.v1"@,
        "posix.close.v2"@ != "posix.read.v1"@,
{
    reveal_strlit("posix.read.v1");
    reveal_strlit("posix.close.v2");
    reveal_strlit("test.fill.v1");
    reveal_strlit("test.checksum.v1");
    assert("posix.read.v1"@[0] == 'p' && "posix.close.v2"@[0] == 'p');
    assert("test.fill.v1"@[0] == 't' && "test.checksum.v1"@[0] == 't');
    assert("posix.read.v1"@.len() == 13 && "posix.close.v2"@.len() == 14);
}

/// A read that is scheduled to fail gives the negative of its error, and brings and moves nothing.
pub proof fn law_failed_reads_bring_nothing(
    raw: RawV,
    w: WorldV,
    name: Seq<char>,
    fd: i128,
    a: i128,
    o: i128,
    n: i128,
    span: Span,
    e: i128,
)
    requires
        w.has(fd),
        w.outcome() == ReadOutcome::Fail(e),
        e > 0,
    ensures
        ({
            let s = shim_step(
                raw,
                Some(w),
                name,
                "posix.read.v1"@,
                seq![ValV::Int(fd), ValV::Ptr(a, o), ValV::Int(n)],
                span,
            );
            &&& s.0 == Ok::<ValV, TrapV>(ValV::Int((-e) as i128))
            &&& s.1 == raw
            &&& s.2 matches Some(after)
            &&& after.pos == w.pos
        }),
{
    reveal(shim_step);
    lemma_audits();
}

/// A read and a close need a world, and a descriptor that it has; a close gives zero and changes
/// nothing.
pub proof fn law_descriptors_are_needed(
    raw: RawV,
    world: Option<WorldV>,
    name: Seq<char>,
    fd: i128,
    a: i128,
    o: i128,
    n: i128,
    span: Span,
)
    ensures
        ({
            let read = shim_step(
                raw,
                world,
                name,
                "posix.read.v1"@,
                seq![ValV::Int(fd), ValV::Ptr(a, o), ValV::Int(n)],
                span,
            );
            let close = shim_step(raw, world, name, "posix.close.v2"@, seq![ValV::Int(fd)], span);
            &&& world is None || !world->Some_0.has(fd) ==> read.0 is Err && read.1 == raw && read.2
                == world && close.0 is Err
            &&& world is Some && world->Some_0.has(fd) ==> close.0 == Ok::<ValV, TrapV>(
                ValV::Int(0),
            )
            &&& close.1 == raw && close.2 == world
        }),
{
    reveal(shim_step);
    lemma_audits();
}

/// The schedule is followed read by read, and a read after its end is a full one.
pub proof fn law_schedules_are_followed(w: WorldV)
    ensures
        w.reads < w.schedule.len() ==> w.outcome() == w.schedule[w.reads as int],
        w.reads >= w.schedule.len() ==> w.outcome() == ReadOutcome::Full,
{
}

/// The first transmitter is always ready, the second from the third status on, and any other never.
pub proof fn law_transmitters_follow_their_script(u: UartV)
    ensures
        u.script == 0 ==> u.status_value() == 1,
        u.script == 1 ==> u.status_value() == (if u.cursor >= 2 {
            1i128
        } else {
            0i128
        }),
        u.script != 0 && u.script != 1 ==> u.status_value() == 0,
        new_uart(u.script).cursor == 0,
        !new_uart(u.script).ready,
        new_uart(u.script).events == Seq::<MmioEvent>::empty(),
        u.cursor < usize::MAX ==> u.after_status().cursor == u.cursor + 1,
        u.after_status().script == u.script,
        u.after_write(0).cursor == u.cursor,
{
}

} // verus!
