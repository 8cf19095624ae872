//! Raw memory: allocations with a life, bytes with or without a value, and typed cells laid over
//! the bytes.
use vstd::prelude::*;

use crate::ast::{RawOp, RecordDecl, StorageLayout};
use crate::repr::{group_views, opt_view, views, Repr};
use crate::slots::{
    drop_slot, find_slot, lemma_slot_at, put_slot, set_slot, slot_at, slot_value, take_slot, Slot,
    SlotV,
};
use crate::span::Span;
use crate::text::{cat2, cat3, cat4, cat5, cat6, cat7, int_text, signed_decimal};
use crate::value::{copyable, stuck, undefined, yields, RtVal, Trap, TrapV, ValV};

verus! {

broadcast use group_views;

/// The content of a typed word cell, if it has one.
#[derive(Clone, Copy, Debug)]
pub struct WordCell {
    pub value: Option<i128>,
}

impl View for WordCell {
    type V = Option<i128>;

    open spec fn view(&self) -> Option<i128> {
        self.value
    }
}

/// A typed record cell: its type, its extent, and its content if it has one.
#[derive(Debug)]
pub struct RecordCell {
    pub record: usize,
    pub layout: StorageLayout,
    pub value: Option<RtVal>,
}

pub ghost struct RecCellV {
    pub record: usize,
    pub layout: StorageLayout,
    pub value: Option<ValV>,
}

impl View for RecordCell {
    type V = RecCellV;

    open spec fn view(&self) -> RecCellV {
        RecCellV { record: self.record, layout: self.layout, value: opt_view(self.value) }
    }
}

/// One allocation. A byte without a value is distinct from every byte value, and the bytes under
/// a cell are out of reach until the cell is turned back into bytes.
#[derive(Debug)]
pub struct RawAlloc {
    pub live: bool,
    pub bytes: Vec<Option<i128>>,
    pub cells_u64: Vec<Slot<WordCell>>,
    pub cells_record: Vec<Slot<RecordCell>>,
}

pub ghost struct AllocV {
    pub live: bool,
    pub bytes: Seq<Option<i128>>,
    pub cells_u64: Seq<SlotV<Option<i128>>>,
    pub cells_record: Seq<SlotV<RecCellV>>,
}

impl View for RawAlloc {
    type V = AllocV;

    open spec fn view(&self) -> AllocV {
        AllocV {
            live: self.live,
            bytes: self.bytes@,
            cells_u64: views(self.cells_u64@),
            cells_record: views(self.cells_record@),
        }
    }
}

/// The raw heap. An allocation's identity is its index, and a dead allocation keeps it, so that
/// a stale pointer never names a fresh allocation.
#[derive(Debug)]
pub struct RawHeap {
    pub allocs: Vec<RawAlloc>,
}

pub type RawV = Seq<AllocV>;

impl View for RawHeap {
    type V = RawV;

    open spec fn view(&self) -> RawV {
        views(self.allocs@)
    }
}

pub open spec fn fresh_alloc(bytes: Seq<Option<i128>>) -> AllocV {
    AllocV { live: true, bytes, cells_u64: Seq::empty(), cells_record: Seq::empty() }
}

/// The allocation of an identity, live or dead.
pub open spec fn alloc_of(raw: RawV, a: int) -> Option<AllocV> {
    if 0 <= a < raw.len() {
        Some(raw[a])
    } else {
        None
    }
}

/// A word cell lies over the byte.
pub open spec fn word_covers(cells: Seq<SlotV<Option<i128>>>, off: int) -> bool {
    exists|i: int|
        0 <= i < cells.len() && (#[trigger] cells[i]).start <= off < cells[i].start + 8
}

/// A record cell lies over the byte.
pub open spec fn record_covers(cells: Seq<SlotV<RecCellV>>, off: int) -> bool {
    exists|i: int|
        0 <= i < cells.len() && (#[trigger] cells[i]).start <= off < cells[i].start
            + cells[i].value.layout.size
}

/// A byte of the allocation that may be read and written.
pub open spec fn reachable(al: AllocV, off: int) -> bool {
    al.live && 0 <= off < al.bytes.len() && !word_covers(al.cells_u64, off) && !record_covers(
        al.cells_record,
        off,
    )
}

pub open spec fn live_at(raw: RawV, a: int, off: int) -> bool {
    alloc_of(raw, a) matches Some(al) && reachable(al, off)
}

/// The `n` bytes from `off` on are all reachable.
pub open spec fn live_run(raw: RawV, a: int, off: int, n: int) -> bool {
    forall|i: int| 0 <= i < n ==> #[trigger] live_at(raw, a, off + i)
}

pub open spec fn set_byte(raw: RawV, a: int, off: int, b: i128) -> RawV {
    raw.update(a, AllocV { bytes: raw[a].bytes.update(off, Some(b)), ..raw[a] })
}

pub open spec fn zeroed(bytes: Seq<Option<i128>>, off: int, n: int) -> Seq<Option<i128>> {
    Seq::new(
        bytes.len(),
        |i: int|
            if off <= i < off + n {
                Some(0i128)
            } else {
                bytes[i]
            },
    )
}

impl RawHeap {
    pub fn new() -> (r: RawHeap)
        ensures
            r@ == Seq::<AllocV>::empty(),
    {
        RawHeap { allocs: Vec::new() }
    }

    /// A new live allocation, under an identity that no allocation had.
    pub fn fresh(&mut self, bytes: Vec<Option<i128>>) -> (id: i128)
        ensures
            id == old(self)@.len(),
            final(self)@ == old(self)@.push(fresh_alloc(bytes@)),
    {
        let id = self.allocs.len() as i128;
        self.allocs.push(
            RawAlloc { live: true, bytes, cells_u64: Vec::new(), cells_record: Vec::new() },
        );
        id
    }

    pub fn index_of(&self, a: i128) -> (r: Option<usize>)
        ensures
            match alloc_of(self@, a as int) {
                Some(al) => r matches Some(i) && i == a && i < self.allocs@.len()
                    && self.allocs@[i as int]@ == al,
                None => r is None,
            },
    {
        if a < 0 || a >= self.allocs.len() as i128 {
            return None;
        }
        Some(a as usize)
    }

    /// Where the allocation of a reachable byte stands.
    pub fn live_at(&self, a: i128, off: i128) -> (r: Option<usize>)
        ensures
            r is Some == live_at(self@, a as int, off as int),
            r matches Some(i) ==> i == a && i < self.allocs@.len() && 0 <= off
                < self.allocs@[i as int].bytes@.len(),
    {
        match self.index_of(a) {
            None => None,
            Some(i) => {
                if self.allocs[i].reachable(off) {
                    Some(i)
                } else {
                    None
                }
            },
        }
    }

    /// Whether a run of bytes is reachable.
    pub fn live_run(&self, a: i128, off: i128, n: i128) -> (r: bool)
        ensures
            r == live_run(self@, a as int, off as int, n as int),
    {
        let mut i: i128 = 0;
        while i < n
            invariant
                0 <= i,
                i <= n || n <= 0,
                forall|k: int| 0 <= k < i ==> #[trigger] live_at(self@, a as int, off + k),
            decreases n - i,
        {
            let at = match off.checked_add(i) {
                Some(at) => at,
                None => {
                    assert(!live_at(self@, a as int, off + i)) by {
                        if live_at(self@, a as int, off + i) {
                            let al = self.allocs@[a as int];
                            assert(self@[a as int] == al@);
                            assert(al.bytes.len() == al.bytes@.len());
                        }
                    }
                    return false;
                },
            };
            if self.live_at(a, at).is_none() {
                assert(!live_at(self@, a as int, off + i));
                return false;
            }
            i = i + 1;
        }
        true
    }

    pub fn set_byte(&mut self, a: usize, off: i128, b: i128)
        requires
            a < old(self)@.len(),
            0 <= off < old(self)@[a as int].bytes.len(),
        ensures
            final(self)@ == set_byte(old(self)@, a as int, off as int, b),
    {
        let ghost before = self.allocs@;
        assert(self@[a as int] == before[a as int]@);
        assert(before[a as int].bytes.len() == before[a as int].bytes@.len());
        self.allocs[a].bytes.set(off as usize, Some(b));
        assert(self.allocs@ == before.update(a as int, self.allocs@[a as int]));
        assert(self.allocs@[a as int]@ == AllocV {
            bytes: before[a as int]@.bytes.update(off as int, Some(b)),
            ..before[a as int]@
        });
    }

    /// The value of a byte.
    pub fn byte(&self, a: usize, off: i128) -> (r: Option<i128>)
        requires
            a < self@.len(),
            0 <= off < self@[a as int].bytes.len(),
        ensures
            r == self@[a as int].bytes[off as int],
    {
        assert(self@[a as int] == self.allocs@[a as int]@);
        assert(self.allocs@[a as int].bytes.len() == self.allocs@[a as int].bytes@.len());
        self.allocs[a].bytes[off as usize]
    }
}

impl RawAlloc {
    fn reachable(&self, off: i128) -> (r: bool)
        ensures
            r == reachable(self@, off as int),
    {
        if !self.live || off < 0 || off >= self.bytes.len() as i128 {
            return false;
        }
        let n: usize = self.cells_u64.len();
        let mut i: usize = 0;
        while i < n
            invariant
                n == self.cells_u64@.len(),
                i <= n,
                forall|k: int|
                    0 <= k < i ==> !((#[trigger] self@.cells_u64[k]).start <= off
                        < self@.cells_u64[k].start + 8),
            decreases n - i,
        {
            assert(self@.cells_u64[i as int] == self.cells_u64@[i as int]@);
            if within(self.cells_u64[i].start, off, 8) {
                return false;
            }
            i = i + 1;
        }
        let n: usize = self.cells_record.len();
        let mut i: usize = 0;
        while i < n
            invariant
                n == self.cells_record@.len(),
                i <= n,
                forall|k: int|
                    0 <= k < i ==> !((#[trigger] self@.cells_record[k]).start <= off
                        < self@.cells_record[k].start + self@.cells_record[k].value.layout.size),
            decreases n - i,
        {
            assert(self@.cells_record[i as int] == self.cells_record@[i as int]@);
            if within(
                self.cells_record[i].start,
                off,
                self.cells_record[i].value.layout.size,
            ) {
                return false;
            }
            i = i + 1;
        }
        true
    }

    fn zero(&mut self, off: i128, n: i128)
        requires
            0 <= off,
            0 <= n,
            off + n <= old(self)@.bytes.len(),
        ensures
            final(self)@ == (AllocV {
                bytes: zeroed(old(self)@.bytes, off as int, n as int),
                ..old(self)@
            }),
    {
        let len: usize = self.bytes.len();
        let mut i: i128 = 0;
        assert(self@.bytes =~= zeroed(old(self)@.bytes, off as int, 0));
        while i < n
            invariant
                0 <= i <= n,
                0 <= off,
                len == old(self)@.bytes.len(),
                off + n <= old(self)@.bytes.len(),
                self@ == (AllocV {
                    bytes: zeroed(old(self)@.bytes, off as int, i as int),
                    ..old(self)@
                }),
            decreases n - i,
        {
            self.bytes.set((off + i) as usize, Some(0));
            assert(self@.bytes =~= zeroed(old(self)@.bytes, off as int, i + 1));
            i = i + 1;
        }
    }
}

/// Whether an offset lies in the extent of `size` bytes from `start` on.
fn within(start: i128, off: i128, size: i128) -> (r: bool)
    ensures
        r == (start <= off < start + size),
{
    if off < start {
        return false;
    }
    match off.checked_sub(start) {
        Some(d) => d < size,
        None => false,
    }
}

// ------------------------------------------------------------------------------------------
// Operations
// ------------------------------------------------------------------------------------------

/// A result and the heap that it leaves.
pub type RawStep = (Result<ValV, TrapV>, RawV);

pub open spec fn at_text(a: i128, o: int) -> Seq<char> {
    int_text(a as int) + "+"@ + int_text(o)
}

pub open spec fn raw_bad(raw: RawV, span: Span, message: Seq<char>) -> RawStep {
    (Err(undefined(span, message)), raw)
}

pub open spec fn raw_stuck(raw: RawV, span: Span, what: Seq<char>) -> RawStep {
    (Err(stuck(span, what)), raw)
}

pub open spec fn pointer(vals: Seq<ValV>, i: nat) -> Option<(i128, i128)> {
    if i < vals.len() {
        match vals[i as int] {
            ValV::Ptr(a, o) => Some((a, o)),
            _ => None,
        }
    } else {
        None
    }
}

pub open spec fn number(vals: Seq<ValV>, i: nat) -> Option<i128> {
    if i < vals.len() {
        match vals[i as int] {
            ValV::Int(n) => Some(n),
            _ => None,
        }
    } else {
        None
    }
}

pub fn pointer_at(vals: &Vec<RtVal>, i: usize) -> (r: Option<(i128, i128)>)
    ensures
        r == pointer(views(vals@), i as nat),
{
    if i < vals.len() {
        assert(views(vals@)[i as int] == vals@[i as int]@);
        match &vals[i] {
            RtVal::Ptr(a, o) => Some((*a, *o)),
            _ => None,
        }
    } else {
        None
    }
}

pub fn number_at(vals: &Vec<RtVal>, i: usize) -> (r: Option<i128>)
    ensures
        r == number(views(vals@), i as nat),
{
    if i < vals.len() {
        assert(views(vals@)[i as int] == vals@[i as int]@);
        match &vals[i] {
            RtVal::Int(n) => Some(*n),
            _ => None,
        }
    } else {
        None
    }
}

fn at(a: i128, o: i128) -> (r: String)
    ensures
        r@ == at_text(a, o as int),
{
    cat3(signed_decimal(a).as_str(), "+", signed_decimal(o).as_str())
}

fn bad(span: Span, message: String) -> (r: Result<RtVal, Trap>)
    ensures
        yields(r, Err(undefined(span, message@))),
{
    Err(Trap::undefined(span, message))
}

fn halt(span: Span, what: &str) -> (r: Result<RtVal, Trap>)
    ensures
        yields(r, Err(stuck(span, what@))),
{
    Err(Trap::stuck(span, what))
}

pub open spec fn with_words(
    raw: RawV,
    a: int,
    cells: Seq<SlotV<Option<i128>>>,
) -> RawV {
    raw.update(a, AllocV { cells_u64: cells, ..raw[a] })
}

pub open spec fn with_records(raw: RawV, a: int, cells: Seq<SlotV<RecCellV>>) -> RawV {
    raw.update(a, AllocV { cells_record: cells, ..raw[a] })
}

pub open spec fn record_name(records: Seq<RecordDecl>, ri: usize) -> Seq<char> {
    records[ri as int].name@
}

pub open spec fn raw_offset(raw: RawV, p: (i128, i128), by: i128, span: Span) -> RawStep {
    if i128::MIN <= p.1 + by <= i128::MAX {
        (Ok(ValV::Ptr(p.0, (p.1 + by) as i128)), raw)
    } else {
        raw_stuck(raw, span, "pointer offset"@)
    }
}

pub open spec fn raw_load8(raw: RawV, p: (i128, i128), span: Span) -> RawStep {
    if !live_at(raw, p.0 as int, p.1 as int) {
        raw_bad(
            raw,
            span,
            "raw_load8 out of bounds or after free: "@ + at_text(p.0, p.1 as int),
        )
    } else {
        match raw[p.0 as int].bytes[p.1 as int] {
            Some(b) => (Ok(ValV::Int(b)), raw),
            None => raw_bad(
                raw,
                span,
                "raw_load8 reads uninitialized byte "@ + int_text(p.1 as int) + " of allocation "@
                    + int_text(p.0 as int),
            ),
        }
    }
}

pub open spec fn raw_store8(raw: RawV, p: (i128, i128), b: i128, span: Span) -> RawStep {
    if !live_at(raw, p.0 as int, p.1 as int) {
        raw_bad(
            raw,
            span,
            "raw_store8 out of bounds or after free: "@ + at_text(p.0, p.1 as int),
        )
    } else {
        (Ok(ValV::Unit), set_byte(raw, p.0 as int, p.1 as int, b))
    }
}

/// The bytes from `i` on, copied one by one. What was copied before a failure stays copied.
pub open spec fn raw_copy(
    raw: RawV,
    s: (i128, i128),
    d: (i128, i128),
    n: i128,
    i: nat,
    span: Span,
) -> RawStep
    decreases n - i,
{
    if i >= n {
        (Ok(ValV::Unit), raw)
    } else if !live_at(raw, s.0 as int, s.1 + i) {
        raw_bad(
            raw,
            span,
            "raw_copy_nonoverlapping source out of bounds: "@ + at_text(s.0, s.1 + i),
        )
    } else {
        match raw[s.0 as int].bytes[s.1 + i] {
            None => raw_bad(
                raw,
                span,
                "raw_copy_nonoverlapping reads uninitialized byte "@ + int_text(s.1 + i)
                    + " of allocation "@ + int_text(s.0 as int),
            ),
            Some(b) => if !live_at(raw, d.0 as int, d.1 + i) {
                raw_bad(
                    raw,
                    span,
                    "raw_copy_nonoverlapping destination out of bounds: "@ + at_text(d.0, d.1 + i),
                )
            } else {
                raw_copy(set_byte(raw, d.0 as int, d.1 + i, b), s, d, n, i + 1, span)
            },
        }
    }
}

/// Bytes become one or two empty word cells.
pub open spec fn raw_into_words(raw: RawV, p: (i128, i128), two: bool, span: Span) -> RawStep {
    let (name, count) = if two {
        ("raw_into_free_header"@, "sixteen"@)
    } else {
        ("raw_into_cell_u64"@, "eight"@)
    };
    let size = if two {
        16int
    } else {
        8int
    };
    if (p.1 as int) % 8 != 0 {
        raw_bad(raw, span, name + " needs 8-byte alignment: "@ + at_text(p.0, p.1 as int))
    } else if !live_run(raw, p.0 as int, p.1 as int, size) {
        raw_bad(raw, span, name + " needs "@ + count + " raw bytes at "@ + at_text(p.0, p.1 as int))
    } else {
        let first = put_slot(raw[p.0 as int].cells_u64, p.1 as int, None);
        let cells = if two {
            put_slot(first, p.1 + 8, None)
        } else {
            first
        };
        (Ok(ValV::Unit), with_words(raw, p.0 as int, cells))
    }
}

/// One or two empty word cells become zero bytes.
pub open spec fn raw_from_words(raw: RawV, p: (i128, i128), two: bool, span: Span) -> RawStep {
    let name = if two {
        "raw_from_free_header"@
    } else {
        "raw_from_cell_u64"@
    };
    let size = if two {
        16int
    } else {
        8int
    };
    match alloc_of(raw, p.0 as int) {
        None => raw_bad(raw, span, name + " names absent allocation "@ + int_text(p.0 as int)),
        Some(al) => if !al.live {
            raw_bad(raw, span, name + " names dead allocation "@ + int_text(p.0 as int))
        } else if slot_value(al.cells_u64, p.1 as int) != Some(None::<i128>) || (two && slot_value(
            al.cells_u64,
            p.1 + 8,
        ) != Some(None::<i128>)) {
            if two {
                raw_bad(
                    raw,
                    span,
                    name + " needs two uninitialized cells at "@ + at_text(p.0, p.1 as int),
                )
            } else {
                raw_bad(
                    raw,
                    span,
                    name + " needs an uninitialized cell at "@ + at_text(p.0, p.1 as int),
                )
            }
        } else if !(0 <= p.1 && p.1 + size <= al.bytes.len()) {
            raw_stuck(raw, span, "cell outside its allocation"@)
        } else {
            let first = drop_slot(al.cells_u64, p.1 as int);
            let cells = if two {
                drop_slot(first, p.1 + 8)
            } else {
                first
            };
            (
                Ok(ValV::Unit),
                raw.update(
                    p.0 as int,
                    AllocV {
                        cells_u64: cells,
                        bytes: zeroed(al.bytes, p.1 as int, size),
                        ..al
                    },
                ),
            )
        },
    }
}

/// Both words of a header are given a value, where both have none.
pub open spec fn raw_header_init(
    raw: RawV,
    p: (i128, i128),
    size: i128,
    next: i128,
    span: Span,
) -> RawStep {
    match alloc_of(raw, p.0 as int) {
        None => raw_bad(
            raw,
            span,
            "raw_header_init names absent allocation "@ + int_text(p.0 as int),
        ),
        Some(al) => if !al.live {
            raw_bad(raw, span, "raw_header_init names dead allocation "@ + int_text(p.0 as int))
        } else if slot_value(al.cells_u64, p.1 as int) != Some(None::<i128>) || slot_value(
            al.cells_u64,
            p.1 + 8,
        ) != Some(None::<i128>) {
            raw_bad(
                raw,
                span,
                "raw_header_init needs two uninitialized cells at "@ + at_text(p.0, p.1 as int),
            )
        } else {
            (
                Ok(ValV::Unit),
                with_words(
                    raw,
                    p.0 as int,
                    put_slot(
                        put_slot(al.cells_u64, p.1 as int, Some(size)),
                        p.1 + 8,
                        Some(next),
                    ),
                ),
            )
        },
    }
}

/// Both words of a header lose their value, where both have one.
pub open spec fn raw_header_clear(raw: RawV, p: (i128, i128), span: Span) -> RawStep {
    match alloc_of(raw, p.0 as int) {
        None => raw_bad(
            raw,
            span,
            "raw_header_clear names absent allocation "@ + int_text(p.0 as int),
        ),
        Some(al) => if !al.live {
            raw_bad(raw, span, "raw_header_clear names dead allocation "@ + int_text(p.0 as int))
        } else if !(slot_value(al.cells_u64, p.1 as int) matches Some(Some(_))) || !(slot_value(
            al.cells_u64,
            p.1 + 8,
        ) matches Some(Some(_))) {
            raw_bad(
                raw,
                span,
                "raw_header_clear needs two initialized cells at "@ + at_text(p.0, p.1 as int),
            )
        } else {
            (
                Ok(ValV::Unit),
                with_words(
                    raw,
                    p.0 as int,
                    put_slot(
                        put_slot(al.cells_u64, p.1 as int, None),
                        p.1 + 8,
                        None,
                    ),
                ),
            )
        },
    }
}

/// The value of a word, at an offset of a live allocation.
pub open spec fn word_value(raw: RawV, a: int, off: int) -> Option<i128> {
    match alloc_of(raw, a) {
        Some(al) => if al.live {
            match slot_value(al.cells_u64, off) {
                Some(v) => v,
                None => None,
            }
        } else {
            None
        },
        None => None,
    }
}

pub open spec fn raw_header_read(raw: RawV, p: (i128, i128), second: bool, span: Span) -> RawStep {
    let off = if second {
        p.1 + 8
    } else {
        p.1 as int
    };
    let name = if second {
        "raw_header_next"@
    } else {
        "raw_header_size"@
    };
    if off > i128::MAX {
        raw_stuck(raw, span, "pointer offset"@)
    } else {
        match word_value(raw, p.0 as int, off) {
            Some(w) => (Ok(ValV::Int(w)), raw),
            None => raw_bad(
                raw,
                span,
                name + " needs an initialized field at "@ + at_text(p.0, off),
            ),
        }
    }
}

pub open spec fn raw_cell_read(raw: RawV, p: (i128, i128), span: Span) -> RawStep {
    match word_value(raw, p.0 as int, p.1 as int) {
        Some(w) => (Ok(ValV::Int(w)), raw),
        None => raw_bad(
            raw,
            span,
            "raw_cell_read_u64 needs an initialized cell at "@ + at_text(p.0, p.1 as int),
        ),
    }
}

pub open spec fn raw_cell_init(raw: RawV, p: (i128, i128), w: i128, span: Span) -> RawStep {
    match alloc_of(raw, p.0 as int) {
        None => raw_bad(
            raw,
            span,
            "raw_cell_init_u64 names absent allocation "@ + int_text(p.0 as int),
        ),
        Some(al) => if !al.live {
            raw_bad(raw, span, "raw_cell_init_u64 names dead allocation "@ + int_text(p.0 as int))
        } else if slot_value(al.cells_u64, p.1 as int) != Some(None::<i128>) {
            raw_bad(
                raw,
                span,
                "raw_cell_init_u64 needs an uninitialized cell at "@ + at_text(p.0, p.1 as int),
            )
        } else {
            (
                Ok(ValV::Unit),
                with_words(raw, p.0 as int, put_slot(al.cells_u64, p.1 as int, Some(w))),
            )
        },
    }
}

/// The value leaves its cell; it is handed on where `take` is set.
pub open spec fn raw_cell_empty(raw: RawV, p: (i128, i128), take: bool, span: Span) -> RawStep {
    let name = if take {
        "raw_cell_take_u64"@
    } else {
        "raw_cell_drop_u64"@
    };
    match alloc_of(raw, p.0 as int) {
        None => raw_bad(raw, span, name + " names absent allocation "@ + int_text(p.0 as int)),
        Some(al) => if !al.live {
            raw_bad(raw, span, name + " names dead allocation "@ + int_text(p.0 as int))
        } else {
            match slot_value(al.cells_u64, p.1 as int) {
                Some(Some(w)) => (
                    Ok(
                        if take {
                            ValV::Int(w)
                        } else {
                            ValV::Unit
                        },
                    ),
                    with_words(raw, p.0 as int, put_slot(al.cells_u64, p.1 as int, None)),
                ),
                _ => raw_bad(
                    raw,
                    span,
                    name + " needs an initialized cell at "@ + at_text(p.0, p.1 as int),
                ),
            }
        },
    }
}

/// A refusal that names the record, where there is such a record.
pub open spec fn record_bad(
    raw: RawV,
    records: Seq<RecordDecl>,
    ri: usize,
    span: Span,
    name: Seq<char>,
    what: Seq<char>,
    p: (i128, i128),
) -> RawStep {
    if ri >= records.len() {
        raw_stuck(raw, span, "record type"@)
    } else {
        raw_bad(
            raw,
            span,
            name + "<"@ + record_name(records, ri) + "> needs "@ + what + " at "@ + at_text(
                p.0,
                p.1 as int,
            ),
        )
    }
}

pub open spec fn raw_into_record(
    raw: RawV,
    records: Seq<RecordDecl>,
    ri: usize,
    p: (i128, i128),
    span: Span,
) -> RawStep {
    if ri >= records.len() {
        raw_stuck(raw, span, "record type"@)
    } else {
        let layout = records[ri as int].layout;
        if layout.align == 0 {
            raw_stuck(raw, span, "record alignment"@)
        } else if (p.1 as int) % (layout.align as int) != 0 {
            raw_bad(
                raw,
                span,
                "raw_into_cell<"@ + record_name(records, ri) + "> needs "@ + int_text(
                    layout.align as int,
                ) + "-byte alignment: "@ + at_text(p.0, p.1 as int),
            )
        } else if !live_run(raw, p.0 as int, p.1 as int, layout.size as int) {
            raw_bad(
                raw,
                span,
                "raw_into_cell<"@ + record_name(records, ri) + "> needs "@ + int_text(
                    layout.size as int,
                ) + " raw bytes at "@ + at_text(p.0, p.1 as int),
            )
        } else if alloc_of(raw, p.0 as int) is None {
            raw_stuck(raw, span, "empty record in no allocation"@)
        } else {
            (
                Ok(ValV::Unit),
                with_records(
                    raw,
                    p.0 as int,
                    put_slot(
                        raw[p.0 as int].cells_record,
                        p.1 as int,
                        RecCellV { record: ri, layout, value: None },
                    ),
                ),
            )
        }
    }
}

pub open spec fn raw_from_record(
    raw: RawV,
    records: Seq<RecordDecl>,
    ri: usize,
    p: (i128, i128),
    span: Span,
) -> RawStep {
    match alloc_of(raw, p.0 as int) {
        None => raw_bad(
            raw,
            span,
            "raw_from_cell names absent allocation "@ + int_text(p.0 as int),
        ),
        Some(al) => if !al.live {
            raw_bad(raw, span, "raw_from_cell names dead allocation "@ + int_text(p.0 as int))
        } else {
            match slot_value(al.cells_record, p.1 as int) {
                None => record_bad(raw, records, ri, span, "raw_from_cell"@, "a typed cell"@, p),
                Some(cell) => if cell.record != ri || cell.value is Some {
                    record_bad(
                        raw,
                        records,
                        ri,
                        span,
                        "raw_from_cell"@,
                        "a matching uninitialized cell"@,
                        p,
                    )
                } else if cell.layout.size > 0 && !(0 <= p.1 && p.1 + cell.layout.size
                    <= al.bytes.len()) {
                    raw_stuck(raw, span, "cell outside its allocation"@)
                } else {
                    (
                        Ok(ValV::Unit),
                        raw.update(
                            p.0 as int,
                            AllocV {
                                cells_record: drop_slot(al.cells_record, p.1 as int),
                                bytes: if cell.layout.size > 0 {
                                    zeroed(al.bytes, p.1 as int, cell.layout.size as int)
                                } else {
                                    al.bytes
                                },
                                ..al
                            },
                        ),
                    )
                },
            }
        },
    }
}

pub open spec fn raw_init_record(
    raw: RawV,
    records: Seq<RecordDecl>,
    ri: usize,
    p: (i128, i128),
    v: ValV,
    span: Span,
) -> RawStep {
    match alloc_of(raw, p.0 as int) {
        None => raw_bad(
            raw,
            span,
            "raw_cell_init names absent allocation "@ + int_text(p.0 as int),
        ),
        Some(al) => match slot_value(al.cells_record, p.1 as int) {
            None => record_bad(raw, records, ri, span, "raw_cell_init"@, "a typed cell"@, p),
            Some(cell) => if !al.live || cell.record != ri || cell.value is Some {
                record_bad(
                    raw,
                    records,
                    ri,
                    span,
                    "raw_cell_init"@,
                    "a matching uninitialized cell"@,
                    p,
                )
            } else {
                (
                    Ok(ValV::Unit),
                    with_records(
                        raw,
                        p.0 as int,
                        put_slot(
                            al.cells_record,
                            p.1 as int,
                            RecCellV { value: Some(v), ..cell },
                        ),
                    ),
                )
            },
        },
    }
}

pub open spec fn raw_read_record(
    raw: RawV,
    records: Seq<RecordDecl>,
    ri: usize,
    p: (i128, i128),
    span: Span,
) -> RawStep {
    let found = match alloc_of(raw, p.0 as int) {
        Some(al) => if al.live {
            match slot_value(al.cells_record, p.1 as int) {
                Some(cell) => if cell.record == ri {
                    cell.value
                } else {
                    None
                },
                None => None,
            }
        } else {
            None
        },
        None => None,
    };
    match found {
        None => record_bad(
            raw,
            records,
            ri,
            span,
            "raw_cell_read"@,
            "a matching initialized cell"@,
            p,
        ),
        Some(v) => if copyable(v) {
            (Ok(v), raw)
        } else {
            raw_stuck(raw, span, "copied owner"@)
        },
    }
}

/// The record leaves its cell; it is handed on where `take` is set.
pub open spec fn raw_empty_record(
    raw: RawV,
    records: Seq<RecordDecl>,
    ri: usize,
    p: (i128, i128),
    take: bool,
    span: Span,
) -> RawStep {
    let name = if take {
        "raw_cell_take"@
    } else {
        "raw_cell_drop"@
    };
    match alloc_of(raw, p.0 as int) {
        None => raw_bad(raw, span, name + " names absent allocation "@ + int_text(p.0 as int)),
        Some(al) => match slot_value(al.cells_record, p.1 as int) {
            None => record_bad(raw, records, ri, span, name, "a typed cell"@, p),
            Some(cell) => if !al.live || cell.record != ri || (!take && cell.value is None) {
                record_bad(raw, records, ri, span, name, "a matching initialized cell"@, p)
            } else {
                match cell.value {
                    None => record_bad(raw, records, ri, span, name, "an initialized cell"@, p),
                    Some(v) => (
                        Ok(
                            if take {
                                v
                            } else {
                                ValV::Unit
                            },
                        ),
                        with_records(
                            raw,
                            p.0 as int,
                            put_slot(
                                al.cells_record,
                                p.1 as int,
                                RecCellV { value: None, ..cell },
                            ),
                        ),
                    ),
                }
            },
        },
    }
}

/// One raw operation on evaluated operands.
#[verifier::opaque]
pub open spec fn raw_step(
    raw: RawV,
    records: Seq<RecordDecl>,
    op: RawOp,
    vals: Seq<ValV>,
    span: Span,
) -> RawStep {
    match pointer(vals, 0) {
        None => raw_stuck(raw, span, "raw pointer operand"@),
        Some(p) => match op {
            RawOp::Offset => match number(vals, 1) {
                Some(n) => raw_offset(raw, p, n, span),
                None => raw_stuck(raw, span, "raw integer operand"@),
            },
            RawOp::CastRecord(_) => (Ok(ValV::Ptr(p.0, p.1)), raw),
            RawOp::PointerOffsetRecord(_) => (Ok(ValV::Int(p.1)), raw),
            RawOp::Load8 => raw_load8(raw, p, span),
            RawOp::Store8 => match number(vals, 1) {
                Some(n) => raw_store8(raw, p, n, span),
                None => raw_stuck(raw, span, "raw integer operand"@),
            },
            RawOp::Copy => match (pointer(vals, 1), number(vals, 2)) {
                (Some(d), Some(n)) => raw_copy(raw, p, d, n, 0, span),
                _ => raw_stuck(raw, span, "raw copy operand"@),
            },
            RawOp::IntoCellU64 => raw_into_words(raw, p, false, span),
            RawOp::FromCellU64 => raw_from_words(raw, p, false, span),
            RawOp::IntoFreeHeader => raw_into_words(raw, p, true, span),
            RawOp::FromFreeHeader => raw_from_words(raw, p, true, span),
            RawOp::HeaderInit => match (number(vals, 1), number(vals, 2)) {
                (Some(size), Some(next)) => raw_header_init(raw, p, size, next, span),
                _ => raw_stuck(raw, span, "raw integer operand"@),
            },
            RawOp::HeaderSize => raw_header_read(raw, p, false, span),
            RawOp::HeaderNext => raw_header_read(raw, p, true, span),
            RawOp::HeaderClear => raw_header_clear(raw, p, span),
            RawOp::CellInitU64 => match number(vals, 1) {
                Some(n) => raw_cell_init(raw, p, n, span),
                None => raw_stuck(raw, span, "raw integer operand"@),
            },
            RawOp::CellReadU64 => raw_cell_read(raw, p, span),
            RawOp::CellTakeU64 => raw_cell_empty(raw, p, true, span),
            RawOp::CellDropU64 => raw_cell_empty(raw, p, false, span),
            RawOp::IntoCellRecord(ri) => raw_into_record(raw, records, ri, p, span),
            RawOp::FromCellRecord(ri) => raw_from_record(raw, records, ri, p, span),
            RawOp::CellInitRecord(ri) => if vals.len() <= 1 || !copyable(vals[1]) {
                raw_stuck(raw, span, "raw record operand"@)
            } else {
                raw_init_record(raw, records, ri, p, vals[1], span)
            },
            RawOp::CellReadRecord(ri) => raw_read_record(raw, records, ri, p, span),
            RawOp::CellTakeRecord(ri) => raw_empty_record(raw, records, ri, p, true, span),
            RawOp::CellDropRecord(ri) => raw_empty_record(raw, records, ri, p, false, span),
        },
    }
}

/// What an operation leaves behind.
pub open spec fn raw_yields(r: Result<RtVal, Trap>, after: RawV, s: RawStep) -> bool {
    yields(r, s.0) && after == s.1
}

proof fn lemma_live_bounds(heap: RawHeap, a: int, off: int)
    requires
        live_at(heap@, a, off),
    ensures
        0 <= a < heap.allocs@.len(),
        heap@[a] == heap.allocs@[a]@,
        0 <= off < heap.allocs@[a].bytes@.len() <= usize::MAX,
{
    assert(heap.allocs@[a].bytes.len() == heap.allocs@[a].bytes@.len());
}

impl RawHeap {
    fn load8(&self, p: (i128, i128), span: Span) -> (r: Result<RtVal, Trap>)
        ensures
            yields(r, raw_load8(self@, p, span).0),
            raw_load8(self@, p, span).1 == self@,
    {
        match self.live_at(p.0, p.1) {
            None => bad(
                span,
                cat2("raw_load8 out of bounds or after free: ", at(p.0, p.1).as_str()),
            ),
            Some(i) => match self.byte(i, p.1) {
                Some(b) => Ok(RtVal::Int(b)),
                None => bad(
                    span,
                    cat4(
                        "raw_load8 reads uninitialized byte ",
                        signed_decimal(p.1).as_str(),
                        " of allocation ",
                        signed_decimal(p.0).as_str(),
                    ),
                ),
            },
        }
    }

    fn store8(&mut self, p: (i128, i128), b: i128, span: Span) -> (r: Result<RtVal, Trap>)
        ensures
            raw_yields(r, final(self)@, raw_store8(old(self)@, p, b, span)),
    {
        match self.live_at(p.0, p.1) {
            None => bad(
                span,
                cat2("raw_store8 out of bounds or after free: ", at(p.0, p.1).as_str()),
            ),
            Some(i) => {
                self.set_byte(i, p.1, b);
                Ok(RtVal::Unit)
            },
        }
    }

    fn copy(&mut self, s: (i128, i128), d: (i128, i128), n: i128, span: Span) -> (r: Result<
        RtVal,
        Trap,
    >)
        ensures
            raw_yields(r, final(self)@, raw_copy(old(self)@, s, d, n, 0, span)),
    {
        let mut i: i128 = 0;
        while i < n
            invariant
                0 <= i,
                i == 0 || (s.1 + i <= usize::MAX && d.1 + i <= usize::MAX),
                raw_copy(old(self)@, s, d, n, 0, span) == raw_copy(self@, s, d, n, i as nat, span),
            decreases n - i,
        {
            let from = s.1 + i;
            let to = d.1 + i;
            let b = match self.live_at(s.0, from) {
                None => {
                    return bad(
                        span,
                        cat2(
                            "raw_copy_nonoverlapping source out of bounds: ",
                            at(s.0, from).as_str(),
                        ),
                    );
                },
                Some(k) => match self.byte(k, from) {
                    Some(b) => b,
                    None => {
                        return bad(
                            span,
                            cat4(
                                "raw_copy_nonoverlapping reads uninitialized byte ",
                                signed_decimal(from).as_str(),
                                " of allocation ",
                                signed_decimal(s.0).as_str(),
                            ),
                        );
                    },
                },
            };
            match self.live_at(d.0, to) {
                None => {
                    return bad(
                        span,
                        cat2(
                            "raw_copy_nonoverlapping destination out of bounds: ",
                            at(d.0, to).as_str(),
                        ),
                    );
                },
                Some(k) => {
                    proof {
                        lemma_live_bounds(*self, s.0 as int, from as int);
                        lemma_live_bounds(*self, d.0 as int, to as int);
                    }
                    self.set_byte(k, to, b);
                },
            }
            i = i + 1;
        }
        Ok(RtVal::Unit)
    }

    fn into_words(&mut self, p: (i128, i128), two: bool, span: Span) -> (r: Result<RtVal, Trap>)
        ensures
            raw_yields(r, final(self)@, raw_into_words(old(self)@, p, two, span)),
    {
        let name = if two {
            "raw_into_free_header"
        } else {
            "raw_into_cell_u64"
        };
        let count = if two {
            "sixteen"
        } else {
            "eight"
        };
        let size: i128 = if two {
            16
        } else {
            8
        };
        let aligned = match p.1.checked_rem_euclid(8) {
            Some(rest) => rest == 0,
            None => false,
        };
        if !aligned {
            return bad(
                span,
                cat3(name, " needs 8-byte alignment: ", at(p.0, p.1).as_str()),
            );
        }
        if !self.live_run(p.0, p.1, size) {
            return bad(
                span,
                cat5(name, " needs ", count, " raw bytes at ", at(p.0, p.1).as_str()),
            );
        }
        proof {
            assert(live_at(self@, p.0 as int, p.1 + 0));
            lemma_live_bounds(*self, p.0 as int, p.1 as int);
        }
        let a = match self.index_of(p.0) {
            None => {
                return halt(span, "raw pointer operand");
            },
            Some(a) => a,
        };
        let ghost before = self.allocs@;
        set_slot(&mut self.allocs[a].cells_u64, p.1, WordCell { value: None });
        if two {
            set_slot(&mut self.allocs[a].cells_u64, p.1 + 8, WordCell { value: None });
        }
        assert(self.allocs@ =~= before.update(a as int, self.allocs@[a as int]));
        Ok(RtVal::Unit)
    }

    fn from_words(&mut self, p: (i128, i128), two: bool, span: Span) -> (r: Result<RtVal, Trap>)
        ensures
            raw_yields(r, final(self)@, raw_from_words(old(self)@, p, two, span)),
    {
        let name = if two {
            "raw_from_free_header"
        } else {
            "raw_from_cell_u64"
        };
        let size: i128 = if two {
            16
        } else {
            8
        };
        let a = match self.index_of(p.0) {
            None => {
                return bad(
                    span,
                    cat3(name, " names absent allocation ", signed_decimal(p.0).as_str()),
                );
            },
            Some(a) => a,
        };
        if !self.allocs[a].live {
            return bad(span, cat3(name, " names dead allocation ", signed_decimal(p.0).as_str()));
        }
        let first = self.empty_word(a, p.1);
        let second = !two || match p.1.checked_add(8) {
            Some(next) => self.empty_word(a, next),
            None => {
                proof {
                    lemma_no_slot(self.allocs@[a as int].cells_u64@, p.1 + 8);
                }
                false
            },
        };
        if !first || !second {
            let what = if two {
                " needs two uninitialized cells at "
            } else {
                " needs an uninitialized cell at "
            };
            return bad(span, cat3(name, what, at(p.0, p.1).as_str()));
        }
        let len = self.allocs[a].bytes.len() as i128;
        if p.1 < 0 || p.1 > len || len - p.1 < size {
            return halt(span, "cell outside its allocation");
        }
        let ghost before = self.allocs@;
        take_slot(&mut self.allocs[a].cells_u64, p.1);
        if two {
            take_slot(&mut self.allocs[a].cells_u64, p.1 + 8);
        }
        self.allocs[a].zero(p.1, size);
        assert(self.allocs@ =~= before.update(a as int, self.allocs@[a as int]));
        Ok(RtVal::Unit)
    }

    /// Whether an empty word cell starts at an offset.
    fn empty_word(&self, a: usize, off: i128) -> (r: bool)
        requires
            a < self.allocs@.len(),
        ensures
            r == (slot_value(self@[a as int].cells_u64, off as int) == Some(None::<i128>)),
    {
        assert(self@[a as int] == self.allocs@[a as int]@);
        match find_slot(&self.allocs[a].cells_u64, off) {
            Some(cell) => cell.value.is_none(),
            None => false,
        }
    }

    /// Whether a word cell with a value starts at an offset.
    fn full_word(&self, a: usize, off: i128) -> (r: bool)
        requires
            a < self.allocs@.len(),
        ensures
            r == (slot_value(self@[a as int].cells_u64, off as int) matches Some(Some(_))),
    {
        assert(self@[a as int] == self.allocs@[a as int]@);
        match find_slot(&self.allocs[a].cells_u64, off) {
            Some(cell) => cell.value.is_some(),
            None => false,
        }
    }

    fn header_init(&mut self, p: (i128, i128), size: i128, next: i128, span: Span) -> (r: Result<
        RtVal,
        Trap,
    >)
        ensures
            raw_yields(r, final(self)@, raw_header_init(old(self)@, p, size, next, span)),
    {
        let a = match self.index_of(p.0) {
            None => {
                return bad(
                    span,
                    cat2(
                        "raw_header_init names absent allocation ",
                        signed_decimal(p.0).as_str(),
                    ),
                );
            },
            Some(a) => a,
        };
        if !self.allocs[a].live {
            return bad(
                span,
                cat2("raw_header_init names dead allocation ", signed_decimal(p.0).as_str()),
            );
        }
        let first = self.empty_word(a, p.1);
        let second = match p.1.checked_add(8) {
            Some(after) => self.empty_word(a, after),
            None => {
                proof {
                    lemma_no_slot(self.allocs@[a as int].cells_u64@, p.1 + 8);
                }
                false
            },
        };
        if !first || !second {
            return bad(
                span,
                cat2(
                    "raw_header_init needs two uninitialized cells at ",
                    at(p.0, p.1).as_str(),
                ),
            );
        }
        let ghost before = self.allocs@;
        set_slot(&mut self.allocs[a].cells_u64, p.1, WordCell { value: Some(size) });
        set_slot(&mut self.allocs[a].cells_u64, p.1 + 8, WordCell { value: Some(next) });
        assert(self.allocs@ =~= before.update(a as int, self.allocs@[a as int]));
        Ok(RtVal::Unit)
    }

    fn header_clear(&mut self, p: (i128, i128), span: Span) -> (r: Result<RtVal, Trap>)
        ensures
            raw_yields(r, final(self)@, raw_header_clear(old(self)@, p, span)),
    {
        let a = match self.index_of(p.0) {
            None => {
                return bad(
                    span,
                    cat2(
                        "raw_header_clear names absent allocation ",
                        signed_decimal(p.0).as_str(),
                    ),
                );
            },
            Some(a) => a,
        };
        if !self.allocs[a].live {
            return bad(
                span,
                cat2("raw_header_clear names dead allocation ", signed_decimal(p.0).as_str()),
            );
        }
        let first = self.full_word(a, p.1);
        let second = match p.1.checked_add(8) {
            Some(after) => self.full_word(a, after),
            None => {
                proof {
                    lemma_no_slot(self.allocs@[a as int].cells_u64@, p.1 + 8);
                }
                false
            },
        };
        if !first || !second {
            return bad(
                span,
                cat2(
                    "raw_header_clear needs two initialized cells at ",
                    at(p.0, p.1).as_str(),
                ),
            );
        }
        let ghost before = self.allocs@;
        set_slot(&mut self.allocs[a].cells_u64, p.1, WordCell { value: None });
        set_slot(&mut self.allocs[a].cells_u64, p.1 + 8, WordCell { value: None });
        assert(self.allocs@ =~= before.update(a as int, self.allocs@[a as int]));
        Ok(RtVal::Unit)
    }

    fn word_value(&self, a: i128, off: i128) -> (r: Option<i128>)
        ensures
            r == word_value(self@, a as int, off as int),
    {
        match self.index_of(a) {
            None => None,
            Some(i) => {
                if self.allocs[i].live {
                    match find_slot(&self.allocs[i].cells_u64, off) {
                        Some(cell) => cell.value,
                        None => None,
                    }
                } else {
                    None
                }
            },
        }
    }

    fn header_read(&self, p: (i128, i128), second: bool, span: Span) -> (r: Result<RtVal, Trap>)
        ensures
            yields(r, raw_header_read(self@, p, second, span).0),
            raw_header_read(self@, p, second, span).1 == self@,
    {
        let off = if second {
            match p.1.checked_add(8) {
                Some(off) => off,
                None => {
                    return halt(span, "pointer offset");
                },
            }
        } else {
            p.1
        };
        let name = if second {
            "raw_header_next"
        } else {
            "raw_header_size"
        };
        match self.word_value(p.0, off) {
            Some(w) => Ok(RtVal::Int(w)),
            None => bad(
                span,
                cat3(name, " needs an initialized field at ", at(p.0, off).as_str()),
            ),
        }
    }

    fn cell_read(&self, p: (i128, i128), span: Span) -> (r: Result<RtVal, Trap>)
        ensures
            yields(r, raw_cell_read(self@, p, span).0),
            raw_cell_read(self@, p, span).1 == self@,
    {
        match self.word_value(p.0, p.1) {
            Some(w) => Ok(RtVal::Int(w)),
            None => bad(
                span,
                cat2("raw_cell_read_u64 needs an initialized cell at ", at(p.0, p.1).as_str()),
            ),
        }
    }

    fn cell_init(&mut self, p: (i128, i128), w: i128, span: Span) -> (r: Result<RtVal, Trap>)
        ensures
            raw_yields(r, final(self)@, raw_cell_init(old(self)@, p, w, span)),
    {
        let a = match self.index_of(p.0) {
            None => {
                return bad(
                    span,
                    cat2(
                        "raw_cell_init_u64 names absent allocation ",
                        signed_decimal(p.0).as_str(),
                    ),
                );
            },
            Some(a) => a,
        };
        if !self.allocs[a].live {
            return bad(
                span,
                cat2("raw_cell_init_u64 names dead allocation ", signed_decimal(p.0).as_str()),
            );
        }
        if !self.empty_word(a, p.1) {
            return bad(
                span,
                cat2("raw_cell_init_u64 needs an uninitialized cell at ", at(p.0, p.1).as_str()),
            );
        }
        let ghost before = self.allocs@;
        set_slot(&mut self.allocs[a].cells_u64, p.1, WordCell { value: Some(w) });
        assert(self.allocs@ =~= before.update(a as int, self.allocs@[a as int]));
        Ok(RtVal::Unit)
    }

    fn cell_empty(&mut self, p: (i128, i128), take: bool, span: Span) -> (r: Result<RtVal, Trap>)
        ensures
            raw_yields(r, final(self)@, raw_cell_empty(old(self)@, p, take, span)),
    {
        let name = if take {
            "raw_cell_take_u64"
        } else {
            "raw_cell_drop_u64"
        };
        let a = match self.index_of(p.0) {
            None => {
                return bad(
                    span,
                    cat3(name, " names absent allocation ", signed_decimal(p.0).as_str()),
                );
            },
            Some(a) => a,
        };
        if !self.allocs[a].live {
            return bad(span, cat3(name, " names dead allocation ", signed_decimal(p.0).as_str()));
        }
        assert(self@[a as int] == self.allocs@[a as int]@);
        let held = match find_slot(&self.allocs[a].cells_u64, p.1) {
            Some(cell) => cell.value,
            None => None,
        };
        let w = match held {
            Some(w) => w,
            None => {
                return bad(
                    span,
                    cat3(name, " needs an initialized cell at ", at(p.0, p.1).as_str()),
                );
            },
        };
        let ghost before = self.allocs@;
        set_slot(&mut self.allocs[a].cells_u64, p.1, WordCell { value: None });
        assert(self.allocs@ =~= before.update(a as int, self.allocs@[a as int]));
        if take {
            Ok(RtVal::Int(w))
        } else {
            Ok(RtVal::Unit)
        }
    }

    fn record_bad(
        &self,
        records: &[RecordDecl],
        ri: usize,
        span: Span,
        name: &str,
        what: &str,
        p: (i128, i128),
    ) -> (r: Result<RtVal, Trap>)
        ensures
            yields(r, record_bad(self@, records@, ri, span, name@, what@, p).0),
            record_bad(self@, records@, ri, span, name@, what@, p).1 == self@,
    {
        if ri >= records.len() {
            return halt(span, "record type");
        }
        bad(
            span,
            cat7(
                name,
                "<",
                records[ri].name.as_str(),
                "> needs ",
                what,
                " at ",
                at(p.0, p.1).as_str(),
            ),
        )
    }

    fn into_record(&mut self, records: &[RecordDecl], ri: usize, p: (i128, i128), span: Span) -> (r:
        Result<RtVal, Trap>)
        ensures
            raw_yields(r, final(self)@, raw_into_record(old(self)@, records@, ri, p, span)),
    {
        if ri >= records.len() {
            return halt(span, "record type");
        }
        let layout = records[ri].layout;
        if layout.align == 0 {
            return halt(span, "record alignment");
        }
        let aligned = if layout.align == -1 {
            assert((p.1 as int) % (-1int) == 0) by (nonlinear_arith);
            true
        } else {
            match p.1.checked_rem_euclid(layout.align) {
                Some(rest) => rest == 0,
                None => false,
            }
        };
        if !aligned {
            return bad(
                span,
                cat6(
                    "raw_into_cell<",
                    records[ri].name.as_str(),
                    "> needs ",
                    signed_decimal(layout.align).as_str(),
                    "-byte alignment: ",
                    at(p.0, p.1).as_str(),
                ),
            );
        }
        if !self.live_run(p.0, p.1, layout.size) {
            return bad(
                span,
                cat6(
                    "raw_into_cell<",
                    records[ri].name.as_str(),
                    "> needs ",
                    signed_decimal(layout.size).as_str(),
                    " raw bytes at ",
                    at(p.0, p.1).as_str(),
                ),
            );
        }
        let a = match self.index_of(p.0) {
            None => {
                return halt(span, "empty record in no allocation");
            },
            Some(a) => a,
        };
        let ghost before = self.allocs@;
        set_slot(
            &mut self.allocs[a].cells_record,
            p.1,
            RecordCell { record: ri, layout, value: None },
        );
        assert(self.allocs@ =~= before.update(a as int, self.allocs@[a as int]));
        Ok(RtVal::Unit)
    }

    fn from_record(&mut self, records: &[RecordDecl], ri: usize, p: (i128, i128), span: Span) -> (r:
        Result<RtVal, Trap>)
        ensures
            raw_yields(r, final(self)@, raw_from_record(old(self)@, records@, ri, p, span)),
    {
        let a = match self.index_of(p.0) {
            None => {
                return bad(
                    span,
                    cat2(
                        "raw_from_cell names absent allocation ",
                        signed_decimal(p.0).as_str(),
                    ),
                );
            },
            Some(a) => a,
        };
        if !self.allocs[a].live {
            return bad(
                span,
                cat2("raw_from_cell names dead allocation ", signed_decimal(p.0).as_str()),
            );
        }
        assert(self@[a as int] == self.allocs@[a as int]@);
        let size: i128 = match find_slot(&self.allocs[a].cells_record, p.1) {
            None => {
                return self.record_bad(records, ri, span, "raw_from_cell", "a typed cell", p);
            },
            Some(cell) => {
                if cell.record != ri || cell.value.is_some() {
                    return self.record_bad(
                        records,
                        ri,
                        span,
                        "raw_from_cell",
                        "a matching uninitialized cell",
                        p,
                    );
                }
                cell.layout.size
            },
        };
        let len = self.allocs[a].bytes.len() as i128;
        if size > 0 && (p.1 < 0 || p.1 > len || len - p.1 < size) {
            return halt(span, "cell outside its allocation");
        }
        let ghost before = self.allocs@;
        take_slot(&mut self.allocs[a].cells_record, p.1);
        if size > 0 {
            self.allocs[a].zero(p.1, size);
        }
        assert(self.allocs@ =~= before.update(a as int, self.allocs@[a as int]));
        Ok(RtVal::Unit)
    }

    fn init_record(
        &mut self,
        records: &[RecordDecl],
        ri: usize,
        p: (i128, i128),
        v: &RtVal,
        span: Span,
    ) -> (r: Result<RtVal, Trap>)
        ensures
            raw_yields(r, final(self)@, raw_init_record(old(self)@, records@, ri, p, v@, span)),
    {
        let a = match self.index_of(p.0) {
            None => {
                return bad(
                    span,
                    cat2(
                        "raw_cell_init names absent allocation ",
                        signed_decimal(p.0).as_str(),
                    ),
                );
            },
            Some(a) => a,
        };
        assert(self@[a as int] == self.allocs@[a as int]@);
        let live = self.allocs[a].live;
        let layout = match find_slot(&self.allocs[a].cells_record, p.1) {
            None => {
                return self.record_bad(records, ri, span, "raw_cell_init", "a typed cell", p);
            },
            Some(cell) => {
                if !live || cell.record != ri || cell.value.is_some() {
                    return self.record_bad(
                        records,
                        ri,
                        span,
                        "raw_cell_init",
                        "a matching uninitialized cell",
                        p,
                    );
                }
                cell.layout
            },
        };
        let ghost before = self.allocs@;
        set_slot(
            &mut self.allocs[a].cells_record,
            p.1,
            RecordCell { record: ri, layout, value: Some(v.duplicate()) },
        );
        assert(self.allocs@ =~= before.update(a as int, self.allocs@[a as int]));
        Ok(RtVal::Unit)
    }

    fn read_record(&self, records: &[RecordDecl], ri: usize, p: (i128, i128), span: Span) -> (r:
        Result<RtVal, Trap>)
        ensures
            yields(r, raw_read_record(self@, records@, ri, p, span).0),
            raw_read_record(self@, records@, ri, p, span).1 == self@,
    {
        match self.index_of(p.0) {
            Some(a) => {
                if self.allocs[a].live {
                    match find_slot(&self.allocs[a].cells_record, p.1) {
                        Some(cell) => {
                            if cell.record == ri {
                                match &cell.value {
                                    Some(v) => {
                                        if v.is_copyable() {
                                            return Ok(v.duplicate());
                                        }
                                        return halt(span, "copied owner");
                                    },
                                    None => {},
                                }
                            }
                        },
                        None => {},
                    }
                }
            },
            None => {},
        }
        self.record_bad(records, ri, span, "raw_cell_read", "a matching initialized cell", p)
    }

    fn empty_record(
        &mut self,
        records: &[RecordDecl],
        ri: usize,
        p: (i128, i128),
        take: bool,
        span: Span,
    ) -> (r: Result<RtVal, Trap>)
        ensures
            raw_yields(r, final(self)@, raw_empty_record(old(self)@, records@, ri, p, take, span)),
    {
        let name = if take {
            "raw_cell_take"
        } else {
            "raw_cell_drop"
        };
        let a = match self.index_of(p.0) {
            None => {
                return bad(
                    span,
                    cat3(name, " names absent allocation ", signed_decimal(p.0).as_str()),
                );
            },
            Some(a) => a,
        };
        assert(self@[a as int] == self.allocs@[a as int]@);
        let live = self.allocs[a].live;
        let (layout, held) = match find_slot(&self.allocs[a].cells_record, p.1) {
            None => {
                return self.record_bad(records, ri, span, name, "a typed cell", p);
            },
            Some(cell) => {
                if !live || cell.record != ri || (!take && cell.value.is_none()) {
                    return self.record_bad(
                        records,
                        ri,
                        span,
                        name,
                        "a matching initialized cell",
                        p,
                    );
                }
                match &cell.value {
                    None => {
                        return self.record_bad(
                            records,
                            ri,
                            span,
                            name,
                            "an initialized cell",
                            p,
                        );
                    },
                    Some(v) => (cell.layout, v.duplicate()),
                }
            },
        };
        let ghost before = self.allocs@;
        set_slot(
            &mut self.allocs[a].cells_record,
            p.1,
            RecordCell { record: ri, layout, value: None },
        );
        assert(self.allocs@ =~= before.update(a as int, self.allocs@[a as int]));
        if take {
            Ok(held)
        } else {
            Ok(RtVal::Unit)
        }
    }

    /// One raw operation on evaluated operands.
    pub fn step(&mut self, records: &[RecordDecl], op: RawOp, vals: &Vec<RtVal>, span: Span) -> (r:
        Result<RtVal, Trap>)
        ensures
            raw_yields(
                r,
                final(self)@,
                raw_step(old(self)@, records@, op, views(vals@), span),
            ),
    {
        proof {
            reveal(raw_step);
        }
        let p = match pointer_at(vals, 0) {
            None => {
                return halt(span, "raw pointer operand");
            },
            Some(p) => p,
        };
        match op {
            RawOp::Offset => match number_at(vals, 1) {
                Some(n) => match p.1.checked_add(n) {
                    Some(off) => Ok(RtVal::Ptr(p.0, off)),
                    None => halt(span, "pointer offset"),
                },
                None => halt(span, "raw integer operand"),
            },
            RawOp::CastRecord(_) => Ok(RtVal::Ptr(p.0, p.1)),
            RawOp::PointerOffsetRecord(_) => Ok(RtVal::Int(p.1)),
            RawOp::Load8 => self.load8(p, span),
            RawOp::Store8 => match number_at(vals, 1) {
                Some(n) => self.store8(p, n, span),
                None => halt(span, "raw integer operand"),
            },
            RawOp::Copy => match (pointer_at(vals, 1), number_at(vals, 2)) {
                (Some(d), Some(n)) => self.copy(p, d, n, span),
                _ => halt(span, "raw copy operand"),
            },
            RawOp::IntoCellU64 => self.into_words(p, false, span),
            RawOp::FromCellU64 => self.from_words(p, false, span),
            RawOp::IntoFreeHeader => self.into_words(p, true, span),
            RawOp::FromFreeHeader => self.from_words(p, true, span),
            RawOp::HeaderInit => match (number_at(vals, 1), number_at(vals, 2)) {
                (Some(size), Some(next)) => self.header_init(p, size, next, span),
                _ => halt(span, "raw integer operand"),
            },
            RawOp::HeaderSize => self.header_read(p, false, span),
            RawOp::HeaderNext => self.header_read(p, true, span),
            RawOp::HeaderClear => self.header_clear(p, span),
            RawOp::CellInitU64 => match number_at(vals, 1) {
                Some(n) => self.cell_init(p, n, span),
                None => halt(span, "raw integer operand"),
            },
            RawOp::CellReadU64 => self.cell_read(p, span),
            RawOp::CellTakeU64 => self.cell_empty(p, true, span),
            RawOp::CellDropU64 => self.cell_empty(p, false, span),
            RawOp::IntoCellRecord(ri) => self.into_record(records, ri, p, span),
            RawOp::FromCellRecord(ri) => self.from_record(records, ri, p, span),
            RawOp::CellInitRecord(ri) => {
                if vals.len() <= 1 {
                    return halt(span, "raw record operand");
                }
                assert(views(vals@)[1] == vals@[1]@);
                if !vals[1].is_copyable() {
                    return halt(span, "raw record operand");
                }
                self.init_record(records, ri, p, &vals[1], span)
            },
            RawOp::CellReadRecord(ri) => self.read_record(records, ri, p, span),
            RawOp::CellTakeRecord(ri) => self.empty_record(records, ri, p, true, span),
            RawOp::CellDropRecord(ri) => self.empty_record(records, ri, p, false, span),
        }
    }
}

/// No slot starts outside the machine's offsets.
proof fn lemma_no_slot(s: Seq<Slot<WordCell>>, start: int)
    requires
        start > i128::MAX,
    ensures
        slot_value(views(s), start) is None,
{
    lemma_slot_at(views(s), start, 0);
}

// ------------------------------------------------------------------------------------------
// Laws
// ------------------------------------------------------------------------------------------

/// A fresh allocation has an identity that no pointer could name before, every byte of it is
/// reachable and has the value it was made with, and no other allocation changes.
pub proof fn law_fresh_allocation(raw: RawV, bytes: Seq<Option<i128>>, off: int, a: int)
    ensures
        alloc_of(raw, raw.len() as int) is None,
        0 <= off < bytes.len() ==> live_at(raw.push(fresh_alloc(bytes)), raw.len() as int, off),
        0 <= a < raw.len() ==> alloc_of(raw.push(fresh_alloc(bytes)), a) == alloc_of(raw, a),
{
    let grown = raw.push(fresh_alloc(bytes));
    assert(!word_covers(grown[raw.len() as int].cells_u64, off));
    assert(!record_covers(grown[raw.len() as int].cells_record, off));
}

/// A dead allocation is out of reach: no byte of it is read or written, however the pointer was
/// come by.
pub proof fn law_dead_allocations_are_unreachable(
    raw: RawV,
    p: (i128, i128),
    b: i128,
    span: Span,
)
    requires
        alloc_of(raw, p.0 as int) matches Some(al) ==> !al.live,
    ensures
        raw_load8(raw, p, span).0 is Err,
        raw_store8(raw, p, b, span).0 is Err,
        raw_store8(raw, p, b, span).1 == raw,
        raw_cell_read(raw, p, span).0 is Err,
{
}

/// A load after a store gives back what was stored, and a load elsewhere what it gave before.
pub proof fn law_load_after_store(
    raw: RawV,
    p: (i128, i128),
    q: (i128, i128),
    b: i128,
    span: Span,
)
    requires
        raw_store8(raw, p, b, span).0 is Ok,
    ensures
        raw_load8(raw_store8(raw, p, b, span).1, p, span).0 == Ok::<ValV, TrapV>(ValV::Int(b)),
        p != q ==> raw_load8(raw_store8(raw, p, b, span).1, q, span).0 == raw_load8(
            raw,
            q,
            span,
        ).0,
{
    let after = raw_store8(raw, p, b, span).1;
    assert(after[p.0 as int].cells_u64 == raw[p.0 as int].cells_u64);
    assert(live_at(after, p.0 as int, p.1 as int));
    if p.0 != q.0 && 0 <= q.0 < raw.len() {
        assert(after[q.0 as int] == raw[q.0 as int]);
    }
}

/// A value that is put into an empty word cell is what a read gives back, and a take empties the
/// cell for the next value.
pub proof fn law_word_cell_round_trip(raw: RawV, p: (i128, i128), w: i128, span: Span)
    requires
        raw_cell_init(raw, p, w, span).0 is Ok,
    ensures
        ({
            let full = raw_cell_init(raw, p, w, span).1;
            let taken = raw_cell_empty(full, p, true, span);
            &&& raw_cell_read(full, p, span).0 == Ok::<ValV, TrapV>(ValV::Int(w))
            &&& raw_cell_init(full, p, w, span).0 is Err
            &&& taken.0 == Ok::<ValV, TrapV>(ValV::Int(w))
            &&& raw_cell_read(taken.1, p, span).0 is Err
            &&& raw_cell_init(taken.1, p, w, span).0 is Ok
        }),
{
    let al = raw[p.0 as int];
    let full = raw_cell_init(raw, p, w, span).1;
    lemma_put_slot(al.cells_u64, p.1 as int, Some(w));
    lemma_put_slot(full[p.0 as int].cells_u64, p.1 as int, None);
}

proof fn lemma_put_slot<V>(s: Seq<SlotV<V>>, start: int, value: V)
    ensures
        slot_value(put_slot(s, start, value), start) == Some(value),
{
    let t = put_slot(s, start, value);
    lemma_slot_at(s, start, 0);
    lemma_first_slot(s, start, 0);
    lemma_first_slot(t, start, 0);
    match slot_at(s, start, 0) {
        Some(i) => {
            assert(t[i as int].start == start);
        },
        None => {
            assert(t[s.len() as int].start == start);
        },
    }
    lemma_slot_at(t, start, 0);
}

/// The slot that is found is the first of its offset.
proof fn lemma_first_slot<V>(s: Seq<SlotV<V>>, start: int, i: nat)
    ensures
        slot_at(s, start, i) matches Some(k) ==> forall|j: int|
            i <= j < k ==> (#[trigger] s[j]).start != start,
    decreases s.len() - i,
{
    if i < s.len() && s[i as int].start != start {
        lemma_first_slot(s, start, i + 1);
    }
}

} // verus!
