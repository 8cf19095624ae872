//! What a test plays against: a scripted world of descriptors, a scripted transmitter, and the
//! stand-ins for audited foreign functions.
use vstd::prelude::*;

use crate::rawheap::{
    at_text, live_at, number, number_at, pointer, pointer_at, set_byte, RawHeap, RawV,
};
use crate::repr::{group_views, views};
use crate::span::Span;
use crate::text::{cat3, cat4, cat5, int_text, same_text, signed_decimal};
use crate::value::{stuck, trap, undefined, yields, RtVal, Trap, TrapV, ValV};

verus! {

broadcast use group_views;

// ------------------------------------------------------------------------------------------
// The world of descriptors
// ------------------------------------------------------------------------------------------

/// How one read attempt goes: in full, with at most so many bytes, or with an error number.
#[derive(Clone, Copy, Debug, PartialEq, Eq, Structural)]
pub enum ReadOutcome {
    Full,
    Short(i128),
    Fail(i128),
}

/// The scripted world. Short reads and failures live here, never in a contract, so a test author
/// decides them.
#[derive(Debug)]
pub struct PosixWorld {
    /// The byte stream that descriptors read, by absolute position.
    pub data: Vec<i128>,
    /// How many descriptors there are.
    pub fds: i128,
    /// The descriptors whose authority was handed out. Each is handed out once.
    pub claimed: Vec<i128>,
    /// How the first read attempts go; later ones succeed in full.
    pub schedule: Vec<ReadOutcome>,
    /// How many reads there were.
    pub reads: usize,
    /// Positions, by descriptor.
    pub pos: Vec<i128>,
}

pub ghost struct WorldV {
    pub data: Seq<i128>,
    pub fds: i128,
    pub claimed: Seq<i128>,
    pub schedule: Seq<ReadOutcome>,
    pub reads: usize,
    pub pos: Seq<i128>,
}

impl View for PosixWorld {
    type V = WorldV;

    open spec fn view(&self) -> WorldV {
        WorldV {
            data: self.data@,
            fds: self.fds,
            claimed: self.claimed@,
            schedule: self.schedule@,
            reads: self.reads,
            pos: self.pos@,
        }
    }
}

/// The schedule that a script names.
pub open spec fn schedule_of(script: i128) -> Seq<ReadOutcome> {
    if script == 0 {
        Seq::empty()
    } else if script == 1 {
        seq![ReadOutcome::Full, ReadOutcome::Short(2)]
    } else if script == 2 {
        seq![ReadOutcome::Fail(5)]
    } else {
        seq![ReadOutcome::Short(1), ReadOutcome::Fail(5), ReadOutcome::Full]
    }
}

pub open spec fn scripted_world(script: i128) -> WorldV {
    WorldV {
        data: Seq::new(16, |i: int| ((i * 7 + 3) % 256) as i128),
        fds: 3,
        claimed: Seq::empty(),
        schedule: schedule_of(script),
        reads: 0,
        pos: seq![0i128, 0i128, 0i128],
    }
}

pub open spec fn counted(n: usize) -> usize {
    if n < usize::MAX {
        (n + 1) as usize
    } else {
        n
    }
}

impl WorldV {
    pub open spec fn outcome(self) -> ReadOutcome {
        if self.reads < self.schedule.len() {
            self.schedule[self.reads as int]
        } else {
            ReadOutcome::Full
        }
    }

    pub open spec fn has(self, fd: i128) -> bool {
        0 <= fd < self.fds
    }
}

impl PosixWorld {
    pub fn scripted(script: i128) -> (r: PosixWorld)
        ensures
            r@ == scripted_world(script),
    {
        let mut data: Vec<i128> = Vec::new();
        let mut i: i128 = 0;
        while i < 16
            invariant
                0 <= i <= 16,
                data@ == Seq::new(i as nat, |k: int| ((k * 7 + 3) % 256) as i128),
            decreases 16 - i,
        {
            let byte: i128 = (i * 7 + 3) % 256;
            data.push(byte);
            assert(data@ =~= Seq::new((i + 1) as nat, |k: int| ((k * 7 + 3) % 256) as i128));
            i = i + 1;
        }
        let mut schedule: Vec<ReadOutcome> = Vec::new();
        if script == 1 {
            schedule.push(ReadOutcome::Full);
            schedule.push(ReadOutcome::Short(2));
        } else if script == 2 {
            schedule.push(ReadOutcome::Fail(5));
        } else if script != 0 {
            schedule.push(ReadOutcome::Short(1));
            schedule.push(ReadOutcome::Fail(5));
            schedule.push(ReadOutcome::Full);
        }
        assert(schedule@ =~= schedule_of(script));
        let mut pos: Vec<i128> = Vec::new();
        pos.push(0);
        pos.push(0);
        pos.push(0);
        assert(pos@ =~= seq![0i128, 0i128, 0i128]);
        PosixWorld { data, fds: 3, claimed: Vec::new(), schedule, reads: 0, pos }
    }

    pub fn next_outcome(&mut self) -> (r: ReadOutcome)
        ensures
            r == old(self)@.outcome(),
            final(self)@ == (WorldV { reads: counted(old(self)@.reads), ..old(self)@ }),
    {
        let out = if self.reads < self.schedule.len() {
            self.schedule[self.reads]
        } else {
            ReadOutcome::Full
        };
        if self.reads < usize::MAX {
            self.reads = self.reads + 1;
        }
        out
    }

    /// Hands out the authority over a descriptor, once.
    pub fn claim(&mut self, fd: i128) -> (r: bool)
        ensures
            r == !old(self)@.claimed.contains(fd),
            final(self)@ == (if r {
                WorldV { claimed: old(self)@.claimed.push(fd), ..old(self)@ }
            } else {
                old(self)@
            }),
    {
        let n: usize = self.claimed.len();
        let mut i: usize = 0;
        while i < n
            invariant
                *self == *old(self),
                n == self.claimed@.len(),
                i <= n,
                forall|k: int| 0 <= k < i ==> self.claimed@[k] != fd,
            decreases n - i,
        {
            if self.claimed[i] == fd {
                assert(self.claimed@.contains(fd));
                return false;
            }
            i = i + 1;
        }
        self.claimed.push(fd);
        true
    }
}

// ------------------------------------------------------------------------------------------
// The transmitter
// ------------------------------------------------------------------------------------------

/// One access to a device register, in order of time.
#[derive(Clone, Copy, Debug, PartialEq, Eq, Structural)]
pub enum MmioEvent {
    Read { address: i128, width: u8, value: i128 },
    Write { address: i128, width: u8, value: i128 },
}

#[derive(Debug)]
pub struct ScriptedUart {
    pub script: i128,
    /// How often the status was read.
    pub cursor: usize,
    pub ready: bool,
    pub events: Vec<MmioEvent>,
}

pub ghost struct UartV {
    pub script: i128,
    pub cursor: usize,
    pub ready: bool,
    pub events: Seq<MmioEvent>,
}

impl View for ScriptedUart {
    type V = UartV;

    open spec fn view(&self) -> UartV {
        UartV {
            script: self.script,
            cursor: self.cursor,
            ready: self.ready,
            events: self.events@,
        }
    }
}

pub open spec fn new_uart(script: i128) -> UartV {
    UartV { script, cursor: 0, ready: false, events: Seq::empty() }
}

impl UartV {
    /// What the status register says next.
    pub open spec fn status_value(self) -> i128 {
        if self.script == 0 {
            1
        } else if self.script == 1 {
            if self.cursor < 2 {
                0
            } else {
                1
            }
        } else {
            0
        }
    }

    pub open spec fn after_status(self) -> UartV {
        UartV {
            cursor: counted(self.cursor),
            ready: self.status_value() != 0,
            events: self.events.push(
                MmioEvent::Read { address: 4096, width: 8, value: self.status_value() },
            ),
            ..self
        }
    }

    pub open spec fn after_write(self, byte: i128) -> UartV {
        UartV {
            ready: false,
            events: self.events.push(MmioEvent::Write { address: 4097, width: 8, value: byte }),
            ..self
        }
    }
}

/// How many of the first `n` accesses are reads.
pub open spec fn reads(events: Seq<MmioEvent>, n: nat) -> nat
    decreases n,
{
    if n == 0 || n > events.len() {
        0
    } else {
        reads(events, (n - 1) as nat) + if events[n - 1] is Read {
            1nat
        } else {
            0nat
        }
    }
}

/// A read of the status register that found the transmitter ready.
pub open spec fn ready_read() -> MmioEvent {
    MmioEvent::Read { address: 4096, width: 8, value: 1 }
}

/// The access at `i` is one of the transmitter: the status is read, or a byte is written right
/// after the status was found ready.
pub open spec fn disciplined(events: Seq<MmioEvent>, i: int) -> bool {
    match events[i] {
        MmioEvent::Read { address, width, .. } => address == 4096 && width == 8,
        MmioEvent::Write { address, width, .. } => address == 4097 && width == 8 && 0 < i && events[i
            - 1] == ready_read(),
    }
}

/// What holds of a transmitter at every moment: its cursor counts the reads, every access keeps
/// to the discipline, and it is ready only right after a read that said so.
#[verifier::opaque]
pub open spec fn orderly(u: Option<UartV>) -> bool {
    match u {
        None => true,
        Some(u) => {
            &&& u.cursor == if reads(u.events, u.events.len()) <= usize::MAX {
                reads(u.events, u.events.len())
            } else {
                usize::MAX as nat
            }
            &&& forall|i: int| 0 <= i < u.events.len() ==> #[trigger] disciplined(u.events, i)
            &&& u.ready ==> u.events.len() > 0 && u.events.last() == ready_read()
        },
    }
}

proof fn lemma_reads_prefix(events: Seq<MmioEvent>, e: MmioEvent, n: nat)
    requires
        n <= events.len(),
    ensures
        reads(events.push(e), n) == reads(events, n),
    decreases n,
{
    if n > 0 {
        lemma_reads_prefix(events, e, (n - 1) as nat);
    }
}

pub proof fn lemma_reads_bound(events: Seq<MmioEvent>, n: nat)
    ensures
        reads(events, n) <= n,
    decreases n,
{
    if 0 < n && n <= events.len() {
        lemma_reads_bound(events, (n - 1) as nat);
    }
}

pub proof fn lemma_select_is_orderly(script: i128)
    ensures
        orderly(None),
        orderly(Some(new_uart(script))),
{
    reveal(orderly);
}

pub proof fn lemma_status_is_orderly(u: UartV)
    requires
        orderly(Some(u)),
    ensures
        orderly(Some(u.after_status())),
{
    reveal(orderly);
    let e = MmioEvent::Read { address: 4096, width: 8, value: u.status_value() };
    let next = u.after_status().events;
    lemma_reads_prefix(u.events, e, u.events.len());
    assert forall|i: int| 0 <= i < next.len() implies #[trigger] disciplined(next, i) by {
        if i < u.events.len() {
            assert(disciplined(u.events, i));
        }
    }
}

pub proof fn lemma_write_is_orderly(u: UartV, byte: i128)
    requires
        orderly(Some(u)),
        u.ready,
    ensures
        orderly(Some(u.after_write(byte))),
{
    reveal(orderly);
    let e = MmioEvent::Write { address: 4097, width: 8, value: byte };
    let next = u.after_write(byte).events;
    lemma_reads_prefix(u.events, e, u.events.len());
    assert forall|i: int| 0 <= i < next.len() implies #[trigger] disciplined(next, i) by {
        if i < u.events.len() {
            assert(disciplined(u.events, i));
        }
    }
}

impl ScriptedUart {
    pub fn new(script: i128) -> (r: ScriptedUart)
        ensures
            r@ == new_uart(script),
    {
        ScriptedUart { script, cursor: 0, ready: false, events: Vec::new() }
    }

    pub fn status(&mut self) -> (r: i128)
        ensures
            r == old(self)@.status_value(),
            final(self)@ == old(self)@.after_status(),
    {
        let value: i128 = if self.script == 0 {
            1
        } else if self.script == 1 {
            if self.cursor < 2 {
                0
            } else {
                1
            }
        } else {
            0
        };
        if self.cursor < usize::MAX {
            self.cursor = self.cursor + 1;
        }
        self.ready = value != 0;
        self.events.push(MmioEvent::Read { address: 4096, width: 8, value });
        value
    }

    pub fn write(&mut self, byte: i128)
        ensures
            final(self)@ == old(self)@.after_write(byte),
    {
        self.events.push(MmioEvent::Write { address: 4097, width: 8, value: byte });
        self.ready = false;
    }
}

// ------------------------------------------------------------------------------------------
// Stand-ins
// ------------------------------------------------------------------------------------------

/// A result, and the raw memory and the world that it leaves.
pub type ShimV = (Result<ValV, TrapV>, RawV, Option<WorldV>);

pub open spec fn fits(n: int) -> bool {
    i128::MIN <= n <= i128::MAX
}

/// The bytes from `i` on, filled one by one.
pub open spec fn fill_from(
    raw: RawV,
    name: Seq<char>,
    p: (i128, i128),
    n: i128,
    v: i128,
    i: nat,
    span: Span,
) -> (Result<ValV, TrapV>, RawV)
    decreases n - i,
{
    if i >= n {
        (Ok(ValV::Unit), raw)
    } else if !live_at(raw, p.0 as int, p.1 + i) {
        (
            Err(
                undefined(span, "`"@ + name + "` writes out of bounds: "@ + at_text(p.0, p.1 + i)),
            ),
            raw,
        )
    } else {
        fill_from(set_byte(raw, p.0 as int, p.1 + i, v), name, p, n, v, i + 1, span)
    }
}

/// The sum of the bytes from `i` on, after `acc`.
pub open spec fn checksum_from(
    raw: RawV,
    name: Seq<char>,
    p: (i128, i128),
    n: i128,
    acc: int,
    i: nat,
    span: Span,
) -> Result<ValV, TrapV>
    decreases n - i,
{
    if i >= n {
        Ok(ValV::Int(acc as i128))
    } else if !live_at(raw, p.0 as int, p.1 + i) || raw[p.0 as int].bytes[p.1 + i] is None {
        Err(
            undefined(
                span,
                "`"@ + name + "` reads out of bounds or uninitialized: "@ + at_text(p.0, p.1 + i),
            ),
        )
    } else {
        let total = acc + raw[p.0 as int].bytes[p.1 + i]->Some_0;
        if !fits(total) {
            Err(stuck(span, "checksum range"@))
        } else {
            checksum_from(raw, name, p, n, total, i + 1, span)
        }
    }
}

/// The bytes from `i` on, written one by one.
pub open spec fn write_from(
    raw: RawV,
    name: Seq<char>,
    p: (i128, i128),
    bytes: Seq<i128>,
    i: nat,
    span: Span,
) -> (Result<(), TrapV>, RawV)
    decreases bytes.len() - i,
{
    if i >= bytes.len() {
        (Ok(()), raw)
    } else if !live_at(raw, p.0 as int, p.1 + i) {
        (
            Err(
                undefined(span, "`"@ + name + "` writes out of bounds: "@ + at_text(p.0, p.1 + i)),
            ),
            raw,
        )
    } else {
        write_from(set_byte(raw, p.0 as int, p.1 + i, bytes[i as int]), name, p, bytes, i + 1, span)
    }
}

pub open spec fn no_world(name: Seq<char>, span: Span) -> TrapV {
    trap(span, "`"@ + name + "` called with no world in play"@)
}

pub open spec fn no_descriptor(name: Seq<char>, fd: i128, span: Span) -> TrapV {
    undefined(
        span,
        "`"@ + name + "`: descriptor "@ + int_text(fd as int) + " was never handed out"@,
    )
}

/// A read: what the schedule allows of what is left in the stream, moved past and then written.
pub open spec fn shim_read(
    raw: RawV,
    w: WorldV,
    name: Seq<char>,
    fd: i128,
    p: (i128, i128),
    n: i128,
    span: Span,
) -> ShimV {
    let after = WorldV { reads: counted(w.reads), ..w };
    match w.outcome() {
        ReadOutcome::Fail(e) => if fits(-(e as int)) {
            (Ok(ValV::Int((-(e as int)) as i128)), raw, Some(after))
        } else {
            (Err(stuck(span, "error number"@)), raw, Some(after))
        },
        outcome => {
            let want = match outcome {
                ReadOutcome::Short(k) => if k <= n {
                    k
                } else {
                    n
                },
                _ => n,
            };
            if fd >= w.pos.len() {
                (Err(stuck(span, "descriptor position"@)), raw, Some(after))
            } else {
                let pos = w.pos[fd as int];
                if pos < 0 {
                    (Err(stuck(span, "descriptor position"@)), raw, Some(after))
                } else {
                    let left = if w.data.len() - pos > 0 {
                        w.data.len() - pos
                    } else {
                        0
                    };
                    let got = if want <= left {
                        want as int
                    } else {
                        left
                    };
                    if !fits(pos + got) {
                        (Err(stuck(span, "descriptor position"@)), raw, Some(after))
                    } else {
                        let moved = WorldV {
                            pos: w.pos.update(fd as int, (pos + got) as i128),
                            ..after
                        };
                        let bytes = if got > 0 {
                            w.data.subrange(pos as int, pos + got)
                        } else {
                            Seq::empty()
                        };
                        match write_from(raw, name, p, bytes, 0, span) {
                            (Err(e), raw) => (Err(e), raw, Some(moved)),
                            (Ok(_), raw) => (Ok(ValV::Int(got as i128)), raw, Some(moved)),
                        }
                    }
                }
            }
        },
    }
}

/// What an audited foreign function does in a test, by its audit identity. An identity with no
/// stand-in traps: a body that does nothing would let a contract appear to hold.
#[verifier::opaque]
pub open spec fn shim_step(
    raw: RawV,
    world: Option<WorldV>,
    name: Seq<char>,
    audit_id: Seq<char>,
    args: Seq<ValV>,
    span: Span,
) -> ShimV {
    if audit_id == "test.fill.v1"@ {
        match (pointer(args, 0), number(args, 1), number(args, 2)) {
            (Some(p), Some(n), Some(v)) => {
                let (r, raw) = fill_from(raw, name, p, n, v, 0, span);
                (r, raw, world)
            },
            _ => (Err(stuck(span, "stand-in operand"@)), raw, world),
        }
    } else if audit_id == "test.checksum.v1"@ {
        match (pointer(args, 0), number(args, 1)) {
            (Some(p), Some(n)) => (checksum_from(raw, name, p, n, 0, 0, span), raw, world),
            _ => (Err(stuck(span, "stand-in operand"@)), raw, world),
        }
    } else if audit_id == "posix.read.v1"@ {
        match (number(args, 0), pointer(args, 1), number(args, 2)) {
            (Some(fd), Some(p), Some(n)) => match world {
                None => (Err(no_world(name, span)), raw, world),
                Some(w) => if !w.has(fd) {
                    (Err(no_descriptor(name, fd, span)), raw, world)
                } else {
                    shim_read(raw, w, name, fd, p, n, span)
                },
            },
            _ => (Err(stuck(span, "stand-in operand"@)), raw, world),
        }
    } else if audit_id == "posix.close.v2"@ {
        match number(args, 0) {
            Some(fd) => match world {
                None => (Err(no_world(name, span)), raw, world),
                Some(w) => if !w.has(fd) {
                    (Err(no_descriptor(name, fd, span)), raw, world)
                } else {
                    (Ok(ValV::Int(0)), raw, world)
                },
            },
            _ => (Err(stuck(span, "stand-in operand"@)), raw, world),
        }
    } else {
        (
            Err(
                trap(
                    span,
                    "no test shim for audited extern `"@ + name + "` (audit id `"@ + audit_id
                        + "`)"@,
                ),
            ),
            raw,
            world,
        )
    }
}

pub open spec fn world_view(w: Option<PosixWorld>) -> Option<WorldV> {
    match w {
        Some(w) => Some(w@),
        None => None,
    }
}

fn at(a: i128, o: i128) -> (r: String)
    ensures
        r@ == at_text(a, o as int),
{
    cat3(signed_decimal(a).as_str(), "+", signed_decimal(o).as_str())
}

fn out_of_bounds(name: &str, a: i128, o: i128, span: Span) -> (r: Trap)
    ensures
        r@ == undefined(span, "`"@ + name@ + "` writes out of bounds: "@ + at_text(a, o as int)),
{
    Trap::undefined(span, cat4("`", name, "` writes out of bounds: ", at(a, o).as_str()))
}

proof fn lemma_reach(raw: RawHeap, a: int, off: int)
    requires
        live_at(raw@, a, off),
    ensures
        0 <= a < raw.allocs@.len(),
        raw@[a] == raw.allocs@[a]@,
        0 <= off < raw@[a].bytes.len() <= usize::MAX,
{
    assert(raw.allocs@[a].bytes.len() == raw.allocs@[a].bytes@.len());
}

fn fill(raw: &mut RawHeap, name: &str, p: (i128, i128), n: i128, v: i128, span: Span) -> (r: Result<
    RtVal,
    Trap,
>)
    ensures
        yields(r, fill_from(old(raw)@, name@, p, n, v, 0, span).0),
        final(raw)@ == fill_from(old(raw)@, name@, p, n, v, 0, span).1,
{
    let mut i: i128 = 0;
    while i < n
        invariant
            0 <= i,
            i == 0 || p.1 + i <= usize::MAX,
            fill_from(old(raw)@, name@, p, n, v, 0, span) == fill_from(
                raw@,
                name@,
                p,
                n,
                v,
                i as nat,
                span,
            ),
        decreases n - i,
    {
        let off = p.1 + i;
        match raw.live_at(p.0, off) {
            None => {
                return Err(out_of_bounds(name, p.0, off, span));
            },
            Some(a) => {
                proof {
                    lemma_reach(*raw, p.0 as int, off as int);
                }
                raw.set_byte(a, off, v);
            },
        }
        i = i + 1;
    }
    Ok(RtVal::Unit)
}

fn checksum(raw: &RawHeap, name: &str, p: (i128, i128), n: i128, span: Span) -> (r: Result<
    RtVal,
    Trap,
>)
    ensures
        yields(r, checksum_from(raw@, name@, p, n, 0, 0, span)),
{
    let mut acc: i128 = 0;
    let mut i: i128 = 0;
    while i < n
        invariant
            0 <= i,
            i == 0 || p.1 + i <= usize::MAX,
            checksum_from(raw@, name@, p, n, 0, 0, span) == checksum_from(
                raw@,
                name@,
                p,
                n,
                acc as int,
                i as nat,
                span,
            ),
        decreases n - i,
    {
        let off = p.1 + i;
        let byte = match raw.live_at(p.0, off) {
            None => None,
            Some(a) => {
                proof {
                    lemma_reach(*raw, p.0 as int, off as int);
                }
                raw.byte(a, off)
            },
        };
        match byte {
            None => {
                return Err(
                    Trap::undefined(
                        span,
                        cat4(
                            "`",
                            name,
                            "` reads out of bounds or uninitialized: ",
                            at(p.0, off).as_str(),
                        ),
                    ),
                );
            },
            Some(b) => match acc.checked_add(b) {
                None => {
                    return Err(Trap::stuck(span, "checksum range"));
                },
                Some(total) => {
                    acc = total;
                },
            },
        }
        i = i + 1;
    }
    Ok(RtVal::Int(acc))
}

fn write_bytes(raw: &mut RawHeap, name: &str, p: (i128, i128), bytes: &Vec<i128>, span: Span) -> (r:
    Result<(), Trap>)
    ensures
        yields(r, write_from(old(raw)@, name@, p, bytes@, 0, span).0),
        final(raw)@ == write_from(old(raw)@, name@, p, bytes@, 0, span).1,
{
    let n: usize = bytes.len();
    let mut i: usize = 0;
    while i < n
        invariant
            n == bytes@.len(),
            i <= n,
            i == 0 || p.1 + i <= usize::MAX,
            write_from(old(raw)@, name@, p, bytes@, 0, span) == write_from(
                raw@,
                name@,
                p,
                bytes@,
                i as nat,
                span,
            ),
        decreases n - i,
    {
        let off = p.1 + i as i128;
        match raw.live_at(p.0, off) {
            None => {
                return Err(out_of_bounds(name, p.0, off, span));
            },
            Some(a) => {
                proof {
                    lemma_reach(*raw, p.0 as int, off as int);
                }
                raw.set_byte(a, off, bytes[i]);
            },
        }
        i = i + 1;
    }
    Ok(())
}

pub open spec fn shim_yields(
    r: Result<RtVal, Trap>,
    raw: RawV,
    world: Option<WorldV>,
    s: ShimV,
) -> bool {
    yields(r, s.0) && raw == s.1 && world == s.2
}

fn read(
    raw: &mut RawHeap,
    w: &mut PosixWorld,
    name: &str,
    fd: i128,
    p: (i128, i128),
    n: i128,
    span: Span,
) -> (r: Result<RtVal, Trap>)
    requires
        old(w)@.has(fd),
    ensures
        shim_yields(
            r,
            final(raw)@,
            Some(final(w)@),
            shim_read(old(raw)@, old(w)@, name@, fd, p, n, span),
        ),
{
    let outcome = w.next_outcome();
    let want = match outcome {
        ReadOutcome::Full => n,
        ReadOutcome::Short(k) => if k <= n {
            k
        } else {
            n
        },
        ReadOutcome::Fail(e) => {
            if e == i128::MIN {
                return Err(Trap::stuck(span, "error number"));
            }
            return Ok(RtVal::Int(-e));
        },
    };
    if fd >= w.pos.len() as i128 {
        return Err(Trap::stuck(span, "descriptor position"));
    }
    let slot = fd as usize;
    let pos = w.pos[slot];
    if pos < 0 {
        return Err(Trap::stuck(span, "descriptor position"));
    }
    let size: usize = w.data.len();
    let len = size as i128;
    let left: i128 = if len - pos > 0 {
        len - pos
    } else {
        0
    };
    let got: i128 = if want <= left {
        want
    } else {
        left
    };
    let moved = match pos.checked_add(got) {
        None => {
            return Err(Trap::stuck(span, "descriptor position"));
        },
        Some(moved) => moved,
    };
    let mut bytes: Vec<i128> = Vec::new();
    let mut i: i128 = 0;
    while i < got
        invariant
            0 <= i,
            0 <= pos,
            got > 0 ==> i <= got,
            got > 0 ==> pos + got <= w.data@.len(),
            size == w.data@.len(),
            got <= 0 ==> i == 0,
            bytes@ == (if got > 0 {
                w.data@.subrange(pos as int, pos + i)
            } else {
                Seq::empty()
            }),
        decreases got - i,
    {
        bytes.push(w.data[(pos + i) as usize]);
        assert(w.data@.subrange(pos as int, pos + i + 1) =~= w.data@.subrange(
            pos as int,
            pos + i,
        ).push(w.data@[pos + i]));
        i = i + 1;
    }
    w.pos.set(slot, moved);
    match write_bytes(raw, name, p, &bytes, span) {
        Err(e) => Err(e),
        Ok(_) => Ok(RtVal::Int(got)),
    }
}

fn without_world(name: &str, span: Span) -> (r: Result<RtVal, Trap>)
    ensures
        yields(r, Err(no_world(name@, span))),
{
    Err(Trap::defined(span, cat3("`", name, "` called with no world in play")))
}

fn without_descriptor(name: &str, fd: i128, span: Span) -> (r: Result<RtVal, Trap>)
    ensures
        yields(r, Err(no_descriptor(name@, fd, span))),
{
    Err(
        Trap::undefined(
            span,
            cat5(
                "`",
                name,
                "`: descriptor ",
                signed_decimal(fd).as_str(),
                " was never handed out",
            ),
        ),
    )
}

/// What an audited foreign function does in a test.
pub fn call_shim(
    raw: &mut RawHeap,
    world: &mut Option<PosixWorld>,
    name: &str,
    audit_id: &str,
    args: &Vec<RtVal>,
    span: Span,
) -> (r: Result<RtVal, Trap>)
    ensures
        shim_yields(
            r,
            final(raw)@,
            world_view(*final(world)),
            shim_step(
                old(raw)@,
                world_view(*old(world)),
                name@,
                audit_id@,
                views(args@),
                span,
            ),
        ),
{
    proof {
        reveal(shim_step);
    }
    if same_text(audit_id, "test.fill.v1") {
        return match (pointer_at(args, 0), number_at(args, 1), number_at(args, 2)) {
            (Some(p), Some(n), Some(v)) => fill(raw, name, p, n, v, span),
            _ => Err(Trap::stuck(span, "stand-in operand")),
        };
    }
    if same_text(audit_id, "test.checksum.v1") {
        return match (pointer_at(args, 0), number_at(args, 1)) {
            (Some(p), Some(n)) => checksum(raw, name, p, n, span),
            _ => Err(Trap::stuck(span, "stand-in operand")),
        };
    }
    if same_text(audit_id, "posix.read.v1") {
        return match (number_at(args, 0), pointer_at(args, 1), number_at(args, 2)) {
            (Some(fd), Some(p), Some(n)) => match world.take() {
                None => without_world(name, span),
                Some(mut w) => {
                    if fd < 0 || fd >= w.fds {
                        *world = Some(w);
                        return without_descriptor(name, fd, span);
                    }
                    let out = read(raw, &mut w, name, fd, p, n, span);
                    *world = Some(w);
                    out
                },
            },
            _ => Err(Trap::stuck(span, "stand-in operand")),
        };
    }
    if same_text(audit_id, "posix.close.v2") {
        return match number_at(args, 0) {
            Some(fd) => match world {
                None => without_world(name, span),
                Some(w) => {
                    if fd < 0 || fd >= w.fds {
                        return without_descriptor(name, fd, span);
                    }
                    Ok(RtVal::Int(0))
                },
            },
            None => Err(Trap::stuck(span, "stand-in operand")),
        };
    }
    Err(
        Trap::defined(
            span,
            cat5(
                "no test shim for audited extern `",
                name,
                "` (audit id `",
                audit_id,
                "`)",
            ),
        ),
    )
}

// ------------------------------------------------------------------------------------------
// Laws
// ------------------------------------------------------------------------------------------

/// The transmitter writes a byte only after a status that said ready, and one write spends it:
/// every status and write leaves exactly one event, at the end of the trace.
pub proof fn law_transmitter_discipline(u: UartV, byte: i128)
    ensures
        u.after_status().ready == (u.status_value() != 0),
        !u.after_write(byte).ready,
        u.after_status().events.drop_last() == u.events,
        u.after_write(byte).events.drop_last() == u.events,
        u.after_write(byte).events.last() == (MmioEvent::Write {
            address: 4097,
            width: 8,
            value: byte,
        }),
        u.after_status().events.last() == (MmioEvent::Read {
            address: 4096,
            width: 8,
            value: u.status_value(),
        }),
{
    assert(u.after_status().events.drop_last() =~= u.events);
    assert(u.after_write(byte).events.drop_last() =~= u.events);
}

/// Byte `j` of a stretch is reachable and holds `v`.
pub open spec fn filled(raw: RawV, p: (i128, i128), j: int, v: i128) -> bool {
    live_at(raw, p.0 as int, p.1 + j) && raw[p.0 as int].bytes[p.1 + j] == Some(v)
}

proof fn lemma_fill(
    raw: RawV,
    name: Seq<char>,
    p: (i128, i128),
    n: i128,
    v: i128,
    i: nat,
    span: Span,
)
    requires
        fill_from(raw, name, p, n, v, i, span).0 is Ok,
        forall|j: int| 0 <= j < i ==> #[trigger] filled(raw, p, j, v),
    ensures
        forall|j: int|
            0 <= j < n ==> #[trigger] filled(
                fill_from(raw, name, p, n, v, i, span).1,
                p,
                j,
                v,
            ),
    decreases n - i,
{
    if i < n {
        let next = set_byte(raw, p.0 as int, p.1 + i, v);
        assert forall|j: int| 0 <= j < i + 1 implies #[trigger] filled(next, p, j, v) by {
            if j < i {
                assert(filled(raw, p, j, v));
            }
        }
        lemma_fill(next, name, p, n, v, i + 1, span);
    }
}

proof fn lemma_checksum(
    raw: RawV,
    name: Seq<char>,
    p: (i128, i128),
    n: i128,
    v: i128,
    i: nat,
    span: Span,
)
    requires
        i <= n,
        fits(n * v),
        forall|j: int| 0 <= j < n ==> #[trigger] filled(raw, p, j, v),
    ensures
        checksum_from(raw, name, p, n, i * v, i, span) == Ok::<ValV, TrapV>(
            ValV::Int((n * v) as i128),
        ),
    decreases n - i,
{
    if i < n {
        assert(filled(raw, p, i as int, v));
        let j = (i + 1) as int;
        assert(j * v == i * v + v) by (nonlinear_arith)
            requires
                j == i + 1,
        ;
        assert(v >= 0 ==> 0 <= j * v <= n * v) by (nonlinear_arith)
            requires
                0 <= j <= n,
        ;
        assert(v < 0 ==> n * v <= j * v <= 0) by (nonlinear_arith)
            requires
                0 <= j <= n,
        ;
        lemma_checksum(raw, name, p, n, v, i + 1, span);
    } else {
        assert(i * v == n * v);
    }
}

/// A checksum after a fill gives the sum of what was filled, and changes nothing.
pub proof fn law_checksum_after_fill(
    raw: RawV,
    world: Option<WorldV>,
    filler: Seq<char>,
    summer: Seq<char>,
    p: (i128, i128),
    n: i128,
    v: i128,
    span: Span,
    at: Span,
)
    requires
        n >= 0,
        fits(n * v),
        shim_step(
            raw,
            world,
            filler,
            "test.fill.v1"@,
            seq![ValV::Ptr(p.0, p.1), ValV::Int(n), ValV::Int(v)],
            span,
        ).0 is Ok,
    ensures
        ({
            let done = shim_step(
                raw,
                world,
                filler,
                "test.fill.v1"@,
                seq![ValV::Ptr(p.0, p.1), ValV::Int(n), ValV::Int(v)],
                span,
            );
            shim_step(
                done.1,
                done.2,
                summer,
                "test.checksum.v1"@,
                seq![ValV::Ptr(p.0, p.1), ValV::Int(n)],
                at,
            ) == (Ok::<ValV, TrapV>(ValV::Int((n * v) as i128)), done.1, done.2)
        }),
{
    reveal(shim_step);
    reveal_strlit("test.fill.v1");
    reveal_strlit("test.checksum.v1");
    assert("test.checksum.v1"@.len() != "test.fill.v1"@.len());
    let three = seq![ValV::Ptr(p.0, p.1), ValV::Int(n), ValV::Int(v)];
    let two = seq![ValV::Ptr(p.0, p.1), ValV::Int(n)];
    assert(pointer(three, 0) == Some(p) && number(three, 1) == Some(n) && number(three, 2) == Some(
        v,
    ));
    assert(pointer(two, 0) == Some(p) && number(two, 1) == Some(n));
    lemma_fill(raw, filler, p, n, v, 0, span);
    let after = fill_from(raw, filler, p, n, v, 0, span).1;
    assert(0nat * v == 0);
    lemma_checksum(after, summer, p, n, v, 0, at);
}

proof fn lemma_checksum_refuses(
    raw: RawV,
    name: Seq<char>,
    p: (i128, i128),
    n: i128,
    acc: int,
    i: nat,
    bad: int,
    span: Span,
)
    requires
        i <= bad < n,
        !live_at(raw, p.0 as int, p.1 + bad) || raw[p.0 as int].bytes[p.1 + bad] is None,
    ensures
        checksum_from(raw, name, p, n, acc, i, span) matches Err(t) && t.undef,
    decreases n - i,
{
    if i < bad {
        if live_at(raw, p.0 as int, p.1 + i) && raw[p.0 as int].bytes[p.1 + i] is Some {
            let total = acc + raw[p.0 as int].bytes[p.1 + i]->Some_0;
            if fits(total) {
                lemma_checksum_refuses(raw, name, p, n, total, i + 1, bad, span);
            }
        }
    }
}

/// A checksum over a byte that is dead, out of range, covered by a cell or uninitialized is
/// undefined behavior, and changes nothing.
pub proof fn law_checksum_needs_every_byte(
    raw: RawV,
    world: Option<WorldV>,
    name: Seq<char>,
    p: (i128, i128),
    n: i128,
    bad: int,
    span: Span,
)
    requires
        0 <= bad < n,
        !live_at(raw, p.0 as int, p.1 + bad) || raw[p.0 as int].bytes[p.1 + bad] is None,
    ensures
        ({
            let s = shim_step(
                raw,
                world,
                name,
                "test.checksum.v1"@,
                seq![ValV::Ptr(p.0, p.1), ValV::Int(n)],
                span,
            );
            &&& s.0 matches Err(t) && t.undef
            &&& s.1 == raw
            &&& s.2 == world
        }),
{
    reveal(shim_step);
    reveal_strlit("test.fill.v1");
    reveal_strlit("test.checksum.v1");
    assert("test.checksum.v1"@.len() != "test.fill.v1"@.len());
    let two = seq![ValV::Ptr(p.0, p.1), ValV::Int(n)];
    assert(pointer(two, 0) == Some(p) && number(two, 1) == Some(n));
    lemma_checksum_refuses(raw, name, p, n, 0, 0, bad, span);
}

} // verus!
