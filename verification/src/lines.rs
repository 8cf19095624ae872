//! The lines of a source text, by byte offset.
use vstd::prelude::*;
use vstd::string::*;
use vstd::utf8::*;

use crate::span::Span;
use crate::text::{byte_len, byte_slice};

verus! {

/// Where the lines start among the first `n` bytes.
pub open spec fn line_starts(bytes: Seq<u8>, n: nat) -> Seq<usize>
    decreases n,
{
    if n == 0 || n > bytes.len() {
        seq![0usize]
    } else if bytes[n - 1] == 10 {
        line_starts(bytes, (n - 1) as nat).push(n as usize)
    } else {
        line_starts(bytes, (n - 1) as nat)
    }
}

/// Where the lines of a text start.
pub open spec fn starts_of(source: Seq<char>) -> Seq<usize> {
    line_starts(encode_utf8(source), byte_len(source))
}

/// The last of the first `n` lines that starts at or before an offset.
pub open spec fn line_index(starts: Seq<usize>, offset: usize, n: nat) -> nat
    decreases n,
{
    if n <= 1 {
        0
    } else if starts[n - 1] <= offset {
        (n - 1) as nat
    } else {
        line_index(starts, offset, (n - 1) as nat)
    }
}

/// How many of the first `n` bytes end a line.
pub open spec fn line_ends(bytes: Seq<u8>, n: nat) -> nat
    decreases n,
{
    if n == 0 || n > bytes.len() {
        0
    } else {
        line_ends(bytes, (n - 1) as nat) + (if bytes[n - 1] == 10 {
            1nat
        } else {
            0nat
        })
    }
}

/// Each line but the first starts right after the end of the line before it.
pub open spec fn starts_follow(bytes: Seq<u8>, starts: Seq<usize>, n: nat) -> bool {
    &&& starts.len() >= 1
    &&& starts[0] == 0
    &&& forall|k: int|
        1 <= k < starts.len() ==> 1 <= #[trigger] starts[k] <= n && bytes[starts[k] - 1] == 10
    &&& forall|j: int, k: int| 0 <= j < k < starts.len() ==> starts[j] < starts[k]
}

proof fn lemma_line_starts(bytes: Seq<u8>, n: nat)
    requires
        n <= bytes.len() <= usize::MAX,
    ensures
        starts_follow(bytes, line_starts(bytes, n), n),
        line_starts(bytes, n).len() == line_ends(bytes, n) + 1,
    decreases n,
{
    if n > 0 {
        lemma_line_starts(bytes, (n - 1) as nat);
    }
}

proof fn lemma_line_index(bytes: Seq<u8>, starts: Seq<usize>, offset: usize, n: nat, k: nat)
    requires
        starts == line_starts(bytes, n),
        n <= bytes.len() <= usize::MAX,
        offset <= n,
        1 <= k <= starts.len(),
        k == starts.len() || offset < starts[k as int],
    ensures
        line_index(starts, offset, k) == line_ends(bytes, offset as nat),
    decreases n, k,
{
    lemma_line_starts(bytes, n);
    if n == offset {
        lemma_line_starts(bytes, n);
        if k < starts.len() {
            assert(starts[k as int] <= n);
        }
    } else {
        let before = line_starts(bytes, (n - 1) as nat);
        lemma_line_starts(bytes, (n - 1) as nat);
        if bytes[n - 1] == 10 {
            if k == starts.len() {
                assert(starts[k - 1] == n as usize);
                assert(k >= 2);
                lemma_line_index(bytes, starts, offset, n, (k - 1) as nat);
            } else {
                lemma_same_index(before, starts, offset, k);
                lemma_line_index(bytes, before, offset, (n - 1) as nat, k);
            }
        } else {
            lemma_line_index(bytes, before, offset, (n - 1) as nat, k);
        }
    }
}

proof fn lemma_same_index(a: Seq<usize>, b: Seq<usize>, offset: usize, k: nat)
    requires
        k <= a.len(),
        b.len() == a.len() + 1,
        forall|i: int| 0 <= i < a.len() ==> a[i] == b[i],
    ensures
        line_index(a, offset, k) == line_index(b, offset, k),
    decreases k,
{
    if k > 1 {
        lemma_same_index(a, b, offset, (k - 1) as nat);
    }
}

/// The line of an offset is counted by the line ends before it: offset `o` of a text is on line
/// `1 + (line ends before o)`, and its column counts the bytes since the last of them.
pub proof fn law_line_of_offset(source: Seq<char>, offset: usize)
    requires
        offset <= byte_len(source) <= usize::MAX,
    ensures
        line_index(starts_of(source), offset, starts_of(source).len()) == line_ends(
            encode_utf8(source),
            offset as nat,
        ),
        starts_of(source)[line_index(
            starts_of(source),
            offset,
            starts_of(source).len(),
        ) as int] <= offset,
{
    let bytes = encode_utf8(source);
    lemma_line_starts(bytes, bytes.len());
    lemma_line_index(bytes, starts_of(source), offset, bytes.len(), starts_of(source).len());
    lemma_index_before(starts_of(source), offset, starts_of(source).len());
}

proof fn lemma_index_before(starts: Seq<usize>, offset: usize, n: nat)
    requires
        1 <= n <= starts.len(),
        starts[0] == 0,
    ensures
        line_index(starts, offset, n) < n,
        starts[line_index(starts, offset, n) as int] <= offset,
    decreases n,
{
    if n > 1 && starts[n - 1] > offset {
        lemma_index_before(starts, offset, (n - 1) as nat);
    }
}

/// Where the lines of one text start.
#[derive(Debug)]
pub struct LineMap {
    pub starts: Vec<usize>,
}

impl View for LineMap {
    type V = Seq<usize>;

    open spec fn view(&self) -> Seq<usize> {
        self.starts@
    }
}

/// Line and column of an offset, both counted from one. A column that no machine word holds is
/// the greatest one.
pub open spec fn position_of(starts: Seq<usize>, offset: usize) -> (nat, int) {
    let k = line_index(starts, offset, starts.len());
    let before = offset - starts[k as int];
    (k + 1, if before < usize::MAX {
        before + 1
    } else {
        before
    })
}

/// The text of a line, without its end.
pub open spec fn extent_of(starts: Seq<usize>, line: nat, source: Seq<char>) -> Span {
    Span {
        start: starts[line - 1],
        end: if line < starts.len() {
            (starts[line as int] - 1) as usize
        } else {
            byte_len(source) as usize
        },
    }
}

impl LineMap {
    pub fn new(source: &str) -> (r: LineMap)
        ensures
            r@ == starts_of(source@),
    {
        let bytes = source.as_bytes();
        let n: usize = bytes.len();
        let mut starts: Vec<usize> = Vec::new();
        starts.push(0);
        assert(starts@ =~= line_starts(bytes@, 0));
        let mut i: usize = 0;
        while i < n
            invariant
                n == bytes@.len(),
                i <= n,
                starts@ == line_starts(bytes@, i as nat),
            decreases n - i,
        {
            i = i + 1;
            if bytes[i - 1] == 10 {
                starts.push(i);
            }
        }
        LineMap { starts }
    }

    pub fn line_col(&self, offset: usize) -> (r: (usize, usize))
        requires
            self@.len() >= 1,
            self@[0] == 0,
        ensures
            r.0 == position_of(self@, offset).0,
            r.1 == position_of(self@, offset).1,
    {
        let mut n: usize = self.starts.len();
        assert(n == self@.len());
        while n > 1 && self.starts[n - 1] > offset
            invariant
                1 <= n <= self@.len(),
                self@[0] == 0,
                line_index(self@, offset, self@.len()) == line_index(self@, offset, n as nat),
            decreases n,
        {
            n = n - 1;
        }
        proof {
            lemma_index_before(self@, offset, n as nat);
        }
        let before: usize = offset - self.starts[n - 1];
        (n, if before < usize::MAX {
            before + 1
        } else {
            before
        })
    }

    /// Where a line stands in a text, without its end.
    pub fn line_span(&self, line: usize, source: &str) -> (r: Span)
        requires
            1 <= line <= self@.len(),
            line < self@.len() ==> self@[line as int] >= 1,
        ensures
            r == extent_of(self@, line as nat, source@),
    {
        let len: usize = source.as_bytes().len();
        let end = if line < self.starts.len() {
            self.starts[line] - 1
        } else {
            len
        };
        Span { start: self.starts[line - 1], end }
    }
}

/// Every text has a first line, at its start.
pub proof fn lemma_first_line(source: Seq<char>)
    requires
        byte_len(source) <= usize::MAX,
    ensures
        starts_of(source).len() >= 1,
        starts_of(source)[0] == 0,
{
    lemma_line_starts(encode_utf8(source), byte_len(source));
}

/// Every offset is on some line.
pub proof fn lemma_position(starts: Seq<usize>, offset: usize)
    requires
        starts.len() >= 1,
        starts[0] == 0,
    ensures
        1 <= position_of(starts, offset).0 <= starts.len(),
        1 <= position_of(starts, offset).1,
        position_of(starts, offset).0 < starts.len() ==> starts[position_of(starts, offset).0 as int]
            > offset,
{
    lemma_index_before(starts, offset, starts.len());
    lemma_index_after(starts, offset, starts.len());
}

proof fn lemma_index_after(starts: Seq<usize>, offset: usize, n: nat)
    requires
        1 <= n <= starts.len(),
    ensures
        line_index(starts, offset, n) + 1 < n ==> starts[line_index(starts, offset, n) as int + 1]
            > offset,
    decreases n,
{
    if n > 1 && starts[n - 1] > offset {
        lemma_index_after(starts, offset, (n - 1) as nat);
    }
}

/// The place after a line end is the start of a character, or the end of the text.
proof fn lemma_line_boundary(bytes: Seq<u8>, i: int)
    requires
        valid_utf8(bytes),
        0 <= i < bytes.len(),
        bytes[i] == 10,
    ensures
        is_char_boundary(bytes, i),
        is_char_boundary(bytes, i + 1),
{
    is_char_boundary_iff_not_is_continuation_byte(bytes, i);
    valid_utf8_split(bytes, i);
    let rest = bytes.subrange(i, bytes.len() as int);
    assert(rest[0] == 10);
    assert(valid_utf8(rest));
    assert(valid_utf8(pop_first_scalar(rest)));
    if i + 1 == bytes.len() {
        is_char_boundary_start_end_of_seq(bytes);
    } else {
        let tail = pop_first_scalar(rest);
        assert(tail[0] == bytes[i + 1]);
        assert(valid_first_scalar(tail));
        is_char_boundary_iff_not_is_continuation_byte(bytes, i + 1);
    }
}

/// Each line of a text is a run of its characters.
pub proof fn lemma_line_is_text(source: Seq<char>, line: nat)
    requires
        byte_len(source) <= usize::MAX,
        1 <= line <= starts_of(source).len(),
    ensures
        ({
            let x = extent_of(starts_of(source), line, source);
            byte_slice(source, x.start as int, x.end as int) is Some && x.start <= x.end
        }),
{
    broadcast use encode_utf8_valid_utf8;

    let bytes = encode_utf8(source);
    let starts = starts_of(source);
    lemma_line_starts(bytes, bytes.len());
    assert(valid_utf8(bytes));
    is_char_boundary_start_end_of_seq(bytes);
    let x = extent_of(starts, line, source);
    if line > 1 {
        lemma_line_boundary(bytes, starts[line - 1] - 1);
    }
    if line < starts.len() {
        assert(starts[line - 1] < starts[line as int]);
        lemma_line_boundary(bytes, starts[line as int] - 1);
    }
}

} // verus!
