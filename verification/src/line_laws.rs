//! What the map of a text's lines says of the text.
use vstd::prelude::*;
use vstd::utf8::*;

use crate::lines::{extent_of, line_index, line_starts, position_of, starts_of};
use crate::text::{byte_len, int_text, nat_text};

verus! {

proof fn lemma_starts(bytes: Seq<u8>, n: nat)
    requires
        n <= bytes.len() <= usize::MAX,
    ensures
        line_starts(bytes, n).len() >= 1,
        line_starts(bytes, n)[0] == 0,
        forall|k: int| 0 <= k < line_starts(bytes, n).len() ==> #[trigger] line_starts(bytes, n)[k] <= n,
        forall|j: int, k: int|
            0 <= j < k < line_starts(bytes, n).len() ==> line_starts(bytes, n)[j] < line_starts(
                bytes,
                n,
            )[k],
        forall|o: usize|
            #[trigger] line_starts(bytes, n).contains(o) <==> o == 0 || (o <= n && bytes[o - 1] == 10),
    decreases n,
{
    if n == 0 {
        let s = line_starts(bytes, 0);
        assert(s =~= seq![0usize]);
        assert(s[0] == 0);
        assert forall|o: usize| #[trigger] s.contains(o) implies o == 0 by {}
    } else {
        lemma_starts(bytes, (n - 1) as nat);
        let front = line_starts(bytes, (n - 1) as nat);
        let all = line_starts(bytes, n);
        assert forall|o: usize| #[trigger] all.contains(o) <==> o == 0 || (o <= n && bytes[o - 1]
            == 10) by {
            assert(front.contains(o) <==> o == 0 || (o <= n - 1 && bytes[o - 1] == 10));
            if bytes[n - 1] == 10 {
                assert(all[front.len() as int] == n);
                if all.contains(o) {
                    let k = all.index_of(o);
                    if k < front.len() {
                        assert(front[k] == o);
                    }
                }
                if front.contains(o) {
                    let k = front.index_of(o);
                    assert(all[k] == o);
                }
            }
        }
    }
}

/// A line starts at the start of the text and right behind every line feed, and nowhere else; the
/// starts are in order.
pub proof fn law_lines_start_behind_line_feeds(source: Seq<char>, offset: usize)
    requires
        byte_len(source) <= usize::MAX,
    ensures
        starts_of(source).contains(offset) <==> offset == 0 || (offset <= byte_len(source)
            && encode_utf8(source)[offset - 1] == 10),
        forall|j: int, k: int|
            0 <= j < k < starts_of(source).len() ==> starts_of(source)[j] < starts_of(source)[k],
{
    lemma_starts(encode_utf8(source), byte_len(source));
}

proof fn lemma_index(starts: Seq<usize>, offset: usize, n: nat)
    requires
        1 <= n <= starts.len(),
        starts[0] == 0,
    ensures
        line_index(starts, offset, n) < n,
        starts[line_index(starts, offset, n) as int] <= offset,
        forall|k: int| line_index(starts, offset, n) < k < n ==> #[trigger] starts[k] > offset,
    decreases n,
{
    if n > 1 && starts[n - 1] > offset {
        lemma_index(starts, offset, (n - 1) as nat);
    }
}

/// The line of an offset is the last that starts at it or before it, counted from one; the column is
/// the distance from that start, counted from one.
pub proof fn law_positions_count_from_one(source: Seq<char>, offset: usize)
    requires
        byte_len(source) < usize::MAX,
        offset <= byte_len(source),
    ensures
        ({
            let starts = starts_of(source);
            let (line, col) = position_of(starts, offset);
            &&& 1 <= line <= starts.len()
            &&& starts[line - 1] <= offset
            &&& line < starts.len() ==> offset < starts[line as int]
            &&& col == offset - starts[line - 1] + 1
        }),
{
    lemma_starts(encode_utf8(source), byte_len(source));
    let starts = starts_of(source);
    lemma_index(starts, offset, starts.len());
    let k = line_index(starts, offset, starts.len());
    if k + 1 < starts.len() {
        assert(starts[k as int + 1] > offset);
    }
}

/// The extent of the line of an offset reaches from the start of the line to the line feed that ends
/// it, or to the end of the text; no line feed lies in it, and the offset lies in it or at its end.
pub proof fn law_shown_lines_are_whole(source: Seq<char>, offset: usize, at: int)
    requires
        byte_len(source) < usize::MAX,
        offset <= byte_len(source),
    ensures
        ({
            let bytes = encode_utf8(source);
            let line = extent_of(starts_of(source), position_of(starts_of(source), offset).0, source);
            &&& line.start <= offset <= line.end <= byte_len(source)
            &&& line.start == 0 || bytes[line.start - 1] == 10
            &&& line.end == byte_len(source) || bytes[line.end as int] == 10
            &&& line.start <= at < line.end ==> bytes[at] != 10
        }),
{
    let bytes = encode_utf8(source);
    let starts = starts_of(source);
    lemma_starts(bytes, byte_len(source));
    law_positions_count_from_one(source, offset);
    let (line, _) = position_of(starts, offset);
    let here = starts[line - 1];
    assert(starts.contains(here));
    let end = if line < starts.len() {
        (starts[line as int] - 1) as usize
    } else {
        byte_len(source) as usize
    };
    if line < starts.len() {
        assert(starts.contains(starts[line as int]));
        assert(starts[line - 1] < starts[line as int]);
    }
    if here <= at < end && bytes[at] == 10 {
        let o = (at + 1) as usize;
        assert(starts.contains(o));
        let k = starts.index_of(o);
        assert(starts[k] == o);
        if k <= line - 1 {
            if k < line - 1 {
                assert(starts[k] < starts[line - 1]);
            }
            assert(false);
        } else if line < starts.len() {
            if k > line {
                assert(starts[line as int] < starts[k]);
            }
            assert(false);
        } else {
            assert(false);
        }
    }
}

/// A number is written in decimal, its last digit last; a negative one with a minus sign in front.
pub proof fn law_numbers_are_decimal(n: nat, d: nat, m: int)
    requires
        d < 10,
    ensures
        n > 0 ==> nat_text(n * 10 + d) == nat_text(n) + nat_text(d),
        nat_text(d).len() == 1,
        nat_text(d)[0] as int == '0' as int + d,
        m < 0 ==> int_text(m) == "-"@ + nat_text((-m) as nat),
        m >= 0 ==> int_text(m) == nat_text(m as nat),
{
    reveal_strlit("0");
    reveal_strlit("1");
    reveal_strlit("2");
    reveal_strlit("3");
    reveal_strlit("4");
    reveal_strlit("5");
    reveal_strlit("6");
    reveal_strlit("7");
    reveal_strlit("8");
    reveal_strlit("9");
    if n > 0 {
        assert((n * 10 + d) / 10 == n);
        assert((n * 10 + d) % 10 == d);
    }
}

} // verus!
