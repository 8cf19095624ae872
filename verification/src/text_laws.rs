//! What cutting a text up keeps of it: lines, the white space around a text, and the head and the
//! words that are looked for.
use vstd::prelude::*;

use crate::scan::{
    after_prefix, all_digits, digits_value, first_solid, is_digit, is_space, last_solid, line_end,
    line_text, lines_from, trimmed, trimmed_end, trimmed_start, unsigned_part, word_of,
};
use crate::text::{escaped, escaped_text, quoted};

verus! {

/// A text on one line.
pub open spec fn one_row(s: Seq<char>) -> bool {
    forall|i: int| 0 <= i < s.len() ==> #[trigger] s[i] != '\n'
}

/// A row without the carriage return that it may end with.
pub open spec fn without_return(s: Seq<char>) -> Seq<char> {
    if s.len() > 0 && s.last() == '\r' {
        s.drop_last()
    } else {
        s
    }
}

/// A text of white space alone.
pub open spec fn blank(s: Seq<char>) -> bool {
    forall|i: int| 0 <= i < s.len() ==> is_space(#[trigger] s[i])
}

proof fn lemma_end(s: Seq<char>, i: nat, e: nat)
    requires
        i <= e <= s.len(),
        forall|k: int| i <= k < e ==> #[trigger] s[k] != '\n',
        e < s.len() ==> s[e as int] == '\n',
    ensures
        line_end(s, i) == e,
    decreases e - i,
{
    if i < e {
        lemma_end(s, i + 1, e);
    }
}

proof fn lemma_end_bounds(s: Seq<char>, i: nat)
    requires
        i <= s.len(),
    ensures
        i <= line_end(s, i) <= s.len(),
        line_end(s, i) < s.len() ==> s[line_end(s, i) as int] == '\n',
        forall|k: int| i <= k < line_end(s, i) ==> #[trigger] s[k] != '\n',
    decreases s.len() - i,
{
    if i < s.len() && s[i as int] != '\n' {
        lemma_end_bounds(s, i + 1);
    }
}

/// What stands before a place does not change the lines from there on.
proof fn lemma_lines_shift(p: Seq<char>, b: Seq<char>, i: nat)
    requires
        i <= b.len(),
    ensures
        lines_from(p + b, p.len() + i) == lines_from(b, i),
    decreases b.len() - i,
{
    let x = p + b;
    if i < b.len() {
        let e = line_end(b, i);
        lemma_end_bounds(b, i);
        assert forall|k: int| p.len() + i <= k < p.len() + e implies #[trigger] x[k] != '\n' by {
            assert(x[k] == b[k - p.len()]);
        }
        lemma_end(x, p.len() + i, p.len() + e);
        assert(line_text(x, p.len() + i, p.len() + e) =~= line_text(b, i, e));
        if e < b.len() {
            lemma_lines_shift(p, b, e + 1);
            assert(p.len() + (e + 1) == p.len() + e + 1);
        }
        assert(lines_from(x, p.len() + i) =~= lines_from(b, i));
    } else {
        assert(lines_from(x, p.len() + i) =~= lines_from(b, i));
    }
}

/// The text before the first line feed is the first line, without the carriage return that it may
/// end with; the lines of what follows the feed are the other lines.
pub proof fn law_first_line_is_cut(row: Seq<char>, rest: Seq<char>)
    requires
        one_row(row),
    ensures
        lines_from(row + seq!['\n'] + rest, 0) == seq![without_return(row)] + lines_from(rest, 0),
{
    let p = row + seq!['\n'];
    let x = p + rest;
    assert forall|k: int| 0 <= k < row.len() implies #[trigger] x[k] != '\n' by {
        assert(x[k] == row[k]);
    }
    assert(x[row.len() as int] == '\n');
    lemma_end(x, 0, row.len());
    lemma_lines_shift(p, rest, 0);
    assert(line_text(x, 0, row.len()) =~= without_return(row));
}

/// A text without a line feed is one line, as it stands; an empty text has no line.
pub proof fn law_text_without_feed_is_one_line(row: Seq<char>)
    requires
        one_row(row),
    ensures
        row.len() > 0 ==> lines_from(row, 0) == seq![row],
        row.len() == 0 ==> lines_from(row, 0) == Seq::<Seq<char>>::empty(),
{
    if row.len() > 0 {
        lemma_end(row, 0, row.len());
        assert(line_text(row, 0, row.len()) =~= row);
        assert(lines_from(row, 0) =~= seq![row]);
    }
}

pub proof fn lemma_lines_are_rows(s: Seq<char>, i: nat, k: int)
    requires
        i <= s.len(),
        0 <= k < lines_from(s, i).len(),
    ensures
        one_row(lines_from(s, i)[k]),
    decreases s.len() - i,
{
    let e = line_end(s, i);
    lemma_end_bounds(s, i);
    if k == 0 {
        let t = line_text(s, i, e);
        assert(lines_from(s, i)[0] == t);
        assert forall|j: int| 0 <= j < t.len() implies #[trigger] t[j] != '\n' by {
            assert(t[j] == s[i + j]);
        }
    } else {
        assert(lines_from(s, i)[k] == lines_from(s, e + 1)[k - 1]);
        lemma_lines_are_rows(s, e + 1, k - 1);
    }
}

/// No line holds a line feed.
pub proof fn law_lines_hold_no_feed(s: Seq<char>)
    ensures
        forall|k: int| 0 <= k < lines_from(s, 0).len() ==> one_row(#[trigger] lines_from(s, 0)[k]),
{
    assert forall|k: int| 0 <= k < lines_from(s, 0).len() implies one_row(
        #[trigger] lines_from(s, 0)[k],
    ) by {
        lemma_lines_are_rows(s, 0, k);
    }
}

pub proof fn lemma_first_solid(s: Seq<char>, i: nat)
    requires
        i <= s.len(),
    ensures
        i <= first_solid(s, i) <= s.len(),
        forall|k: int| i <= k < first_solid(s, i) ==> is_space(#[trigger] s[k]),
        first_solid(s, i) < s.len() ==> !is_space(s[first_solid(s, i) as int]),
    decreases s.len() - i,
{
    if i < s.len() && is_space(s[i as int]) {
        lemma_first_solid(s, i + 1);
    }
}

proof fn lemma_last_solid(s: Seq<char>, n: nat)
    requires
        n <= s.len(),
    ensures
        last_solid(s, n) <= n,
        forall|k: int| last_solid(s, n) <= k < n ==> is_space(#[trigger] s[k]),
        last_solid(s, n) > 0 ==> !is_space(s[last_solid(s, n) - 1]),
    decreases n,
{
    if n > 0 && is_space(s[n - 1]) {
        lemma_last_solid(s, (n - 1) as nat);
    }
}

/// A text is the white space at its head, followed by its trimmed start, which starts with no
/// white space; and its trimmed end, which ends with none, followed by white space.
pub proof fn law_trimming_cuts_white_space_alone(s: Seq<char>)
    ensures
        exists|w: Seq<char>| #[trigger] blank(w) && s == w + trimmed_start(s),
        trimmed_start(s).len() > 0 ==> !is_space(trimmed_start(s).first()),
        exists|w: Seq<char>| #[trigger] blank(w) && s == trimmed_end(s) + w,
        trimmed_end(s).len() > 0 ==> !is_space(trimmed_end(s).last()),
{
    lemma_first_solid(s, 0);
    lemma_last_solid(s, s.len());
    let a = first_solid(s, 0) as int;
    let b = last_solid(s, s.len()) as int;
    let w = s.take(a);
    assert(blank(w));
    assert(s =~= w + trimmed_start(s));
    let v = s.skip(b);
    assert(blank(v));
    assert(s =~= trimmed_end(s) + v);
}

/// A trimmed text stands between two runs of white space, and has none at either end. A blank text
/// is trimmed to nothing.
pub proof fn law_trimmed_text_is_solid_at_both_ends(s: Seq<char>)
    ensures
        exists|v: Seq<char>, w: Seq<char>|
            #[trigger] blank(v) && #[trigger] blank(w) && s == v + trimmed(s) + w,
        trimmed(s).len() > 0 ==> !is_space(trimmed(s).first()) && !is_space(trimmed(s).last()),
        trimmed(s).len() == 0 <==> blank(s),
{
    law_trimming_cuts_white_space_alone(s);
    let t = trimmed_start(s);
    law_trimming_cuts_white_space_alone(t);
    let v = choose|v: Seq<char>| #[trigger] blank(v) && s == v + t;
    let w = choose|w: Seq<char>| #[trigger] blank(w) && t == trimmed_end(t) + w;
    assert(blank(v) && blank(w));
    assert(s =~= v + trimmed(s) + w);
    if trimmed(s).len() > 0 {
        assert(trimmed(s).first() == t.first());
        assert(s[v.len() as int] == t.first());
    } else {
        assert(s =~= v + w);
        assert forall|i: int| 0 <= i < s.len() implies is_space(#[trigger] s[i]) by {
            if i < v.len() {
                assert(s[i] == v[i]);
            } else {
                assert(s[i] == w[i - v.len()]);
            }
        }
    }
}

/// White space is a tab, a line feed, a carriage return, a blank and a few others; no printing
/// ASCII character is.
pub proof fn law_white_space()
    ensures
        is_space(' '),
        is_space('\t'),
        is_space('\n'),
        is_space('\r'),
        forall|c: char| '!' <= c <= '~' ==> !#[trigger] is_space(c),
{
}

/// What follows a head is found exactly where the text starts with that head.
pub proof fn law_head_is_cut(s: Seq<char>, head: Seq<char>)
    ensures
        after_prefix(s, head) matches Some(rest) ==> s == head + rest,
        (exists|rest: Seq<char>| s == #[trigger] (head + rest)) ==> after_prefix(s, head) is Some,
{
    if after_prefix(s, head) is Some {
        assert(s =~= head + s.skip(head.len() as int));
    }
    if exists|rest: Seq<char>| s == #[trigger] (head + rest) {
        let rest = choose|rest: Seq<char>| s == #[trigger] (head + rest);
        assert(head.is_prefix_of(head + rest));
    }
}

proof fn lemma_same_value(s: Seq<char>, t: Seq<char>, n: nat)
    requires
        n <= s.len(),
        n <= t.len(),
        forall|i: int| 0 <= i < n ==> s[i] == t[i],
    ensures
        digits_value(s, n) == digits_value(t, n),
    decreases n,
{
    if n > 0 {
        lemma_same_value(s, t, (n - 1) as nat);
    }
}

/// One digit is a number from nothing to nine, as it is counted up from `0`; a digit behind a number
/// makes it ten times as large and adds its own value. No other text is a number, but for one plus
/// sign in front.
pub proof fn law_digits_count_in_tens(s: Seq<char>, c: char, n: usize)
    ensures
        word_of(seq![c]) == (if '0' <= c <= '9' {
            Some((c as u32 - '0' as u32) as usize)
        } else {
            None::<usize>
        }),
        word_of(s) == Some(n) && '0' <= c <= '9' && n * 10 + (c as u32 - '0' as u32) <= usize::MAX
            ==> word_of(s.push(c)) == Some((n * 10 + (c as u32 - '0' as u32)) as usize),
        s.len() > 0 && !('0' <= c <= '9') ==> word_of(s.push(c)) is None,
        word_of(s) is Some && '0' <= c <= '9' && word_of(s)->Some_0 * 10 + (c as u32 - '0' as u32)
            > usize::MAX ==> word_of(s.push(c)) is None,
        word_of(Seq::empty()) is None,
        s.len() > 0 && s[0] != '+' ==> word_of(seq!['+'] + s) == word_of(s),
{
    let one = seq![c];
    reveal_with_fuel(digits_value, 2);
    if '0' <= c <= '9' {
        assert(unsigned_part(one) == one);
        assert(all_digits(one));
        assert(digits_value(one, 1) == (c as u32 - '0' as u32) as nat);
    } else if c == '+' {
        assert(unsigned_part(one).len() == 0);
    } else {
        assert(unsigned_part(one) == one);
        assert(!is_digit(one[0]));
    }
    let t = s.push(c);
    if s.len() > 0 {
        let d = unsigned_part(s);
        let e = unsigned_part(t);
        assert(e =~= d.push(c));
        assert(e[d.len() as int] == c);
        lemma_same_value(d, e, d.len());
        assert(digits_value(e, e.len()) == digits_value(d, d.len()) * 10 + (c as u32
            - '0' as u32) as nat);
        if word_of(s) is Some && '0' <= c <= '9' {
            assert forall|i: int| 0 <= i < e.len() implies is_digit(#[trigger] e[i]) by {
                if i < d.len() {
                    assert(e[i] == d[i]);
                }
            }
        }
    }
    assert(unsigned_part(Seq::<char>::empty()) =~= Seq::<char>::empty());
    assert((seq!['+'] + s).skip(1) =~= s);
}

proof fn lemma_escaped(s: Seq<char>, n: nat)
    requires
        n <= s.len(),
    ensures
        escaped_text(s, n) == s.take(n as int).map_values(|c: char| escaped(c)).flatten(),
    decreases n,
{
    let f = |c: char| escaped(c);
    if n == 0 {
        assert(s.take(0).map_values(f) =~= Seq::<Seq<char>>::empty());
        assert(Seq::<Seq<char>>::empty().flatten() =~= Seq::<char>::empty());
    } else {
        lemma_escaped(s, (n - 1) as nat);
        let shorter = s.take(n - 1).map_values(f);
        let last = f(s[n - 1]);
        assert(s.take(n as int).map_values(f) =~= shorter.push(last));
        shorter.lemma_flatten_push(last);
    }
}

/// A quoted text is every character of the text, each once and in order, between double quotes.
pub proof fn law_quoted_texts_hold_every_character(s: Seq<char>)
    ensures
        quoted(s) == seq!['"'] + s.map_values(|c: char| escaped(c)).flatten() + seq!['"'],
{
    lemma_escaped(s, s.len());
    assert(s.take(s.len() as int) =~= s);
}

/// A printing ASCII character stands for itself between quotes, but for a quote and a backslash, which
/// a backslash stands before; the ends of lines, tabs and nul are a backslash and a letter.
pub proof fn law_quoted_characters(c: char)
    ensures
        ' ' <= c <= '~' && c != '"' && c != '\\' ==> escaped(c) == seq![c],
        escaped('"') == seq!['\\', '"'],
        escaped('\\') == seq!['\\', '\\'],
        escaped('\n') == seq!['\\', 'n'],
        escaped('\r') == seq!['\\', 'r'],
        escaped('\t') == seq!['\\', 't'],
        escaped('\0') == seq!['\\', '0'],
        (c as u32) < 32 || c as u32 == 127 ==> escaped(c).first() == '\\',
{
}

} // verus!
