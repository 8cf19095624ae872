//! What a rendered diagnostic shows.
use vstd::prelude::*;

use crate::diag::{
    caret, excerpt, line_text, note_text, notes_text, rendered, repeated, rows, Diagnostic,
};
use crate::lines::{extent_of, position_of};
use crate::scan::lines_from;
use crate::span::Span;
use crate::text::nat_text;
use crate::text_laws::{
    law_first_line_is_cut, law_text_without_feed_is_one_line, one_row, without_return,
};

verus! {

/// A line of a note on a row of its own: the padding, five blanks, the line, a line feed.
pub open spec fn note_row(pad: Seq<char>, line: Seq<char>) -> Seq<char> {
    pad + "     "@ + line + "\n"@
}

proof fn lemma_rows(pad: Seq<char>, lines: Seq<Seq<char>>, n: nat)
    requires
        n <= lines.len(),
    ensures
        rows(pad, lines, n) == lines.take(n as int).map_values(
            |line: Seq<char>| note_row(pad, line),
        ).flatten(),
    decreases n,
{
    let f = |line: Seq<char>| note_row(pad, line);
    if n == 0 {
        assert(lines.take(0).map_values(f) =~= Seq::<Seq<char>>::empty());
        assert(Seq::<Seq<char>>::empty().flatten() =~= Seq::<char>::empty());
    } else {
        lemma_rows(pad, lines, (n - 1) as nat);
        let shorter = lines.take(n - 1).map_values(f);
        let last = f(lines[n - 1]);
        assert(lines.take(n as int).map_values(f) =~= shorter.push(last));
        shorter.lemma_flatten_push(last);
    }
}

/// A note of several lines is its key on a row, and then every line of its value, each once, on a
/// row of its own and in order: there are as many rows as lines.
pub proof fn law_notes_show_every_line(pad: Seq<char>, key: Seq<char>, value: Seq<char>)
    requires
        value.contains('\n'),
    ensures
        note_text(pad, key, value) == (pad + " = "@ + key + ":\n"@) + lines_from(
            value,
            0,
        ).map_values(|line: Seq<char>| note_row(pad, line)).flatten(),
{
    let lines = lines_from(value, 0);
    lemma_rows(pad, lines, lines.len());
    assert(lines.take(lines.len() as int) =~= lines);
}

/// A line put before a note of several lines adds its own row before the others and changes none of
/// them.
pub proof fn law_another_line_is_another_row(
    pad: Seq<char>,
    key: Seq<char>,
    row: Seq<char>,
    value: Seq<char>,
)
    requires
        one_row(row),
        value.contains('\n'),
    ensures
        ({
            let head = pad + " = "@ + key + ":\n"@;
            note_text(pad, key, row + seq!['\n'] + value) == head + note_row(
                pad,
                without_return(row),
            ) + note_text(pad, key, value).skip(head.len() as int)
        }),
{
    let f = |line: Seq<char>| note_row(pad, line);
    let longer = row + seq!['\n'] + value;
    assert(longer[row.len() as int] == '\n');
    law_notes_show_every_line(pad, key, value);
    law_notes_show_every_line(pad, key, longer);
    law_first_line_is_cut(row, value);
    let shown = lines_from(value, 0).map_values(f).flatten();
    let all = lines_from(longer, 0).map_values(f);
    assert(all.first() == note_row(pad, without_return(row)));
    assert(all.drop_first() =~= lines_from(value, 0).map_values(f));
    assert(all.flatten() == all.first() + shown);
    let head = pad + " = "@ + key + ":\n"@;
    assert(note_text(pad, key, value).skip(head.len() as int) =~= shown);
    assert(head + (all.first() + shown) =~= head + all.first() + shown);
}

/// A note of one line stands behind its key.
pub proof fn law_short_notes_stand_behind_their_key(
    pad: Seq<char>,
    key: Seq<char>,
    value: Seq<char>,
)
    requires
        one_row(value),
    ensures
        note_text(pad, key, value) == pad + " = "@ + key + ": "@ + value + "\n"@,
{
    if value.contains('\n') {
        let i = choose|i: int| 0 <= i < value.len() && value[i] == '\n';
        assert(value[i] != '\n');
    }
}

proof fn lemma_notes(pad: Seq<char>, notes: Seq<(String, String)>, n: nat)
    requires
        n <= notes.len(),
    ensures
        notes_text(pad, notes, n) == notes.take(n as int).map_values(
            |note: (String, String)| note_text(pad, note.0@, note.1@),
        ).flatten(),
    decreases n,
{
    let f = |note: (String, String)| note_text(pad, note.0@, note.1@);
    if n == 0 {
        assert(notes.take(0).map_values(f) =~= Seq::<Seq<char>>::empty());
        assert(Seq::<Seq<char>>::empty().flatten() =~= Seq::<char>::empty());
    } else {
        lemma_notes(pad, notes, (n - 1) as nat);
        let shorter = notes.take(n - 1).map_values(f);
        let last = f(notes[n - 1]);
        assert(notes.take(n as int).map_values(f) =~= shorter.push(last));
        shorter.lemma_flatten_push(last);
    }
}

/// A diagnostic is its excerpt and then every note, each once and in order, each padded to the width
/// of the line number.
pub proof fn law_every_note_is_shown(
    d: Diagnostic,
    level: Seq<char>,
    path: Seq<char>,
    source: Seq<char>,
    starts: Seq<usize>,
)
    ensures
        rendered(d, level, path, source, starts) == excerpt(d, level, path, source, starts)
            + d.notes@.map_values(
            |note: (String, String)|
                note_text(
                    repeated(' ', nat_text(position_of(starts, d.span.start).0).len()),
                    note.0@,
                    note.1@,
                ),
        ).flatten(),
{
    let pad = repeated(' ', nat_text(position_of(starts, d.span.start).0).len());
    lemma_notes(pad, d.notes@, d.notes@.len());
    assert(d.notes@.take(d.notes@.len() as int) =~= d.notes@);
}

/// The carets mark the part of the span that lies on the line, all of it and nothing else; where no
/// part does, a single caret stands.
pub proof fn law_carets_mark_the_span(span: Span, line: Span, offset: int)
    requires
        span.start <= span.end,
        line.start <= span.start <= line.end,
    ensures
        ({
            let (start, width) = caret(span, line);
            &&& width >= 1
            &&& start == span.start - line.start
            &&& span.start <= offset < span.end && offset < line.end ==> start <= offset
                - line.start < start + width
            &&& start <= offset - line.start < start + width && width > 1 ==> span.start <= offset
                < span.end && offset < line.end
        }),
{
}

/// A character written `n` times: `n` characters, all the same.
pub proof fn law_repeated(c: char, n: nat, i: int)
    ensures
        repeated(c, n).len() == n,
        0 <= i < n ==> repeated(c, n)[i] == c,
{
}

proof fn lemma_next_row(row: Seq<char>, rest: Seq<char>)
    requires
        one_row(row),
        row.len() > 0 ==> row.last() != '\r',
    ensures
        lines_from(row + seq!['\n'] + rest, 0) == seq![row] + lines_from(rest, 0),
{
    law_first_line_is_cut(row, rest);
}

/// A row of printing characters: no line feed in it, no carriage return at its end.
pub open spec fn plain_row(s: Seq<char>) -> bool {
    one_row(s) && (s.len() > 0 ==> s.last() != '\r')
}

/// What an excerpt says of its diagnostic, row by row.
pub open spec fn excerpt_rows(
    d: Diagnostic,
    level: Seq<char>,
    path: Seq<char>,
    source: Seq<char>,
    starts: Seq<usize>,
) -> Seq<Seq<char>> {
    let (line, col) = position_of(starts, d.span.start);
    let (start, width) = caret(d.span, extent_of(starts, line, source));
    let number = nat_text(line);
    let pad = Seq::new(number.len(), |i: int| ' ');
    seq![
        level + ": "@ + d.title@,
        "  --> "@ + path + ":"@ + number + ":"@ + nat_text(col as nat),
        pad + " |"@,
        number + " | "@ + line_text(starts, d.span.start, source)->Some_0,
        pad + " | "@ + Seq::new(start, |i: int| ' ') + Seq::new(width, |i: int| '^') + " "@
            + d.label@,
    ]
}

/// An excerpt has five rows: the level and the title; the path, the line and the column; a blank row
/// of the margin; the number and the text of the source line; and the carets under the span, with
/// the label behind them.
pub proof fn law_excerpts_have_five_rows(
    d: Diagnostic,
    level: Seq<char>,
    path: Seq<char>,
    source: Seq<char>,
    starts: Seq<usize>,
)
    requires
        forall|i: int|
            0 <= i < 5 ==> plain_row(#[trigger] excerpt_rows(d, level, path, source, starts)[i]),
    ensures
        lines_from(excerpt(d, level, path, source, starts), 0) == excerpt_rows(
            d,
            level,
            path,
            source,
            starts,
        ),
{
    reveal_strlit("\n");
    reveal_strlit(" |\n");
    reveal_strlit(" |");
    assert("\n"@ =~= seq!['\n']);
    assert(" |\n"@ =~= " |"@ + seq!['\n']);
    let r = excerpt_rows(d, level, path, source, starts);
    let feed = seq!['\n'];
    let none = Seq::<char>::empty();
    let e = excerpt(d, level, path, source, starts);
    let (line, col) = position_of(starts, d.span.start);
    let (start, width) = caret(d.span, extent_of(starts, line, source));
    assert(Seq::new(nat_text(line).len(), |i: int| ' ') =~= repeated(' ', nat_text(line).len()));
    assert(Seq::new(start, |i: int| ' ') =~= repeated(' ', start));
    assert(Seq::new(width, |i: int| '^') =~= repeated('^', width));
    let t4 = r[4] + feed + none;
    let t3 = r[3] + feed + t4;
    let t2 = r[2] + feed + t3;
    let t1 = r[1] + feed + t2;
    let t0 = r[0] + feed + t1;
    assert(e =~= t0);
    assert(plain_row(r[0]) && plain_row(r[1]) && plain_row(r[2]) && plain_row(r[3]) && plain_row(
        r[4],
    ));
    lemma_next_row(r[4], none);
    lemma_next_row(r[3], t4);
    lemma_next_row(r[2], t3);
    lemma_next_row(r[1], t2);
    lemma_next_row(r[0], t1);
    law_text_without_feed_is_one_line(none);
    assert(lines_from(e, 0) =~= r);
}

} // verus!
