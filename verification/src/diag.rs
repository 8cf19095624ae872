//! Rendering of diagnostics: every user-facing error carries a source span and, for a verification
//! failure, the name of the obligation, its goal and its context.
use vstd::prelude::*;
use vstd::utf8::*;

use crate::lines::{
    extent_of, lemma_first_line, lemma_line_is_text, lemma_position, position_of, starts_of,
    LineMap,
};
use crate::scan::{lines_from, split_lines};
use crate::span::Span;
use crate::text::{
    byte_len, byte_slice, cat2, cat3, cat4, cat5, chars_of, nat_text, slice_bytes, usize_decimal,
};

verus! {

/// One user-facing error.
#[derive(Debug)]
pub struct Diagnostic {
    /// Short name to match on: an obligation name such as `div_round_up.overflow.a_add_b`, or an
    /// error code such as `type.mismatch`.
    pub name: String,
    /// One-line title.
    pub title: String,
    pub span: Span,
    /// What is printed under the caret.
    pub label: String,
    /// Footnotes, in order.
    pub notes: Vec<(String, String)>,
}

/// A character written `n` times.
pub open spec fn repeated(c: char, n: nat) -> Seq<char> {
    Seq::new(n, |i: int| c)
}

fn repeat_char(c: char, n: usize) -> (r: String)
    ensures
        r@ == repeated(c, n as nat),
{
    let mut out = String::new();
    let mut i: usize = 0;
    assert(out@ =~= repeated(c, 0));
    while i < n
        invariant
            i <= n,
            out@ == repeated(c, i as nat),
        decreases n - i,
    {
        out.push(c);
        assert(out@ =~= repeated(c, (i + 1) as nat));
        i = i + 1;
    }
    out
}

/// Each line of a note, on a row of its own.
pub open spec fn rows(pad: Seq<char>, lines: Seq<Seq<char>>, n: nat) -> Seq<char>
    decreases n,
{
    if n == 0 || n > lines.len() {
        Seq::empty()
    } else {
        rows(pad, lines, (n - 1) as nat) + (pad + "     "@ + lines[n - 1] + "\n"@)
    }
}

/// A note: on one row, or a heading and its lines.
pub open spec fn note_text(pad: Seq<char>, key: Seq<char>, value: Seq<char>) -> Seq<char> {
    if value.contains('\n') {
        pad + " = "@ + key + ":\n"@ + rows(pad, lines_from(value, 0), lines_from(value, 0).len())
    } else {
        pad + " = "@ + key + ": "@ + value + "\n"@
    }
}

pub open spec fn notes_text(pad: Seq<char>, notes: Seq<(String, String)>, n: nat) -> Seq<char>
    decreases n,
{
    if n == 0 || n > notes.len() {
        Seq::empty()
    } else {
        notes_text(pad, notes, (n - 1) as nat) + note_text(pad, notes[n - 1].0@, notes[n - 1].1@)
    }
}

/// The part of the span that lies on its line: where it starts in the line, and how wide it is, at
/// least one.
pub open spec fn caret(span: Span, line: Span) -> (nat, nat) {
    let start = if span.start > line.start {
        (span.start - line.start) as nat
    } else {
        0
    };
    let last = if span.end < line.end {
        span.end
    } else {
        line.end
    };
    let end = if last > line.start {
        (last - line.start) as nat
    } else {
        0
    };
    (start, if end > start + 1 {
        (end - start) as nat
    } else {
        1
    })
}

/// The line of an offset in a text, where the map of lines has it between two characters of the
/// text.
pub open spec fn line_text(starts: Seq<usize>, offset: usize, source: Seq<char>) -> Option<
    Seq<char>,
> {
    let extent = extent_of(starts, position_of(starts, offset).0, source);
    byte_slice(source, extent.start as int, extent.end as int)
}

/// The map has a first line, and the line of an offset can be cut out of the text.
pub open spec fn can_show(starts: Seq<usize>, offset: usize, source: Seq<char>) -> bool {
    starts.len() >= 1 && starts[0] == 0 && line_text(starts, offset, source) is Some
}

/// The map of a text's own lines can show every offset.
pub proof fn law_own_lines_can_be_shown(source: Seq<char>, offset: usize)
    requires
        byte_len(source) <= usize::MAX,
    ensures
        can_show(starts_of(source), offset, source),
{
    lemma_first_line(source);
    lemma_position(starts_of(source), offset);
    lemma_line_is_text(source, position_of(starts_of(source), offset).0);
}

/// The heading, the position, the source line and the caret line of a diagnostic.
pub open spec fn excerpt(
    d: Diagnostic,
    level: Seq<char>,
    path: Seq<char>,
    source: Seq<char>,
    starts: Seq<usize>,
) -> Seq<char> {
    let (line, col) = position_of(starts, d.span.start);
    let extent = extent_of(starts, line, source);
    let text = line_text(starts, d.span.start, source)->Some_0;
    let gutter = nat_text(line);
    let pad = repeated(' ', gutter.len());
    let (start, width) = caret(d.span, extent);
    (level + ": "@ + d.title@ + "\n"@) + ("  --> "@ + path + ":"@ + nat_text(line) + ":"@ + nat_text(
        col as nat,
    ) + "\n"@) + (pad + " |\n"@) + (gutter + " | "@ + text + "\n"@) + (pad + " | "@ + repeated(
        ' ',
        start,
    ) + repeated('^', width) + " "@ + d.label@ + "\n"@)
}

/// A diagnostic as it is shown.
pub open spec fn rendered(
    d: Diagnostic,
    level: Seq<char>,
    path: Seq<char>,
    source: Seq<char>,
    starts: Seq<usize>,
) -> Seq<char> {
    let line = position_of(starts, d.span.start).0;
    excerpt(d, level, path, source, starts) + notes_text(
        repeated(' ', nat_text(line).len()),
        d.notes@,
        d.notes@.len(),
    )
}

fn has_line_feed(value: &str) -> (r: bool)
    ensures
        r == value@.contains('\n'),
{
    let chars = chars_of(value);
    let n: usize = chars.len();
    let mut i: usize = 0;
    while i < n
        invariant
            chars@ == value@,
            n == chars@.len(),
            i <= n,
            forall|k: int| 0 <= k < i ==> chars@[k] != '\n',
        decreases n - i,
    {
        if chars[i] == '\n' {
            assert(value@[i as int] == '\n');
            return true;
        }
        i = i + 1;
    }
    false
}

fn render_note(pad: &str, key: &str, value: &str) -> (r: String)
    ensures
        r@ == note_text(pad@, key@, value@),
{
    if !has_line_feed(value) {
        return cat2(cat5(pad, " = ", key, ": ", value).as_str(), "\n");
    }
    let mut out = cat4(pad, " = ", key, ":\n");
    let ghost head = out@;
    let lines = split_lines(value);
    let ghost all = lines_from(value@, 0);
    let n: usize = lines.len();
    let mut i: usize = 0;
    assert(out@ =~= head + rows(pad@, all, 0));
    while i < n
        invariant
            n == lines@.len(),
            all == lines_from(value@, 0),
            lines@.map_values(|s: String| s@) == all,
            i <= n,
            out@ == head + rows(pad@, all, i as nat),
        decreases n - i,
    {
        assert(all[i as int] == lines@[i as int]@);
        let row = cat4(pad, "     ", lines[i].as_str(), "\n");
        out.append(row.as_str());
        assert(out@ =~= head + rows(pad@, all, (i + 1) as nat));
        i = i + 1;
    }
    out
}

impl Diagnostic {
    /// The diagnostic as an error.
    pub fn render(&self, path: &str, source: &str, lines: &LineMap) -> (r: String)
        requires
            can_show(lines@, self.span.start, source@),
        ensures
            r@ == rendered(*self, "error"@, path@, source@, lines@),
    {
        self.render_level("error", path, source, lines)
    }

    pub fn render_level(&self, level: &str, path: &str, source: &str, lines: &LineMap) -> (r: String)
        requires
            can_show(lines@, self.span.start, source@),
        ensures
            r@ == rendered(*self, level@, path@, source@, lines@),
    {
        let (line, col) = lines.line_col(self.span.start);
        proof {
            lemma_position(lines@, self.span.start);
        }
        let extent = lines.line_span(line, source);
        let text = match slice_bytes(source, extent.start, extent.end) {
            Some(text) => text,
            None => String::new(),
        };
        let gutter = usize_decimal(line);
        let width_of_gutter: usize = chars_of(gutter.as_str()).len();
        let pad = repeat_char(' ', width_of_gutter);
        let start: usize = if self.span.start > extent.start {
            self.span.start - extent.start
        } else {
            0
        };
        let last: usize = if self.span.end < extent.end {
            self.span.end
        } else {
            extent.end
        };
        let end: usize = if last > extent.start {
            last - extent.start
        } else {
            0
        };
        let width: usize = if end > start && end - start > 1 {
            end - start
        } else {
            1
        };
        assert((start as nat, width as nat) == caret(self.span, extent));
        let heading = cat4(level, ": ", self.title.as_str(), "\n");
        let position = cat2(
            cat5("  --> ", path, ":", gutter.as_str(), ":").as_str(),
            cat2(usize_decimal(col).as_str(), "\n").as_str(),
        );
        let blank = cat2(pad.as_str(), " |\n");
        let shown = cat4(gutter.as_str(), " | ", text.as_str(), "\n");
        let under = cat3(
            cat4(
                pad.as_str(),
                " | ",
                repeat_char(' ', start).as_str(),
                repeat_char('^', width).as_str(),
            ).as_str(),
            cat2(" ", self.label.as_str()).as_str(),
            "\n",
        );
        let mut out = cat5(
            heading.as_str(),
            position.as_str(),
            blank.as_str(),
            shown.as_str(),
            under.as_str(),
        );
        let ghost head = out@;
        assert(head =~= excerpt(*self, level@, path@, source@, lines@));
        let n: usize = self.notes.len();
        let mut i: usize = 0;
        assert(out@ =~= head + notes_text(pad@, self.notes@, 0));
        while i < n
            invariant
                n == self.notes@.len(),
                i <= n,
                out@ == head + notes_text(pad@, self.notes@, i as nat),
            decreases n - i,
        {
            let note = render_note(
                pad.as_str(),
                self.notes[i].0.as_str(),
                self.notes[i].1.as_str(),
            );
            out.append(note.as_str());
            assert(out@ =~= head + notes_text(pad@, self.notes@, (i + 1) as nat));
            i = i + 1;
        }
        out
    }
}

} // verus!
