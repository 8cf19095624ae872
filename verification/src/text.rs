//! Text assembled from pieces, integers in decimal notation, and quoted text.
use vstd::prelude::*;
use vstd::string::*;
use vstd::utf8::*;

verus! {

/// `String::push` appends one character to the end.
pub assume_specification[ String::push ](s: &mut String, c: char)
    ensures
        final(s)@ == old(s)@.push(c),
;

pub fn owned(a: &str) -> (r: String)
    ensures
        r@ == a@,
{
    a.to_owned()
}

pub fn cat2(a: &str, b: &str) -> (r: String)
    ensures
        r@ == a@ + b@,
{
    let mut s = a.to_owned();
    s.append(b);
    s
}

pub fn cat3(a: &str, b: &str, c: &str) -> (r: String)
    ensures
        r@ == a@ + b@ + c@,
{
    let mut s = cat2(a, b);
    s.append(c);
    s
}

pub fn cat4(a: &str, b: &str, c: &str, d: &str) -> (r: String)
    ensures
        r@ == a@ + b@ + c@ + d@,
{
    let mut s = cat3(a, b, c);
    s.append(d);
    s
}

pub fn cat5(a: &str, b: &str, c: &str, d: &str, e: &str) -> (r: String)
    ensures
        r@ == a@ + b@ + c@ + d@ + e@,
{
    let mut s = cat4(a, b, c, d);
    s.append(e);
    s
}

pub fn cat6(a: &str, b: &str, c: &str, d: &str, e: &str, f: &str) -> (r: String)
    ensures
        r@ == a@ + b@ + c@ + d@ + e@ + f@,
{
    let mut s = cat5(a, b, c, d, e);
    s.append(f);
    s
}

pub fn cat7(a: &str, b: &str, c: &str, d: &str, e: &str, f: &str, g: &str) -> (r: String)
    ensures
        r@ == a@ + b@ + c@ + d@ + e@ + f@ + g@,
{
    let mut s = cat6(a, b, c, d, e, f);
    s.append(g);
    s
}

/// The decimal digit `d`.
pub open spec fn digit_text(d: int) -> Seq<char> {
    if d == 0 {
        "0"@
    } else if d == 1 {
        "1"@
    } else if d == 2 {
        "2"@
    } else if d == 3 {
        "3"@
    } else if d == 4 {
        "4"@
    } else if d == 5 {
        "5"@
    } else if d == 6 {
        "6"@
    } else if d == 7 {
        "7"@
    } else if d == 8 {
        "8"@
    } else {
        "9"@
    }
}

/// A natural number in decimal notation.
pub open spec fn nat_text(n: nat) -> Seq<char>
    decreases n,
{
    if n < 10 {
        digit_text(n as int)
    } else {
        nat_text(n / 10) + digit_text((n % 10) as int)
    }
}

/// An integer in decimal notation, with a leading minus where it is negative.
pub open spec fn int_text(n: int) -> Seq<char> {
    if n < 0 {
        "-"@ + nat_text((-n) as nat)
    } else {
        nat_text(n as nat)
    }
}

fn digit(d: u8) -> (r: &'static str)
    requires
        d < 10,
    ensures
        r@ == digit_text(d as int),
{
    match d {
        0 => "0",
        1 => "1",
        2 => "2",
        3 => "3",
        4 => "4",
        5 => "5",
        6 => "6",
        7 => "7",
        8 => "8",
        _ => "9",
    }
}

/// Decimal notation of an unsigned number.
pub fn unsigned_decimal(n: u128) -> (r: String)
    ensures
        r@ == nat_text(n as nat),
    decreases n,
{
    if n < 10 {
        digit(n as u8).to_owned()
    } else {
        let mut s = unsigned_decimal(n / 10);
        s.append(digit((n % 10) as u8));
        s
    }
}

/// Decimal notation of a machine-word number.
pub fn usize_decimal(n: usize) -> (r: String)
    ensures
        r@ == nat_text(n as nat),
{
    unsigned_decimal(n as u128)
}

/// Decimal notation of a signed number.
pub fn signed_decimal(n: i128) -> (r: String)
    ensures
        r@ == int_text(n as int),
{
    if n < 0 {
        let m: u128 = if n == i128::MIN {
            0x8000_0000_0000_0000_0000_0000_0000_0000u128
        } else {
            (-n) as u128
        };
        cat2("-", unsigned_decimal(m).as_str())
    } else {
        unsigned_decimal(n as u128)
    }
}

/// Whether two texts hold the same characters.
pub fn same_text(a: &str, b: &str) -> (r: bool)
    ensures
        r == (a@ == b@),
{
    let x = a.to_owned();
    let y = b.to_owned();
    x == y
}

/// The characters of a text, in order.
pub fn chars_of(s: &str) -> (r: Vec<char>)
    ensures
        r@ == s@,
{
    let mut out: Vec<char> = Vec::new();
    for c in it: s.chars()
        invariant
            out@ == it.seq().take(it.index() as int),
            it.seq() == s@,
    {
        out.push(c);
    }
    out
}

/// The text made of a run of characters.
pub fn text_of(chars: &[char]) -> (r: String)
    ensures
        r@ == chars@,
{
    let mut out = String::new();
    let n: usize = chars.len();
    let mut i: usize = 0;
    while i < n
        invariant
            n == chars@.len(),
            i <= n,
            out@ == chars@.take(i as int),
        decreases n - i,
    {
        out.push(chars[i]);
        assert(chars@.take(i + 1) =~= chars@.take(i as int).push(chars@[i as int]));
        i = i + 1;
    }
    assert(chars@.take(n as int) =~= chars@);
    out
}


/// The bytes from `start` up to `end` as text, where both fall between characters.
pub open spec fn byte_slice(s: Seq<char>, start: int, end: int) -> Option<Seq<char>> {
    let bytes = encode_utf8(s);
    if start <= end && is_char_boundary(bytes, start) && is_char_boundary(bytes, end) {
        Some(decode_utf8(bytes.subrange(start, end)))
    } else {
        None
    }
}

/// The number of bytes of a text.
pub open spec fn byte_len(s: Seq<char>) -> nat {
    encode_utf8(s).len()
}

/// A run of bytes of a text as text.
pub fn slice_bytes(s: &str, start: usize, end: usize) -> (r: Option<String>)
    ensures
        match byte_slice(s@, start as int, end as int) {
            Some(t) => r matches Some(x) && x@ == t,
            None => r is None,
        },
{
    broadcast use encode_utf8_valid_utf8;

    if start > end || !s.is_char_boundary(start) || !s.is_char_boundary(end) {
        return None;
    }
    let ghost bytes = s.spec_bytes();
    proof {
        assert(valid_utf8(bytes));
        valid_utf8_split(bytes, end as int);
        lemma_boundary_of_prefix(bytes, start as int, end as int);
        encode_utf8_decode_utf8(s@);
    }
    let front = s.split_at(end).0;
    assert(front.spec_bytes() =~= bytes.subrange(0, end as int));
    let middle = front.split_at(start).1;
    proof {
        assert(middle.spec_bytes() =~= bytes.subrange(start as int, end as int));
        encode_utf8_decode_utf8(middle@);
    }
    Some(owned(middle))
}

/// A character boundary of a text is one of every longer prefix of it.
proof fn lemma_boundary_of_prefix(bytes: Seq<u8>, start: int, end: int)
    requires
        valid_utf8(bytes),
        is_char_boundary(bytes, start),
        is_char_boundary(bytes, end),
        start <= end,
    ensures
        0 <= start,
        end <= bytes.len(),
        valid_utf8(bytes.subrange(0, end)),
        is_char_boundary(bytes.subrange(0, end), start),
    decreases bytes.len(),
{
    broadcast use is_char_boundary_iff_not_is_continuation_byte;

    valid_utf8_split(bytes, end);
    lemma_boundary_in_range(bytes, start);
    lemma_boundary_in_range(bytes, end);
    let prefix = bytes.subrange(0, end);
    is_char_boundary_start_end_of_seq(prefix);
    if start < end {
        assert(prefix[start] == bytes[start]);
        is_char_boundary_iff_not_is_continuation_byte(bytes, start);
        is_char_boundary_iff_not_is_continuation_byte(prefix, start);
    }
}

proof fn lemma_boundary_in_range(bytes: Seq<u8>, i: int)
    requires
        valid_utf8(bytes),
        is_char_boundary(bytes, i),
    ensures
        0 <= i <= bytes.len(),
    decreases bytes.len(),
{
    reveal_with_fuel(is_char_boundary, 2);
}


// ------------------------------------------------------------------------------------------
// Quoted text
// ------------------------------------------------------------------------------------------

/// How a character beyond ASCII is written between quotes.
pub uninterp spec fn debug_char(c: char) -> Seq<char>;

/// `char::escape_debug`: how a character is written where text is shown for inspection. That is a
/// function of the character, and is named rather than stated: which characters stand for
/// themselves is a table of std's.
#[verifier::external_body]
fn escape_debug(c: char) -> (r: String)
    ensures
        r@ == debug_char(c),
{
    c.escape_debug().to_string()
}

/// One digit of a number to base sixteen.
pub open spec fn hex_digit(n: nat) -> char {
    if n < 10 {
        ('0' as nat + n) as char
    } else {
        ('a' as nat + n - 10) as char
    }
}

/// A control character by its number, to base sixteen.
pub open spec fn control_escape(c: char) -> Seq<char> {
    let n = c as nat;
    if n < 16 {
        seq!['\\', 'u', '{', hex_digit(n), '}']
    } else {
        seq!['\\', 'u', '{', hex_digit(n / 16), hex_digit(n % 16), '}']
    }
}

/// One character of a quoted text: quotes, backslashes, line ends, tabs and nul by a letter, the
/// other control characters by their number, and every other ASCII character as it is.
pub open spec fn escaped(c: char) -> Seq<char> {
    if c == '"' || c == '\\' {
        seq!['\\', c]
    } else if c == '\n' {
        seq!['\\', 'n']
    } else if c == '\r' {
        seq!['\\', 'r']
    } else if c == '\t' {
        seq!['\\', 't']
    } else if c == '\0' {
        seq!['\\', '0']
    } else if (c as nat) < 32 || c as nat == 127 {
        control_escape(c)
    } else if (c as nat) < 127 {
        seq![c]
    } else {
        debug_char(c)
    }
}

/// The first `n` characters of a quoted text.
pub open spec fn escaped_text(s: Seq<char>, n: nat) -> Seq<char>
    decreases n,
{
    if n == 0 || n > s.len() {
        Seq::empty()
    } else {
        escaped_text(s, (n - 1) as nat) + escaped(s[n - 1])
    }
}

/// A text between double quotes.
pub open spec fn quoted(s: Seq<char>) -> Seq<char> {
    seq!['"'] + escaped_text(s, s.len()) + seq!['"']
}

fn hex(n: u32) -> (r: char)
    requires
        n < 16,
    ensures
        r == hex_digit(n as nat),
{
    if n < 10 {
        (48u8 + n as u8) as char
    } else {
        (97u8 + (n - 10) as u8) as char
    }
}

fn escape(c: char) -> (r: String)
    ensures
        r@ == escaped(c),
{
    let mut out = String::new();
    let n: u32 = c as u32;
    if c == '"' || c == '\\' {
        out.push('\\');
        out.push(c);
    } else if c == '\n' {
        out.push('\\');
        out.push('n');
    } else if c == '\r' {
        out.push('\\');
        out.push('r');
    } else if c == '\t' {
        out.push('\\');
        out.push('t');
    } else if c == '\0' {
        out.push('\\');
        out.push('0');
    } else if n < 32 || n == 127 {
        out.push('\\');
        out.push('u');
        out.push('{');
        if n >= 16 {
            out.push(hex(n / 16));
        }
        out.push(hex(n % 16));
        out.push('}');
    } else if n < 127 {
        out.push(c);
    } else {
        return escape_debug(c);
    }
    assert(out@ =~= escaped(c));
    out
}

pub fn quote(text: &str) -> (r: String)
    ensures
        r@ == quoted(text@),
{
    let chars = chars_of(text);
    let mut out = String::new();
    out.push('"');
    let n: usize = chars.len();
    let mut i: usize = 0;
    assert(out@ =~= seq!['"'] + escaped_text(text@, 0));
    while i < n
        invariant
            n == chars@.len(),
            chars@ == text@,
            i <= n,
            out@ == seq!['"'] + escaped_text(text@, i as nat),
        decreases n - i,
    {
        out.append(escape(chars[i]).as_str());
        assert(out@ =~= seq!['"'] + escaped_text(text@, (i + 1) as nat));
        i = i + 1;
    }
    out.push('"');
    assert(out@ =~= quoted(text@));
    out
}

} // verus!
