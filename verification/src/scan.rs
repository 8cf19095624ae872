//! Looking for parts of a text: white space around it, prefixes, and decimal numbers.
use vstd::prelude::*;

use crate::text::{chars_of, digit_text, nat_text, text_of};

verus! {

/// The characters with the Unicode property `White_Space`.
pub open spec fn is_space(c: char) -> bool {
    let n = c as u32;
    9 <= n <= 13 || n == 32 || n == 0x85 || n == 0xa0 || n == 0x1680 || 0x2000 <= n <= 0x200a || n
        == 0x2028 || n == 0x2029 || n == 0x202f || n == 0x205f || n == 0x3000
}

pub fn space(c: char) -> (r: bool)
    ensures
        r == is_space(c),
{
    let n: u32 = c as u32;
    (9 <= n && n <= 13) || n == 32 || n == 0x85 || n == 0xa0 || n == 0x1680 || (0x2000 <= n && n
        <= 0x200a) || n == 0x2028 || n == 0x2029 || n == 0x202f || n == 0x205f || n == 0x3000
}

/// The first character at `i` or later that is not white space.
pub open spec fn first_solid(s: Seq<char>, i: nat) -> nat
    decreases s.len() - i,
{
    if i >= s.len() {
        s.len()
    } else if is_space(s[i as int]) {
        first_solid(s, i + 1)
    } else {
        i
    }
}

/// The end of the last character among the first `n` that is not white space.
pub open spec fn last_solid(s: Seq<char>, n: nat) -> nat
    decreases n,
{
    if n == 0 || n > s.len() {
        0
    } else if is_space(s[n - 1]) {
        last_solid(s, (n - 1) as nat)
    } else {
        n
    }
}

/// A text without the white space it starts with.
pub open spec fn trimmed_start(s: Seq<char>) -> Seq<char> {
    s.skip(first_solid(s, 0) as int)
}

/// A text without the white space it ends with.
pub open spec fn trimmed_end(s: Seq<char>) -> Seq<char> {
    s.take(last_solid(s, s.len()) as int)
}

/// A text without the white space around it.
pub open spec fn trimmed(s: Seq<char>) -> Seq<char> {
    trimmed_end(trimmed_start(s))
}

/// A run of characters as text.
pub fn run_of(chars: &Vec<char>, i: usize, j: usize) -> (r: String)
    requires
        i <= j <= chars@.len(),
    ensures
        r@ == chars@.subrange(i as int, j as int),
{
    text_of(vstd::slice::slice_subrange(chars.as_slice(), i, j))
}

pub fn trim_start(s: &str) -> (r: String)
    ensures
        r@ == trimmed_start(s@),
{
    let chars = chars_of(s);
    let n: usize = chars.len();
    let mut i: usize = 0;
    while i < n && space(chars[i])
        invariant
            chars@ == s@,
            n == chars@.len(),
            i <= n,
            first_solid(s@, 0) == first_solid(s@, i as nat),
        decreases n - i,
    {
        i = i + 1;
    }
    let r = run_of(&chars, i, n);
    assert(r@ =~= trimmed_start(s@));
    r
}

pub fn trim_end(s: &str) -> (r: String)
    ensures
        r@ == trimmed_end(s@),
{
    let chars = chars_of(s);
    let mut n: usize = chars.len();
    assert(n == s@.len());
    while n > 0 && space(chars[n - 1])
        invariant
            chars@ == s@,
            n <= chars@.len(),
            last_solid(s@, s@.len()) == last_solid(s@, n as nat),
        decreases n,
    {
        n = n - 1;
    }
    let r = run_of(&chars, 0, n);
    assert(r@ =~= trimmed_end(s@));
    r
}

pub fn trim(s: &str) -> (r: String)
    ensures
        r@ == trimmed(s@),
{
    trim_end(trim_start(s).as_str())
}

/// What follows a prefix.
pub open spec fn after_prefix(s: Seq<char>, prefix: Seq<char>) -> Option<Seq<char>> {
    if prefix.is_prefix_of(s) {
        Some(s.skip(prefix.len() as int))
    } else {
        None
    }
}

pub fn strip_prefix(s: &str, prefix: &str) -> (r: Option<String>)
    ensures
        match after_prefix(s@, prefix@) {
            Some(t) => r matches Some(x) && x@ == t,
            None => r is None,
        },
{
    let a = chars_of(s);
    let b = chars_of(prefix);
    let n: usize = b.len();
    if a.len() < n {
        return None;
    }
    let mut i: usize = 0;
    while i < n
        invariant
            a@ == s@,
            b@ == prefix@,
            n == b@.len(),
            n <= a@.len(),
            i <= n,
            forall|k: int| 0 <= k < i ==> a@[k] == b@[k],
        decreases n - i,
    {
        if a[i] != b[i] {
            assert(prefix@[i as int] != s@[i as int]);
            return None;
        }
        i = i + 1;
    }
    assert(prefix@ =~= s@.subrange(0, n as int));
    let r = run_of(&a, n, a.len());
    assert(r@ =~= s@.skip(n as int));
    Some(r)
}

pub fn starts_with(s: &str, prefix: &str) -> (r: bool)
    ensures
        r == prefix@.is_prefix_of(s@),
{
    strip_prefix(s, prefix).is_some()
}

/// Whether a text is empty.
pub fn is_blank(s: &str) -> (r: bool)
    ensures
        r == (s@.len() == 0),
{
    chars_of(s).len() == 0
}

// ------------------------------------------------------------------------------------------
// Lines
// ------------------------------------------------------------------------------------------

/// Where the line that starts at `i` ends: at its line feed, or at the end of the text.
pub open spec fn line_end(s: Seq<char>, i: nat) -> nat
    decreases s.len() - i,
{
    if i >= s.len() {
        s.len()
    } else if s[i as int] == '\n' {
        i
    } else {
        line_end(s, i + 1)
    }
}

/// A line from `i` to the line feed at `e`: a carriage return right before the feed belongs to the
/// line ending.
pub open spec fn line_text(s: Seq<char>, i: nat, e: nat) -> Seq<char> {
    if e < s.len() && i < e && s[e - 1] == '\r' {
        s.subrange(i as int, e - 1)
    } else {
        s.subrange(i as int, e as int)
    }
}

/// The lines of a text from `i` on. A text that ends with a line feed has no line after it.
pub open spec fn lines_from(s: Seq<char>, i: nat) -> Seq<Seq<char>>
    decreases s.len() - i,
    when i <= s.len()
    via lines_from_decreases
{
    if i >= s.len() {
        Seq::empty()
    } else {
        let e = line_end(s, i);
        seq![line_text(s, i, e)] + (if e >= s.len() {
            Seq::empty()
        } else {
            lines_from(s, (e + 1) as nat)
        })
    }
}

#[via_fn]
proof fn lines_from_decreases(s: Seq<char>, i: nat) {
    if i < s.len() {
        lemma_line_end(s, i);
    }
}

proof fn lemma_line_end(s: Seq<char>, i: nat)
    requires
        i <= s.len(),
    ensures
        i <= line_end(s, i) <= s.len(),
        line_end(s, i) < s.len() ==> s[line_end(s, i) as int] == '\n',
    decreases s.len() - i,
{
    if i < s.len() && s[i as int] != '\n' {
        lemma_line_end(s, i + 1);
    }
}

/// The lines of a text.
pub fn split_lines(value: &str) -> (r: Vec<String>)
    ensures
        r@.map_values(|s: String| s@) == lines_from(value@, 0),
{
    let chars = chars_of(value);
    let ghost s = value@;
    let n: usize = chars.len();
    let mut out: Vec<String> = Vec::new();
    let mut i: usize = 0;
    let ghost view = |x: String| x@;
    assert(out@.map_values(view) =~= Seq::empty());
    while i < n
        invariant
            s == value@,
            chars@ == s,
            n == s.len(),
            i <= n,
            view == (|x: String| x@),
            lines_from(s, 0) == out@.map_values(view) + lines_from(s, i as nat),
        decreases n - i,
    {
        let mut e: usize = i;
        while e < n && chars[e] != '\n'
            invariant
                chars@ == s,
                n == s.len(),
                i <= e <= n,
                line_end(s, i as nat) == line_end(s, e as nat),
            decreases n - e,
        {
            e = e + 1;
        }
        proof {
            lemma_line_end(s, i as nat);
        }
        let last = if e < n && i < e && chars[e - 1] == '\r' {
            e - 1
        } else {
            e
        };
        let text = text_of(vstd::slice::slice_subrange(chars.as_slice(), i, last));
        assert(text@ =~= line_text(s, i as nat, e as nat));
        let ghost before = out@;
        out.push(text);
        proof {
            assert(out@.map_values(view) =~= before.map_values(view).push(text@));
            let rest = if e >= n {
                Seq::<Seq<char>>::empty()
            } else {
                lines_from(s, (e + 1) as nat)
            };
            assert(lines_from(s, i as nat) == seq![text@] + rest);
            assert(before.map_values(view) + (seq![text@] + rest) =~= out@.map_values(view) + rest);
        }
        if e >= n {
            proof {
                assert(lines_from(s, n as nat) =~= Seq::<Seq<char>>::empty());
            }
            i = n;
        } else {
            i = e + 1;
        }
    }
    assert(lines_from(s, n as nat) =~= Seq::<Seq<char>>::empty());
    assert(out@.map_values(view) + Seq::<Seq<char>>::empty() =~= out@.map_values(view));
    out
}

// ------------------------------------------------------------------------------------------
// Decimal numbers
// ------------------------------------------------------------------------------------------

pub open spec fn is_digit(c: char) -> bool {
    '0' <= c <= '9'
}

/// The value of the digits among the first `n` characters.
pub open spec fn digits_value(s: Seq<char>, n: nat) -> nat
    decreases n,
{
    if n == 0 || n > s.len() {
        0
    } else {
        digits_value(s, (n - 1) as nat) * 10 + (s[n - 1] as u32 - '0' as u32) as nat
    }
}

pub open spec fn all_digits(s: Seq<char>) -> bool {
    s.len() > 0 && forall|i: int| 0 <= i < s.len() ==> is_digit(#[trigger] s[i])
}

/// The digits of a number, behind the sign it may have.
pub open spec fn unsigned_part(s: Seq<char>) -> Seq<char> {
    if s.len() > 0 && s[0] == '+' {
        s.skip(1)
    } else {
        s
    }
}

/// A number that a machine word holds.
pub open spec fn word_of(s: Seq<char>) -> Option<usize> {
    let d = unsigned_part(s);
    if all_digits(d) && digits_value(d, d.len()) <= usize::MAX {
        Some(digits_value(d, d.len()) as usize)
    } else {
        None
    }
}

proof fn lemma_digits_grow(s: Seq<char>, k: nat, n: nat)
    requires
        k <= n <= s.len(),
        forall|i: int| 0 <= i < s.len() ==> is_digit(#[trigger] s[i]),
    ensures
        digits_value(s, k) <= digits_value(s, n),
    decreases n,
{
    if k < n {
        lemma_digits_grow(s, k, (n - 1) as nat);
    }
}

pub fn parse_word(s: &str) -> (r: Option<usize>)
    ensures
        r == word_of(s@),
{
    let chars = chars_of(s);
    let n: usize = chars.len();
    let from: usize = if n > 0 && chars[0] == '+' {
        1
    } else {
        0
    };
    let ghost d = unsigned_part(s@);
    assert(d =~= s@.skip(from as int));
    if from == n {
        assert(d.len() == 0);
        return None;
    }
    let mut k: usize = from;
    while k < n
        invariant
            chars@ == s@,
            n == chars@.len(),
            from <= k <= n,
            d == s@.skip(from as int),
            d == unsigned_part(s@),
            forall|i: int| 0 <= i < k - from ==> is_digit(#[trigger] d[i]),
        decreases n - k,
    {
        assert(d[k - from] == s@[k as int]);
        if !('0' <= chars[k] && chars[k] <= '9') {
            assert(!is_digit(d[k - from]));
            return None;
        }
        k = k + 1;
    }
    let mut value: usize = 0;
    let mut i: usize = from;
    while i < n
        invariant
            chars@ == s@,
            n == chars@.len(),
            from <= i <= n,
            from < n,
            d == s@.skip(from as int),
            d == unsigned_part(s@),
            forall|j: int| 0 <= j < d.len() ==> is_digit(#[trigger] d[j]),
            value == digits_value(d, (i - from) as nat),
        decreases n - i,
    {
        assert(d[i - from] == s@[i as int]);
        assert(is_digit(d[i - from]));
        let digit: usize = (chars[i] as u32 - '0' as u32) as usize;
        proof {
            lemma_digits_grow(d, (i - from + 1) as nat, d.len());
        }
        match value.checked_mul(10) {
            None => {
                return None;
            },
            Some(tens) => match tens.checked_add(digit) {
                None => {
                    return None;
                },
                Some(next) => {
                    value = next;
                },
            },
        }
        i = i + 1;
    }
    Some(value)
}

proof fn lemma_digit_char(k: int)
    requires
        0 <= k < 10,
    ensures
        digit_text(k).len() == 1,
        is_digit(digit_text(k)[0]),
        digit_text(k)[0] as u32 - '0' as u32 == k,
{
    reveal_strlit("0");
    reveal_strlit("1");
    reveal_strlit("2");
    reveal_strlit("3");
    reveal_strlit("4");
    reveal_strlit("5");
    reveal_strlit("6");
    reveal_strlit("7");
    reveal_strlit("8");
    reveal_strlit("9");
}

proof fn lemma_same_digits(a: Seq<char>, b: Seq<char>, n: nat)
    requires
        n <= a.len(),
        n <= b.len(),
        forall|i: int| 0 <= i < n ==> a[i] == b[i],
    ensures
        digits_value(a, n) == digits_value(b, n),
    decreases n,
{
    if n > 0 {
        lemma_same_digits(a, b, (n - 1) as nat);
    }
}

pub proof fn lemma_nat_text(n: nat)
    ensures
        all_digits(nat_text(n)),
        digits_value(nat_text(n), nat_text(n).len()) == n,
    decreases n,
{
    if n < 10 {
        lemma_digit_char(n as int);
        reveal_with_fuel(digits_value, 2);
    } else {
        lemma_nat_text(n / 10);
        lemma_digit_char((n % 10) as int);
        let t = nat_text(n);
        let front = nat_text(n / 10);
        assert(t.len() == front.len() + 1);
        assert(t[t.len() - 1] == digit_text((n % 10) as int)[0]);
        assert forall|i: int| 0 <= i < t.len() implies is_digit(#[trigger] t[i]) by {
            if i < front.len() {
                assert(t[i] == front[i]);
            }
        }
        lemma_same_digits(t, front, front.len());
    }
}

/// A number reads back from its decimal notation.
pub proof fn law_decimal_reads_back(n: usize)
    ensures
        word_of(nat_text(n as nat)) == Some(n),
{
    lemma_nat_text(n as nat);
    assert(is_digit(nat_text(n as nat)[0]));
}

} // verus!
