//! The clauses that are checked while a program runs.
//!
//! A clause of the monitored fragment compares two sums of integers, or names a Boolean. A sum is
//! made of integer literals, names in scope and entry values (`old x`), joined by `+` and `-`;
//! words are set apart by white space. Where `x` is an option, `x.value` is its payload, or the
//! default of its payload type: `0` for integers, `false` for Booleans. Any other clause is
//! unmonitorable: it is reported as skipped, and never guessed.
use vstd::prelude::*;

use crate::ast::Ty;
use crate::bindings::{find, value_of, BindV, Binding};
use crate::heap::{snapshot, FieldsV, Heap, HeapV, SpecV, SpecVal};
use crate::repr::{group_views, opt_view, views};
use crate::text::{cat3, chars_of, owned, same_text, text_of};
use crate::value::{RtVal, ValV};

verus! {

broadcast use group_views;

// ------------------------------------------------------------------------------------------
// Words
// ------------------------------------------------------------------------------------------

pub open spec fn is_blank(c: char) -> bool {
    c == ' ' || c == '\n' || c == '\t' || c == '\r'
}

/// The words of the first `n` characters that have ended, and the one that has not.
pub open spec fn words_until(s: Seq<char>, n: nat) -> (Seq<Seq<char>>, Seq<char>)
    decreases n,
{
    if n == 0 || n > s.len() {
        (Seq::empty(), Seq::empty())
    } else {
        let (done, open) = words_until(s, (n - 1) as nat);
        if !is_blank(s[n - 1]) {
            (done, open.push(s[n - 1]))
        } else if open.len() == 0 {
            (done, open)
        } else {
            (done.push(open), Seq::empty())
        }
    }
}

/// The words of a text.
pub open spec fn words(s: Seq<char>) -> Seq<Seq<char>> {
    let (done, open) = words_until(s, s.len());
    if open.len() == 0 {
        done
    } else {
        done.push(open)
    }
}

fn split_words(text: &str) -> (r: Vec<String>)
    ensures
        views(r@) == words(text@),
{
    let chars = chars_of(text);
    let mut done: Vec<String> = Vec::new();
    let mut open = String::new();
    assert(open@ =~= Seq::<char>::empty());
    let mut empty = true;
    let n: usize = chars.len();
    let mut i: usize = 0;
    while i < n
        invariant
            n == chars@.len(),
            chars@ == text@,
            i <= n,
            words_until(text@, i as nat) == (views(done@), open@),
            empty == (open@.len() == 0),
        decreases n - i,
    {
        let c = chars[i];
        if c == ' ' || c == '\n' || c == '\t' || c == '\r' {
            if !empty {
                done.push(open);
                open = String::new();
                assert(open@ =~= Seq::<char>::empty());
                empty = true;
            }
        } else {
            open.push(c);
            empty = false;
        }
        i = i + 1;
    }
    if !empty {
        done.push(open);
    }
    done
}

/// A text on one line.
pub open spec fn flat(s: Seq<char>) -> Seq<char> {
    Seq::new(
        s.len(),
        |i: int|
            if s[i] == '\n' {
                ' '
            } else {
                s[i]
            },
    )
}

pub fn on_one_line(text: &str) -> (r: String)
    ensures
        r@ == flat(text@),
{
    let chars = chars_of(text);
    let mut out: Vec<char> = Vec::new();
    let n: usize = chars.len();
    let mut i: usize = 0;
    while i < n
        invariant
            n == chars@.len(),
            chars@ == text@,
            i <= n,
            out@ == flat(text@).take(i as int),
        decreases n - i,
    {
        let c = if chars[i] == '\n' {
            ' '
        } else {
            chars[i]
        };
        out.push(c);
        assert(flat(text@).take(i + 1) =~= flat(text@).take(i as int).push(flat(text@)[i as int]));
        i = i + 1;
    }
    assert(flat(text@).take(n as int) =~= flat(text@));
    text_of(out.as_slice())
}

// ------------------------------------------------------------------------------------------
// Literals
// ------------------------------------------------------------------------------------------

pub open spec fn digit_value(c: char) -> Option<int> {
    if '0' <= c && c <= '9' {
        Some(c as int - '0' as int)
    } else {
        None
    }
}

/// The number that the digits from `from` up to `n` write, where they are digits and the number
/// is not too large.
pub open spec fn digits_value(s: Seq<char>, from: nat, n: nat) -> Option<int>
    decreases n - from,
{
    if n <= from || n > s.len() {
        Some(0)
    } else {
        match (digits_value(s, from, (n - 1) as nat), digit_value(s[n - 1])) {
            (Some(v), Some(d)) => if v * 10 + d <= i128::MAX {
                Some(v * 10 + d)
            } else {
                None
            },
            _ => None,
        }
    }
}

/// The integer that a word writes.
pub open spec fn literal(s: Seq<char>) -> Option<int> {
    if s.len() == 0 {
        None
    } else if s[0] == '-' {
        if s.len() == 1 {
            None
        } else {
            match digits_value(s, 1, s.len()) {
                Some(v) => Some(-v),
                None => None,
            }
        }
    } else {
        digits_value(s, 0, s.len())
    }
}

proof fn lemma_digits_absent(s: Seq<char>, from: nat, k: nat, n: nat)
    requires
        from < k <= n <= s.len(),
        digits_value(s, from, k) is None,
    ensures
        digits_value(s, from, n) is None,
    decreases n,
{
    if k < n {
        lemma_digits_absent(s, from, k, (n - 1) as nat);
    }
}

fn parse_digits(chars: &Vec<char>, from: usize) -> (r: Option<i128>)
    requires
        from <= chars@.len(),
    ensures
        match digits_value(chars@, from as nat, chars@.len()) {
            Some(v) => r matches Some(x) && x == v && x >= 0,
            None => r is None,
        },
{
    let n: usize = chars.len();
    let mut acc: i128 = 0;
    let mut i: usize = from;
    while i < n
        invariant
            n == chars@.len(),
            from <= i <= n,
            acc >= 0,
            digits_value(chars@, from as nat, i as nat) == Some(acc as int),
        decreases n - i,
    {
        let c = chars[i];
        if !('0' <= c && c <= '9') {
            proof {
                lemma_digits_absent(chars@, from as nat, (i + 1) as nat, n as nat);
            }
            return None;
        }
        let d: i128 = c as i128 - '0' as i128;
        let next = match acc.checked_mul(10) {
            Some(m) => m.checked_add(d),
            None => None,
        };
        match next {
            Some(v) => {
                acc = v;
            },
            None => {
                proof {
                    lemma_digits_absent(chars@, from as nat, (i + 1) as nat, n as nat);
                }
                return None;
            },
        }
        i = i + 1;
    }
    Some(acc)
}

fn parse_literal(word: &str) -> (r: Option<i128>)
    ensures
        match literal(word@) {
            Some(v) => r matches Some(x) && x == v,
            None => r is None,
        },
{
    let chars = chars_of(word);
    if chars.len() == 0 {
        return None;
    }
    if chars[0] == '-' {
        if chars.len() == 1 {
            return None;
        }
        match parse_digits(&chars, 1) {
            Some(v) => Some(-v),
            None => None,
        }
    } else {
        parse_digits(&chars, 0)
    }
}

// ------------------------------------------------------------------------------------------
// Names in scope
// ------------------------------------------------------------------------------------------

/// What a clause may name: the values of a frame, the entry values that stand for them, the
/// object at hand and its fields, a result, and the entry snapshots.
pub ghost struct EnvV {
    pub heap: HeapV,
    pub vars: FieldsV,
    pub entry: FieldsV,
    pub self_ctx: Option<(usize, usize)>,
    pub result: Option<ValV>,
    pub olds: Seq<BindV<SpecV>>,
}

/// The entry values, or the current ones, by name.
pub open spec fn frame_value(vars: FieldsV, entry: FieldsV, name: Seq<char>) -> Option<ValV> {
    match value_of(entry, name) {
        Some(v) => Some(v),
        None => value_of(vars, name),
    }
}

pub open spec fn self_value(env: EnvV, name: Seq<char>) -> Option<SpecV> {
    match env.self_ctx {
        None => None,
        Some((class, fields)) => {
            let field = match env.heap.object(fields) {
                Some(f) => match value_of(f, name) {
                    Some(v) => snapshot(env.heap, v),
                    None => None,
                },
                None => None,
            };
            match field {
                Some(s) => Some(s),
                None => if name == "self"@ {
                    snapshot(env.heap, ValV::Obj { class, fields })
                } else {
                    None
                },
            }
        },
    }
}

impl EnvV {
    /// What a name stands for: the result, a field of the object at hand or that object, and
    /// last the frame.
    pub open spec fn lookup(self, name: Seq<char>) -> Option<SpecV> {
        let result = match self.result {
            Some(v) => if name == "result"@ {
                snapshot(self.heap, v)
            } else {
                None
            },
            None => None,
        };
        match result {
            Some(s) => Some(s),
            None => match self_value(self, name) {
                Some(s) => Some(s),
                None => match frame_value(self.vars, self.entry, name) {
                    Some(v) => snapshot(self.heap, v),
                    None => None,
                },
            },
        }
    }
}

/// What a clause may name.
pub struct Env<'a> {
    pub heap: &'a Heap,
    pub vars: &'a Vec<Binding<RtVal>>,
    pub entry: &'a Vec<Binding<RtVal>>,
    pub self_ctx: Option<(usize, usize)>,
    pub result: Option<&'a RtVal>,
    pub olds: &'a Vec<Binding<SpecVal>>,
}

impl<'a> Env<'a> {
    pub open spec fn view(&self) -> EnvV {
        EnvV {
            heap: self.heap@,
            vars: views(self.vars@),
            entry: views(self.entry@),
            self_ctx: self.self_ctx,
            result: match self.result {
                Some(v) => Some(v@),
                None => None,
            },
            olds: views(self.olds@),
        }
    }

    fn self_value(&self, name: &str) -> (r: Option<SpecVal>)
        ensures
            opt_view(r) == self_value(self@, name@),
    {
        match self.self_ctx {
            None => None,
            Some((class, fields)) => {
                match self.heap.object(fields) {
                    Some(f) => {
                        match find(f, name) {
                            Some(v) => {
                                match self.heap.spec_of(v) {
                                    Some(s) => {
                                        return Some(s);
                                    },
                                    None => {},
                                }
                            },
                            None => {},
                        }
                    },
                    None => {},
                }
                if same_text(name, "self") {
                    self.heap.spec_of(&RtVal::Obj { class, fields })
                } else {
                    None
                }
            },
        }
    }

    pub fn lookup(&self, name: &str) -> (r: Option<SpecVal>)
        ensures
            opt_view(r) == self@.lookup(name@),
    {
        match self.result {
            Some(v) => {
                if same_text(name, "result") {
                    match self.heap.spec_of(v) {
                        Some(s) => {
                            return Some(s);
                        },
                        None => {},
                    }
                }
            },
            None => {},
        }
        match self.self_value(name) {
            Some(s) => {
                return Some(s);
            },
            None => {},
        }
        match find(self.entry, name) {
            Some(v) => self.heap.spec_of(v),
            None => match find(self.vars, name) {
                Some(v) => self.heap.spec_of(v),
                None => None,
            },
        }
    }
}

// ------------------------------------------------------------------------------------------
// Evaluation
// ------------------------------------------------------------------------------------------

/// A value, or why there is none.
pub type Monitored<T> = Result<T, Seq<char>>;

/// The default of a payload type.
pub open spec fn default_of(ty: Ty) -> Option<SpecV> {
    match ty {
        Ty::Int(_) => Some(SpecV::Int(0)),
        Ty::Bool => Some(SpecV::Bool(false)),
        _ => None,
    }
}

/// The value of an option: its payload, or the default of its payload type.
pub open spec fn option_value(s: SpecV) -> Option<SpecV> {
    match s {
        SpecV::Opt { payload, value } => match (value, payload) {
            (Some(v), _) => Some(*v),
            (None, Some(ty)) => default_of(ty),
            (None, None) => None,
        },
        _ => None,
    }
}

/// The name of the option whose value a word asks for.
pub open spec fn option_of(word: Seq<char>) -> Option<Seq<char>> {
    if word.len() > 6 && word.skip(word.len() - 6) == ".value"@ {
        Some(word.take(word.len() - 6))
    } else {
        None
    }
}

impl EnvV {
    /// What a word stands for: what it names, or the value of the option that it names.
    pub open spec fn meaning(self, word: Seq<char>) -> Option<SpecV> {
        match (self.lookup(word), option_of(word)) {
            (Some(s), _) => Some(s),
            (None, Some(name)) => match self.lookup(name) {
                Some(s) => option_value(s),
                None => None,
            },
            (None, None) => None,
        }
    }

    /// What a word stood for on entry.
    pub open spec fn entry_meaning(self, word: Seq<char>) -> Option<SpecV> {
        match (value_of(self.olds, word), option_of(word)) {
            (Some(s), _) => Some(s),
            (None, Some(name)) => match value_of(self.olds, name) {
                Some(s) => option_value(s),
                None => None,
            },
            (None, None) => None,
        }
    }
}

/// The value of an option is its payload where it has one, and else the default of its payload
/// type.
pub proof fn law_option_value_has_a_default(payload: Ty, v: SpecV)
    ensures
        option_value(SpecV::Opt { payload: Some(payload), value: Some(Box::new(v)) }) == Some(v),
        payload is Int ==> option_value(SpecV::Opt { payload: Some(payload), value: None }) == Some(
            SpecV::Int(0),
        ),
        payload is Bool ==> option_value(SpecV::Opt { payload: Some(payload), value: None })
            == Some(SpecV::Bool(false)),
{
}

pub open spec fn integer(found: Option<SpecV>, name: Seq<char>) -> Monitored<int> {
    match found {
        Some(SpecV::Int(n)) => Ok(n as int),
        _ => Err("`"@ + name + "` is no integer here"@),
    }
}

/// The term at `i`, and where the next word stands.
pub open spec fn term(env: EnvV, w: Seq<Seq<char>>, i: nat) -> Monitored<(int, nat)> {
    if i >= w.len() {
        Err("clause ends where a term is due"@)
    } else if w[i as int] == "old"@ {
        if i + 1 >= w.len() {
            Err("clause ends where a term is due"@)
        } else {
            match integer(env.entry_meaning(w[i as int + 1]), w[i as int + 1]) {
                Ok(n) => Ok((n, i + 2)),
                Err(e) => Err(e),
            }
        }
    } else {
        match literal(w[i as int]) {
            Some(n) => Ok((n, i + 1)),
            None => match integer(env.meaning(w[i as int]), w[i as int]) {
                Ok(n) => Ok((n, i + 1)),
                Err(e) => Err(e),
            },
        }
    }
}

pub open spec fn fits(n: int) -> bool {
    i128::MIN <= n <= i128::MAX
}

/// The sum that goes on at `i` after `acc`, and where the next word stands.
pub open spec fn sum_from(env: EnvV, w: Seq<Seq<char>>, i: nat, acc: int) -> Monitored<(int, nat)>
    decreases w.len() - i,
{
    if i >= w.len() || (w[i as int] != "+"@ && w[i as int] != "-"@) {
        Ok((acc, i))
    } else {
        match term(env, w, i + 1) {
            Err(e) => Err(e),
            Ok((n, next)) => {
                let total = if w[i as int] == "+"@ {
                    acc + n
                } else {
                    acc - n
                };
                if !fits(total) {
                    Err("sum leaves the monitored range"@)
                } else if next <= i {
                    Err("clause ends where a term is due"@)
                } else {
                    sum_from(env, w, next, total)
                }
            },
        }
    }
}

pub open spec fn sum(env: EnvV, w: Seq<Seq<char>>, i: nat) -> Monitored<(int, nat)> {
    match term(env, w, i) {
        Err(e) => Err(e),
        Ok((n, next)) => sum_from(env, w, next, n),
    }
}

/// A comparison by its sign.
pub open spec fn compared(sign: Seq<char>, a: int, b: int) -> Option<bool> {
    if sign == "="@ || sign == "=="@ {
        Some(a == b)
    } else if sign == "≠"@ || sign == "!="@ {
        Some(a != b)
    } else if sign == "<"@ {
        Some(a < b)
    } else if sign == "≤"@ || sign == "<="@ {
        Some(a <= b)
    } else if sign == ">"@ {
        Some(a > b)
    } else if sign == "≥"@ || sign == ">="@ {
        Some(a >= b)
    } else {
        None
    }
}

/// Whether a clause holds.
#[verifier::opaque]
pub open spec fn clause_value(env: EnvV, text: Seq<char>) -> Monitored<bool> {
    let w = words(text);
    if w.len() == 1 {
        if w[0] == "true"@ {
            Ok(true)
        } else if w[0] == "false"@ {
            Ok(false)
        } else {
            match env.meaning(w[0]) {
                Some(SpecV::Bool(b)) => Ok(b),
                _ => Err("`"@ + w[0] + "` is no Boolean here"@),
            }
        }
    } else {
        match sum(env, w, 0) {
            Err(e) => Err(e),
            Ok((a, i)) => if i >= w.len() {
                Err("clause compares nothing"@)
            } else {
                match sum(env, w, i + 1) {
                    Err(e) => Err(e),
                    Ok((b, j)) => if j != w.len() {
                        Err("clause is outside the monitored fragment"@)
                    } else {
                        match compared(w[i as int], a, b) {
                            Some(v) => Ok(v),
                            None => Err("clause is outside the monitored fragment"@),
                        }
                    },
                }
            },
        }
    }
}

/// The value of an integer measure.
#[verifier::opaque]
pub open spec fn measure_value(env: EnvV, text: Seq<char>) -> Monitored<int> {
    let w = words(text);
    match sum(env, w, 0) {
        Err(e) => Err(e),
        Ok((n, i)) => if i != w.len() {
            Err("measure is outside the monitored fragment"@)
        } else {
            Ok(n)
        },
    }
}

/// Why a clause cannot be checked while the program runs.
#[derive(Debug)]
pub struct Unmonitorable(pub String);

pub open spec fn integers_agree(
    r: Result<(i128, usize), Unmonitorable>,
    s: Monitored<(int, nat)>,
) -> bool {
    match s {
        Ok((n, i)) => r matches Ok((x, k)) && x == n && k == i,
        Err(e) => r matches Err(u) && u.0@ == e,
    }
}

fn no_integer(name: &str) -> (r: Unmonitorable)
    ensures
        r.0@ == "`"@ + name@ + "` is no integer here"@,
{
    Unmonitorable(cat3("`", name, "` is no integer here"))
}

/// The value of an option.
fn value_of_option(s: SpecVal) -> (r: Option<SpecVal>)
    ensures
        opt_view(r) == option_value(s@),
{
    match s {
        SpecVal::Opt { payload, value } => match value {
            Some(v) => Some(*v),
            None => match payload {
                Some(Ty::Int(_)) => Some(SpecVal::Int(0)),
                Some(Ty::Bool) => Some(SpecVal::Bool(false)),
                _ => None,
            },
        },
        _ => None,
    }
}

/// The name of the option whose value a word asks for.
fn named_option(word: &str) -> (r: Option<String>)
    ensures
        match option_of(word@) {
            Some(name) => r matches Some(x) && x@ == name,
            None => r is None,
        },
{
    let chars = chars_of(word);
    let n: usize = chars.len();
    if n <= 6 {
        return None;
    }
    let (name, rest) = chars.as_slice().split_at(n - 6);
    assert(name@ =~= word@.take(n - 6));
    assert(rest@ =~= word@.skip(n - 6));
    if same_text(text_of(rest).as_str(), ".value") {
        Some(text_of(name))
    } else {
        None
    }
}

impl<'a> Env<'a> {
    fn meaning(&self, word: &str) -> (r: Option<SpecVal>)
        ensures
            opt_view(r) == self@.meaning(word@),
    {
        match self.lookup(word) {
            Some(s) => Some(s),
            None => match named_option(word) {
                Some(name) => match self.lookup(name.as_str()) {
                    Some(s) => value_of_option(s),
                    None => None,
                },
                None => None,
            },
        }
    }

    fn entry_meaning(&self, word: &str) -> (r: Option<SpecVal>)
        ensures
            opt_view(r) == self@.entry_meaning(word@),
    {
        match find(self.olds, word) {
            Some(s) => Some(s.duplicate()),
            None => match named_option(word) {
                Some(name) => match find(self.olds, name.as_str()) {
                    Some(s) => value_of_option(s.duplicate()),
                    None => None,
                },
                None => None,
            },
        }
    }

    fn term(&self, w: &Vec<String>, i: usize) -> (r: Result<(i128, usize), Unmonitorable>)
        requires
            i <= w@.len(),
        ensures
            integers_agree(r, term(self@, views(w@), i as nat)),
            r matches Ok((_, next)) ==> i < next <= w@.len(),
    {
        if i >= w.len() {
            return Err(Unmonitorable(owned("clause ends where a term is due")));
        }
        assert(views(w@)[i as int] == w@[i as int]@);
        if same_text(w[i].as_str(), "old") {
            if w.len() - i <= 1 {
                return Err(Unmonitorable(owned("clause ends where a term is due")));
            }
            assert(views(w@)[i + 1] == w@[i + 1]@);
            let name = w[i + 1].as_str();
            return match self.entry_meaning(name) {
                Some(SpecVal::Int(n)) => Ok((n, i + 2)),
                _ => Err(no_integer(name)),
            };
        }
        match parse_literal(w[i].as_str()) {
            Some(n) => Ok((n, i + 1)),
            None => match self.meaning(w[i].as_str()) {
                Some(SpecVal::Int(n)) => Ok((n, i + 1)),
                _ => Err(no_integer(w[i].as_str())),
            },
        }
    }

    fn sum(&self, w: &Vec<String>, start: usize) -> (r: Result<(i128, usize), Unmonitorable>)
        requires
            start <= w@.len(),
        ensures
            integers_agree(r, sum(self@, views(w@), start as nat)),
            r matches Ok((_, next)) ==> next <= w@.len(),
    {
        let (first, next) = match self.term(w, start) {
            Err(e) => {
                return Err(e);
            },
            Ok(t) => t,
        };
        let mut acc: i128 = first;
        let mut i: usize = next;
        let n: usize = w.len();
        while i < n
            invariant
                n == w@.len(),
                i <= n,
                sum(self@, views(w@), start as nat) == sum_from(
                    self@,
                    views(w@),
                    i as nat,
                    acc as int,
                ),
            decreases n - i,
        {
            assert(views(w@)[i as int] == w@[i as int]@);
            let plus = same_text(w[i].as_str(), "+");
            if !plus && !same_text(w[i].as_str(), "-") {
                return Ok((acc, i));
            }
            let (t, after) = match self.term(w, i + 1) {
                Err(e) => {
                    return Err(e);
                },
                Ok(t) => t,
            };
            let total = if plus {
                acc.checked_add(t)
            } else {
                acc.checked_sub(t)
            };
            match total {
                None => {
                    return Err(Unmonitorable(owned("sum leaves the monitored range")));
                },
                Some(v) => {
                    acc = v;
                },
            }
            i = after;
        }
        Ok((acc, i))
    }

    /// Whether a clause holds.
    pub fn eval_clause(&self, text: &str) -> (r: Result<bool, Unmonitorable>)
        ensures
            match clause_value(self@, text@) {
                Ok(b) => r matches Ok(x) && x == b,
                Err(e) => r matches Err(u) && u.0@ == e,
            },
    {
        proof {
            reveal(clause_value);
        }
        let w = split_words(text);
        if w.len() == 1 {
            assert(views(w@)[0] == w@[0]@);
            let word = w[0].as_str();
            if same_text(word, "true") {
                return Ok(true);
            }
            if same_text(word, "false") {
                return Ok(false);
            }
            return match self.meaning(word) {
                Some(SpecVal::Bool(b)) => Ok(b),
                _ => Err(Unmonitorable(cat3("`", word, "` is no Boolean here"))),
            };
        }
        let (a, i) = match self.sum(&w, 0) {
            Err(e) => {
                return Err(e);
            },
            Ok(x) => x,
        };
        if i >= w.len() {
            return Err(Unmonitorable(owned("clause compares nothing")));
        }
        assert(views(w@)[i as int] == w@[i as int]@);
        let (b, j) = match self.sum(&w, i + 1) {
            Err(e) => {
                return Err(e);
            },
            Ok(x) => x,
        };
        if j != w.len() {
            return Err(Unmonitorable(owned("clause is outside the monitored fragment")));
        }
        match compare(w[i].as_str(), a, b) {
            Some(v) => Ok(v),
            None => Err(Unmonitorable(owned("clause is outside the monitored fragment"))),
        }
    }

    /// The value of an integer measure.
    pub fn eval_int_expr(&self, text: &str) -> (r: Result<i128, Unmonitorable>)
        ensures
            match measure_value(self@, text@) {
                Ok(n) => r matches Ok(x) && x == n,
                Err(e) => r matches Err(u) && u.0@ == e,
            },
    {
        proof {
            reveal(measure_value);
        }
        let w = split_words(text);
        let (n, i) = match self.sum(&w, 0) {
            Err(e) => {
                return Err(e);
            },
            Ok(x) => x,
        };
        if i != w.len() {
            return Err(Unmonitorable(owned("measure is outside the monitored fragment")));
        }
        Ok(n)
    }
}

fn compare(sign: &str, a: i128, b: i128) -> (r: Option<bool>)
    ensures
        r == compared(sign@, a as int, b as int),
{
    if same_text(sign, "=") || same_text(sign, "==") {
        Some(a == b)
    } else if same_text(sign, "≠") || same_text(sign, "!=") {
        Some(a != b)
    } else if same_text(sign, "<") {
        Some(a < b)
    } else if same_text(sign, "≤") || same_text(sign, "<=") {
        Some(a <= b)
    } else if same_text(sign, ">") {
        Some(a > b)
    } else if same_text(sign, "≥") || same_text(sign, ">=") {
        Some(a >= b)
    } else {
        None
    }
}

} // verus!
