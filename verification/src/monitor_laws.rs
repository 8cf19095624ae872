//! What a clause means: its words, its terms, its comparison, and what its names stand for.
use vstd::prelude::*;

use crate::ast::Param;
use crate::bindings::{law_bind, value_of, BindV};
use crate::heap::{detached, snapshot, SpecV};
use crate::machine::{
    bind_argument, bind_arguments, contract_env, erased, invariant_env, loop_env, variant_env,
    FrameV, MachV,
};
use crate::monitor::{
    clause_value, compared, digits_value, flat, integer, is_blank, literal, measure_value, sum,
    sum_from, term, words, words_until, EnvV,
};
use crate::value::{copyable, ValV};

verus! {

// ------------------------------------------------------------------------------------------
// Words
// ------------------------------------------------------------------------------------------

/// A text without blanks.
pub open spec fn unbroken(s: Seq<char>) -> bool {
    forall|i: int| 0 <= i < s.len() ==> !is_blank(#[trigger] s[i])
}

proof fn lemma_words_same(s: Seq<char>, t: Seq<char>, n: nat)
    requires
        n <= s.len(),
        n <= t.len(),
        forall|i: int| 0 <= i < n ==> s[i] == t[i],
    ensures
        words_until(s, n) == words_until(t, n),
    decreases n,
{
    if n > 0 {
        lemma_words_same(s, t, (n - 1) as nat);
    }
}

proof fn lemma_unbroken(s: Seq<char>, n: nat)
    requires
        unbroken(s),
        n <= s.len(),
    ensures
        words_until(s, n) == (Seq::<Seq<char>>::empty(), s.take(n as int)),
    decreases n,
{
    if n > 0 {
        lemma_unbroken(s, (n - 1) as nat);
        assert(s.take(n - 1).push(s[n - 1]) =~= s.take(n as int));
    } else {
        assert(s.take(0) =~= Seq::<char>::empty());
    }
}

proof fn lemma_words_after(a: Seq<char>, blank: char, b: Seq<char>, n: nat)
    requires
        is_blank(blank),
        n <= b.len(),
    ensures
        ({
            let s = a + seq![blank] + b;
            let (done, open) = words_until(b, n);
            words_until(s, a.len() + 1 + n) == (words(a) + done, open)
        }),
    decreases n,
{
    let s = a + seq![blank] + b;
    if n == 0 {
        lemma_words_same(s, a, a.len());
        assert(s[a.len() as int] == blank);
        let (done, open) = words_until(a, a.len());
        assert(words_until(s, a.len() + 1) == (words(a), Seq::<char>::empty()));
        assert(words(a) + Seq::<Seq<char>>::empty() =~= words(a));
    } else {
        lemma_words_after(a, blank, b, (n - 1) as nat);
        let (done, open) = words_until(b, (n - 1) as nat);
        assert(s[(a.len() + n) as int] == b[n - 1]);
        assert((words(a) + done).push(open) =~= words(a) + done.push(open));
    }
}

/// The words of a text are its longest runs without a blank, in order: an unbroken text is one word,
/// a blank parts the words before it from those behind it, and an empty text has none.
pub proof fn law_words_are_parted_by_blanks(a: Seq<char>, blank: char, b: Seq<char>)
    ensures
        a.len() == 0 ==> words(a) == Seq::<Seq<char>>::empty(),
        a.len() > 0 && unbroken(a) ==> words(a) == seq![a],
        is_blank(blank) ==> words(a + seq![blank] + b) == words(a) + words(b),
{
    if unbroken(a) {
        lemma_unbroken(a, a.len());
        assert(a.take(a.len() as int) =~= a);
        if a.len() > 0 {
            assert(words(a) =~= seq![a]);
        }
    }
    if is_blank(blank) {
        lemma_words_after(a, blank, b, b.len());
        let (done, open) = words_until(b, b.len());
        assert((a + seq![blank] + b).len() == a.len() + 1 + b.len());
        if open.len() > 0 {
            assert((words(a) + done).push(open) =~= words(a) + done.push(open));
        }
    }
}

/// A text on one line is the text with a blank for each line feed.
pub proof fn law_flat_texts_have_no_feed(s: Seq<char>, i: int)
    requires
        0 <= i < s.len(),
    ensures
        flat(s).len() == s.len(),
        s[i] == '\n' ==> flat(s)[i] == ' ',
        s[i] != '\n' ==> flat(s)[i] == s[i],
{
}

// ------------------------------------------------------------------------------------------
// Literals
// ------------------------------------------------------------------------------------------

proof fn lemma_digits_same(s: Seq<char>, from: nat, t: Seq<char>, to: nat, n: nat)
    requires
        from + n <= s.len(),
        to + n <= t.len(),
        s.subrange(from as int, (from + n) as int) == t.subrange(to as int, (to + n) as int),
    ensures
        digits_value(s, from, from + n) == digits_value(
            t,
            to,
            to + n,
        ),
    decreases n,
{
    if n > 0 {
        let a = s.subrange(from as int, (from + n) as int);
        let b = t.subrange(to as int, (to + n) as int);
        assert(s.subrange(from as int, from + n - 1) =~= a.drop_last());
        assert(t.subrange(to as int, to + n - 1) =~= b.drop_last());
        lemma_digits_same(s, from, t, to, (n - 1) as nat);
        assert(s[from + (n - 1)] == a[n - 1]);
        assert(t[to + (n - 1)] == b[n - 1]);
        assert((from + n - 1) as nat == from + (n - 1) as nat);
        assert((to + n - 1) as nat == to + (n - 1) as nat);
    }
}

/// One digit is the number it is counted up to from `0`; a digit behind a number makes it ten times
/// as large and adds its own; a minus sign in front turns a number without one round. A text with
/// any other character is no number.
pub proof fn law_literals_are_decimal(s: Seq<char>, c: char)
    ensures
        literal(seq![c]) == (if '0' <= c <= '9' {
            Some(c as int - '0' as int)
        } else {
            None::<int>
        }),
        s.len() > 0 && s[0] != '-' && '0' <= c <= '9' ==> (literal(s) matches Some(n) ==> (n * 10 + (
        c as int - '0' as int) <= i128::MAX ==> literal(s.push(c)) == Some(
            n * 10 + (c as int - '0' as int),
        ))),
        s.len() > 0 && !('0' <= c <= '9') ==> literal(s.push(c)) is None,
        s.len() > 0 && s[0] != '-' ==> (literal(s) matches Some(n) ==> literal(seq!['-'] + s)
            == Some(-n)),
        literal(Seq::empty()) is None,
{
    reveal_with_fuel(digits_value, 2);
    let t = s.push(c);
    if s.len() > 0 {
        assert(t[0] == s[0]);
        let from: nat = if s[0] == '-' {
            1
        } else {
            0
        };
        assert(s.subrange(from as int, s.len() as int) =~= t.subrange(from as int, s.len() as int));
        lemma_digits_same(s, from, t, from, (s.len() - from) as nat);
        assert(from + (s.len() - from) as nat == s.len());
        assert(t[s.len() as int] == c);
        let u = seq!['-'] + s;
        assert(s.subrange(0, s.len() as int) =~= u.subrange(1, (1 + s.len()) as int));
        lemma_digits_same(s, 0, u, 1, s.len());
        assert(u.len() == s.len() + 1);
    }
}

// ------------------------------------------------------------------------------------------
// Comparison and sums
// ------------------------------------------------------------------------------------------

proof fn lemma_signs()
    ensures
        "="@ == seq!['='],
        "=="@ == seq!['=', '='],
        "≠"@ == seq!['≠'],
        "!="@ == seq!['!', '='],
        "<"@ == seq!['<'],
        "≤"@ == seq!['≤'],
        "<="@ == seq!['<', '='],
        ">"@ == seq!['>'],
        "≥"@ == seq!['≥'],
        ">="@ == seq!['>', '='],
        "+"@ == seq!['+'],
        "-"@ == seq!['-'],
{
    reveal_strlit("=");
    reveal_strlit("==");
    reveal_strlit("≠");
    reveal_strlit("!=");
    reveal_strlit("<");
    reveal_strlit("≤");
    reveal_strlit("<=");
    reveal_strlit(">");
    reveal_strlit("≥");
    reveal_strlit(">=");
    reveal_strlit("+");
    reveal_strlit("-");
    assert("="@ =~= seq!['=']);
    assert("=="@ =~= seq!['=', '=']);
    assert("≠"@ =~= seq!['≠']);
    assert("!="@ =~= seq!['!', '=']);
    assert("<"@ =~= seq!['<']);
    assert("≤"@ =~= seq!['≤']);
    assert("<="@ =~= seq!['<', '=']);
    assert(">"@ =~= seq!['>']);
    assert("≥"@ =~= seq!['≥']);
    assert(">="@ =~= seq!['>', '=']);
    assert("+"@ =~= seq!['+']);
    assert("-"@ =~= seq!['-']);
}

/// Each sign of a clause compares as the integers are ordered: exactly one of `<`, `=` and `>` holds;
/// `≤` is not `>`, `≥` is not `<`, `≠` is not `=`; both spellings of a sign agree; and no other word
/// compares.
pub proof fn law_signs_order_the_integers(a: int, b: int, sign: Seq<char>)
    ensures
        compared("<"@, a, b) == Some(a < b),
        compared(">"@, a, b) == Some(b < a),
        compared("="@, a, b) == Some(a == b),
        compared("≤"@, a, b) == Some(!(b < a)),
        compared("≥"@, a, b) == Some(!(a < b)),
        compared("≠"@, a, b) == Some(!(a == b)),
        compared("=="@, a, b) == compared("="@, a, b),
        compared("!="@, a, b) == compared("≠"@, a, b),
        compared("<="@, a, b) == compared("≤"@, a, b),
        compared(">="@, a, b) == compared("≥"@, a, b),
        compared(sign, a, b) is Some <==> compared(sign, b, a) is Some,
        sign == "+"@ || sign == "-"@ || sign.len() > 2 || sign.len() == 0 ==> compared(sign, a, b)
            is None,
{
    lemma_signs();
    assert("="@[0] == '=' && "<"@[0] == '<' && ">"@[0] == '>' && "≠"@[0] == '≠' && "≤"@[0] == '≤'
        && "≥"@[0] == '≥' && "+"@[0] == '+' && "-"@[0] == '-');
    assert("=="@[0] == '=' && "!="@[0] == '!' && "<="@[0] == '<' && ">="@[0] == '>');
    assert("="@.len() == 1 && "<"@.len() == 1 && ">"@.len() == 1 && "≠"@.len() == 1 && "≤"@.len()
        == 1 && "≥"@.len() == 1 && "=="@.len() == 2 && "!="@.len() == 2 && "<="@.len() == 2
        && ">="@.len() == 2);
}

/// A word that is a term by itself, and the integer it stands for: a literal, or a name of an
/// integer.
pub open spec fn stands_for(env: EnvV, word: Seq<char>, n: int) -> bool {
    word != "old"@ && (literal(word) == Some(n) || (literal(word) is None && (env.meaning(
        word,
    ) matches Some(SpecV::Int(x)) && x == n)))
}

/// A term is the integer that its word stands for; `old` and a word are the integer that the word
/// stood for on entry.
pub proof fn law_terms(env: EnvV, w: Seq<Seq<char>>, i: nat, n: int)
    ensures
        i < w.len() && stands_for(env, w[i as int], n) ==> term(env, w, i) == Ok::<
            (int, nat),
            Seq<char>,
        >((n, i + 1)),
        i + 1 < w.len() && w[i as int] == "old"@ ==> (env.entry_meaning(
            w[i as int + 1],
        ) matches Some(SpecV::Int(x)) ==> term(env, w, i) == Ok::<(int, nat), Seq<char>>(
            (x as int, i + 2),
        )),
        i >= w.len() ==> term(env, w, i) is Err,
{
}

/// A sum goes on over `+` and `-`, from left to right, and ends at any other word.
pub proof fn law_sums_add_up(env: EnvV, w: Seq<Seq<char>>, i: nat, acc: int, n: int, next: nat)
    ensures
        i >= w.len() ==> sum_from(env, w, i, acc) == Ok::<(int, nat), Seq<char>>((acc, i)),
        i < w.len() && w[i as int] != "+"@ && w[i as int] != "-"@ ==> sum_from(env, w, i, acc)
            == Ok::<(int, nat), Seq<char>>((acc, i)),
        i < w.len() && w[i as int] == "+"@ && term(env, w, i + 1) == Ok::<(int, nat), Seq<char>>(
            (n, next),
        ) && next > i && i128::MIN <= acc + n <= i128::MAX ==> sum_from(env, w, i, acc) == sum_from(
            env,
            w,
            next,
            acc + n,
        ),
        i < w.len() && w[i as int] == "-"@ && term(env, w, i + 1) == Ok::<(int, nat), Seq<char>>(
            (n, next),
        ) && next > i && i128::MIN <= acc - n <= i128::MAX ==> sum_from(env, w, i, acc) == sum_from(
            env,
            w,
            next,
            acc - n,
        ),
        term(env, w, i) == Ok::<(int, nat), Seq<char>>((n, next)) ==> sum(env, w, i) == sum_from(
            env,
            w,
            next,
            n,
        ),
{
    lemma_signs();
    assert("+"@[0] == '+' && "-"@[0] == '-');
}

/// A word that ends a sum.
pub open spec fn no_sign(word: Seq<char>) -> bool {
    word != "+"@ && word != "-"@
}

/// A clause of two words and a sign between them holds exactly where the integers that the words
/// stand for are ordered as the sign says.
pub proof fn law_clauses_compare_their_terms(
    env: EnvV,
    text: Seq<char>,
    x: Seq<char>,
    sign: Seq<char>,
    y: Seq<char>,
    a: int,
    b: int,
)
    requires
        words(text) == seq![x, sign, y],
        stands_for(env, x, a),
        stands_for(env, y, b),
        no_sign(sign),
    ensures
        compared(sign, a, b) matches Some(v) ==> clause_value(env, text) == Ok::<bool, Seq<char>>(v),
        compared(sign, a, b) is None ==> clause_value(env, text) is Err,
{
    reveal(clause_value);
    let w = words(text);
    law_terms(env, w, 0, a);
    law_sums_add_up(env, w, 1, a, 0, 0);
    law_sums_add_up(env, w, 0, 0, a, 1);
    law_terms(env, w, 2, b);
    law_sums_add_up(env, w, 3, b, 0, 0);
    law_sums_add_up(env, w, 2, 0, b, 3);
}

/// A clause with a sum or a difference on its left compares that sum or difference.
pub proof fn law_clauses_compare_their_sums(
    env: EnvV,
    text: Seq<char>,
    x: Seq<char>,
    with: Seq<char>,
    y: Seq<char>,
    sign: Seq<char>,
    z: Seq<char>,
    a: int,
    b: int,
    d: int,
)
    requires
        words(text) == seq![x, with, y, sign, z],
        stands_for(env, x, a),
        stands_for(env, y, b),
        stands_for(env, z, d),
        no_sign(sign),
    ensures
        with == "+"@ && i128::MIN <= a + b <= i128::MAX ==> (compared(sign, a + b, d) matches Some(
            v,
        ) ==> clause_value(env, text) == Ok::<bool, Seq<char>>(v)),
        with == "-"@ && i128::MIN <= a - b <= i128::MAX ==> (compared(sign, a - b, d) matches Some(
            v,
        ) ==> clause_value(env, text) == Ok::<bool, Seq<char>>(v)),
{
    reveal(clause_value);
    let w = words(text);
    lemma_signs();
    assert("+"@[0] == '+' && "-"@[0] == '-');
    law_terms(env, w, 0, a);
    law_terms(env, w, 2, b);
    law_terms(env, w, 4, d);
    law_sums_add_up(env, w, 0, 0, a, 1);
    law_sums_add_up(env, w, 1, a, b, 3);
    law_sums_add_up(env, w, 3, a + b, 0, 0);
    law_sums_add_up(env, w, 3, a - b, 0, 0);
    law_sums_add_up(env, w, 4, 0, d, 5);
    law_sums_add_up(env, w, 5, d, 0, 0);
}

/// `old` in front of a word compares what the word stood for on entry.
pub proof fn law_old_compares_the_entry(
    env: EnvV,
    text: Seq<char>,
    x: Seq<char>,
    sign: Seq<char>,
    y: Seq<char>,
    a: int,
    b: i128,
)
    requires
        words(text) == seq![x, sign, "old"@, y],
        stands_for(env, x, a),
        env.entry_meaning(y) == Some(SpecV::Int(b)),
        no_sign(sign),
    ensures
        compared(sign, a, b as int) matches Some(v) ==> clause_value(env, text) == Ok::<
            bool,
            Seq<char>,
        >(v),
{
    reveal(clause_value);
    let w = words(text);
    law_terms(env, w, 0, a);
    law_terms(env, w, 2, 0);
    law_sums_add_up(env, w, 0, 0, a, 1);
    law_sums_add_up(env, w, 1, a, 0, 0);
    law_sums_add_up(env, w, 2, 0, b as int, 4);
    law_sums_add_up(env, w, 4, b as int, 0, 0);
}

/// A clause of one word is `true`, `false`, or a name of a truth value.
pub proof fn law_clauses_of_one_word(env: EnvV, text: Seq<char>, x: Seq<char>, b: bool)
    requires
        words(text) == seq![x],
    ensures
        x == "true"@ ==> clause_value(env, text) == Ok::<bool, Seq<char>>(true),
        x == "false"@ ==> clause_value(env, text) == Ok::<bool, Seq<char>>(false),
        x != "true"@ && x != "false"@ && env.meaning(x) == Some(SpecV::Bool(b)) ==> clause_value(
            env,
            text,
        ) == Ok::<bool, Seq<char>>(b),
        x != "true"@ && x != "false"@ && !(env.meaning(x) matches Some(SpecV::Bool(_)))
            ==> clause_value(env, text) is Err,
{
    reveal(clause_value);
    reveal_strlit("true");
    reveal_strlit("false");
    assert("true"@.len() == 4 && "false"@.len() == 5);
}

/// The measure of one word is the integer that it stands for, and of a difference the difference.
pub proof fn law_measures_are_their_sums(
    env: EnvV,
    text: Seq<char>,
    x: Seq<char>,
    y: Seq<char>,
    a: int,
    b: int,
)
    requires
        stands_for(env, x, a),
    ensures
        words(text) == seq![x] ==> measure_value(env, text) == Ok::<int, Seq<char>>(a),
        words(text) == seq![x, "-"@, y] && stands_for(env, y, b) && i128::MIN <= a - b <= i128::MAX
            ==> measure_value(env, text) == Ok::<int, Seq<char>>(a - b),
        words(text) == seq![x, "+"@, y] && stands_for(env, y, b) && i128::MIN <= a + b <= i128::MAX
            ==> measure_value(env, text) == Ok::<int, Seq<char>>(a + b),
{
    reveal(measure_value);
    let w = words(text);
    lemma_signs();
    assert("+"@[0] == '+' && "-"@[0] == '-');
    if w.len() > 0 && w[0] == x {
        law_terms(env, w, 0, a);
        law_sums_add_up(env, w, 0, 0, a, 1);
        law_sums_add_up(env, w, 1, a, 0, 0);
        if w.len() == 3 && w[2] == y && stands_for(env, y, b) {
            law_terms(env, w, 2, b);
            law_sums_add_up(env, w, 1, a, b, 3);
            law_sums_add_up(env, w, 3, a + b, 0, 0);
            law_sums_add_up(env, w, 3, a - b, 0, 0);
        }
    }
}

// ------------------------------------------------------------------------------------------
// Names
// ------------------------------------------------------------------------------------------

/// No field of the object at hand has the name, and it is not the name of that object.
pub open spec fn free_name(m: MachV, f: FrameV, name: Seq<char>) -> bool {
    &&& name != "self"@
    &&& f.self_ctx matches Some((_, id)) ==> (m.heap.object(id) matches Some(fields) ==> value_of(
        fields,
        name,
    ) is None)
}

/// In a contract, a name stands for the value that it had on entry, whatever it is bound to now; in a
/// loop invariant and in a measure it stands for the value that it has now.
pub proof fn law_contracts_name_entry_values(m: MachV, f: FrameV, name: Seq<char>, v: ValV)
    requires
        free_name(m, f, name),
        name != "result"@,
    ensures
        value_of(f.entry, name) == Some(v) ==> contract_env(m, f, None).lookup(name) == snapshot(
            m.heap,
            v,
        ),
        value_of(f.entry, name) is None && value_of(f.vars, name) == Some(v) ==> contract_env(
            m,
            f,
            None,
        ).lookup(name) == snapshot(m.heap, v),
        value_of(f.vars, name) == Some(v) ==> loop_env(m, f).lookup(name) == snapshot(m.heap, v),
        value_of(f.vars, name) == Some(v) ==> variant_env(m, f).lookup(name) == snapshot(m.heap, v),
        value_of(f.entry, name) is None && value_of(f.vars, name) is None ==> contract_env(
            m,
            f,
            None,
        ).lookup(name) is None,
{
    assert(value_of(Seq::<BindV<ValV>>::empty(), name) is None);
}

/// In a postcondition `result` stands for the value that the callable gives back.
pub proof fn law_results_are_named(m: MachV, f: FrameV, v: ValV)
    requires
        snapshot(m.heap, v) is Some,
    ensures
        contract_env(m, f, Some(v)).lookup("result"@) == snapshot(m.heap, v),
{
}

/// In a class invariant, and in every clause of a member, a field's name stands for what the field of
/// the object at hand holds now.
pub proof fn law_fields_are_named(m: MachV, f: FrameV, class: usize, id: usize, name: Seq<char>)
    requires
        f.self_ctx == Some((class, id)),
        m.heap.object(id) is Some,
        value_of(m.heap.object(id)->Some_0, name) is Some,
        snapshot(m.heap, value_of(m.heap.object(id)->Some_0, name)->Some_0) is Some,
    ensures
        ({
            let held = value_of(m.heap.object(id)->Some_0, name)->Some_0;
            &&& invariant_env(m, id).lookup(name) == snapshot(m.heap, held)
            &&& contract_env(m, f, None).lookup(name) == snapshot(m.heap, held)
            &&& loop_env(m, f).lookup(name) == snapshot(m.heap, held)
        }),
{
}

/// `old` stands for what was snapshot on entry, and for nothing else.
pub proof fn law_old_names_snapshots(m: MachV, f: FrameV, name: Seq<char>, s: SpecV)
    ensures
        value_of(f.olds, name) == Some(s) ==> contract_env(m, f, None).entry_meaning(name) == Some(
            s,
        ) && loop_env(m, f).entry_meaning(name) == Some(s),
        value_of(f.olds, name) is None && name.len() <= 6 ==> contract_env(
            m,
            f,
            None,
        ).entry_meaning(name) is None,
{
}

/// A name of an integer or of a truth value means that value in a clause.
pub proof fn law_scalars_mean_themselves(m: MachV, n: i128, b: bool)
    ensures
        snapshot(m.heap, ValV::Int(n)) == Some(SpecV::Int(n)),
        snapshot(m.heap, ValV::Bool(b)) == Some(SpecV::Bool(b)),
        integer(Some(SpecV::Int(n)), Seq::empty()) == Ok::<int, Seq<char>>(n as int),
        integer(Some(SpecV::Bool(b)), Seq::empty()) is Err,
{
}

// ------------------------------------------------------------------------------------------
// Arguments
// ------------------------------------------------------------------------------------------

/// A parameter starts bound to its argument. A value that is copied is the entry value too; what a
/// unique borrow lends is snapshot for `old`. No other name changes.
pub proof fn law_parameters_start_with_their_arguments(
    m: MachV,
    f: FrameV,
    p: Param,
    v: ValV,
    other: Seq<char>,
)
    requires
        bind_argument(m, f, p, v).0 is Ok,
    ensures
        ({
            let g = bind_argument(m, f, p, v).2;
            &&& value_of(g.vars, p.name@) == Some(v)
            &&& !(v is Arr) && !(v is Obj) ==> value_of(g.entry, p.name@) == Some(v) && copyable(v)
            &&& (v is Arr || v is Obj) && p.ty.unique_borrow() ==> g.entry == f.entry && (snapshot(
                m.heap,
                v,
            ) matches Some(s) ==> value_of(g.olds, p.name@) == Some(s))
            &&& other != p.name@ ==> value_of(g.vars, other) == value_of(f.vars, other) && value_of(
                g.entry,
                other,
            ) == value_of(f.entry, other) && value_of(g.olds, other) == value_of(f.olds, other)
        }),
{
    law_bind(f.vars, p.name@, v, other);
    law_bind(f.entry, p.name@, v, other);
    match snapshot(m.heap, v) {
        Some(s) => {
            law_bind(f.olds, p.name@, s, other);
        },
        None => {},
    }
    match detached(m.heap, v) {
        Some((h, copy)) => {
            law_bind(f.entry, p.name@, copy, other);
        },
        None => {},
    }
}

proof fn lemma_arguments(
    m: MachV,
    f: FrameV,
    params: Seq<Param>,
    i: nat,
    args: Seq<ValV>,
    name: Seq<char>,
)
    requires
        i <= params.len(),
        params.len() == args.len(),
        forall|k: int| i <= k < params.len() ==> !erased((#[trigger] params[k]).ty),
        bind_arguments(m, f, params, i, args, i).0 is Ok,
        forall|k: int| i <= k < params.len() ==> (#[trigger] params[k]).name@ != name,
    ensures
        value_of(bind_arguments(m, f, params, i, args, i).2.vars, name) == value_of(f.vars, name),
    decreases params.len() - i,
{
    if i < params.len() {
        let first = bind_argument(m, f, params[i as int], args[i as int]);
        law_parameters_start_with_their_arguments(m, f, params[i as int], args[i as int], name);
        lemma_arguments(first.1, first.2, params, i + 1, args, name);
    }
}

proof fn lemma_argument_at(
    m: MachV,
    f: FrameV,
    params: Seq<Param>,
    i: nat,
    args: Seq<ValV>,
    k: int,
)
    requires
        i <= k < params.len(),
        params.len() == args.len(),
        forall|j: int| i <= j < params.len() ==> !erased((#[trigger] params[j]).ty),
        bind_arguments(m, f, params, i, args, i).0 is Ok,
        forall|x: int, y: int|
            0 <= x < y < params.len() ==> (#[trigger] params[x]).name@ != (#[trigger] params[y]).name@,
    ensures
        value_of(bind_arguments(m, f, params, i, args, i).2.vars, params[k].name@) == Some(args[k]),
    decreases params.len() - i,
{
    let first = bind_argument(m, f, params[i as int], args[i as int]);
    law_parameters_start_with_their_arguments(
        m,
        f,
        params[i as int],
        args[i as int],
        params[k].name@,
    );
    if i < k {
        lemma_argument_at(first.1, first.2, params, i + 1, args, k);
    } else {
        lemma_arguments(first.1, first.2, params, i + 1, args, params[k].name@);
    }
}

/// Each parameter of a call is bound to the argument in its position.
pub proof fn law_arguments_go_to_their_parameters(
    m: MachV,
    f: FrameV,
    params: Seq<Param>,
    args: Seq<ValV>,
    k: int,
)
    requires
        0 <= k < params.len(),
        params.len() == args.len(),
        forall|j: int| 0 <= j < params.len() ==> !erased((#[trigger] params[j]).ty),
        forall|x: int, y: int|
            0 <= x < y < params.len() ==> (#[trigger] params[x]).name@ != (#[trigger] params[y]).name@,
        bind_arguments(m, f, params, 0, args, 0).0 is Ok,
    ensures
        value_of(bind_arguments(m, f, params, 0, args, 0).2.vars, params[k].name@) == Some(args[k]),
{
    lemma_argument_at(m, f, params, 0, args, k);
}

} // verus!
