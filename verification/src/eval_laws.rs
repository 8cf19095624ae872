//! What the value of an expression is, and what evaluating it leaves.
use vstd::prelude::*;

use crate::ast::{BinOp, ClassDecl, Expr, ExprKind, FnDecl, IntTy, RecordDecl, Ty};
use crate::bindings::{law_bind, unbind, value_of};
use crate::machine::{burned, CodeV, FrameV, MachV, SiteV};
use crate::rawheap::raw_step;
use crate::semantics::{
    borrowed, call, call_args, class_at, construct, eval, eval_alloc, eval_array_lit, eval_binary,
    eval_bool, eval_call, eval_ctor, eval_index, eval_int, eval_is_some, eval_kind, eval_list,
    eval_method, eval_moved, eval_narrow, eval_opt_value, eval_raw, eval_record, eval_some,
    eval_unary, eval_widen, fn_at, init_at, invoke, method_at, moved_list, owning, record_at,
    record_fields, spent, stays_behind, Out,
};
use crate::span::Span;
use crate::steps::{
    allocate_array, array_get, array_len, array_put, compared, computed, int_type, literal_array,
    machine_int, map_put, map_take, narrowed, negated, payload_value, presence, MAX_ELEMENTS,
};
use crate::value::{copyable, inhabits, TrapV, ValV};

verus! {

// ------------------------------------------------------------------------------------------
// Comparison
// ------------------------------------------------------------------------------------------

/// A comparison is the order of the integers: each sign holds exactly where the integers stand to
/// each other as it says; exactly one of `<`, `==` and `>` holds; `<=` is not `>`, `>=` is not `<`,
/// `!=` is not `==`; and turning the operands round turns the sign round.
pub proof fn law_comparisons_order_the_integers(a: i128, b: i128)
    ensures
        compared(BinOp::Lt, a, b) <==> (a as int) < (b as int),
        compared(BinOp::Gt, a, b) <==> (b as int) < (a as int),
        compared(BinOp::Eq, a, b) <==> a as int == b as int,
        compared(BinOp::Le, a, b) <==> !compared(BinOp::Gt, a, b),
        compared(BinOp::Ge, a, b) <==> !compared(BinOp::Lt, a, b),
        compared(BinOp::Ne, a, b) <==> !compared(BinOp::Eq, a, b),
        compared(BinOp::Lt, a, b) <==> compared(BinOp::Gt, b, a),
        compared(BinOp::Le, a, b) <==> compared(BinOp::Ge, b, a),
        compared(BinOp::Eq, a, b) <==> compared(BinOp::Eq, b, a),
        compared(BinOp::Lt, a, b) || compared(BinOp::Eq, a, b) || compared(BinOp::Gt, a, b),
        !(compared(BinOp::Lt, a, b) && compared(BinOp::Eq, a, b)),
        !(compared(BinOp::Lt, a, b) && compared(BinOp::Gt, a, b)),
        !(compared(BinOp::Eq, a, b) && compared(BinOp::Gt, a, b)),
{
}

/// The order is transitive.
pub proof fn law_comparisons_are_transitive(a: i128, b: i128, d: i128)
    ensures
        compared(BinOp::Lt, a, b) && compared(BinOp::Lt, b, d) ==> compared(BinOp::Lt, a, d),
        compared(BinOp::Le, a, b) && compared(BinOp::Le, b, d) ==> compared(BinOp::Le, a, d),
        compared(BinOp::Eq, a, b) && compared(BinOp::Lt, b, d) ==> compared(BinOp::Lt, a, d),
{
}

/// The evaluation of the expression gets under way: there is fuel, and its trap sites are in order.
pub open spec fn under_way(p: SiteV, e: Expr, m: MachV) -> bool {
    m.fuel > 0 && p.expression(e) is Ok
}

/// The outcome of the first operand.
pub open spec fn first_int(c: CodeV, p: SiteV, e: Expr, m: MachV, f: FrameV) -> Out<i128> {
    spent(eval_int(c, p, *e.kind->Binary_lhs, burned(m), f), burned(m))
}

/// The outcome of the second operand, in the state that the first left.
pub open spec fn second_int(c: CodeV, p: SiteV, e: Expr, m: MachV, f: FrameV) -> Out<i128> {
    let o = first_int(c, p, e, m, f);
    eval_int(c, p, *e.kind->Binary_rhs, o.m, o.f)
}

/// The two operands of an operator are integers, evaluated one after the other.
pub open spec fn operands(
    c: CodeV,
    p: SiteV,
    e: Expr,
    m: MachV,
    f: FrameV,
    a: i128,
    b: i128,
) -> bool {
    &&& under_way(p, e, m)
    &&& e.kind is Binary
    &&& first_int(c, p, e, m, f).r == Ok::<i128, TrapV>(a)
    &&& second_int(c, p, e, m, f).r == Ok::<i128, TrapV>(b)
}

/// The value of a comparison is a truth value: the one of the order of the integers that its
/// operands have. It leaves what its operands left.
pub proof fn law_comparison_values(
    c: CodeV,
    p: SiteV,
    e: Expr,
    m: MachV,
    f: FrameV,
    a: i128,
    b: i128,
)
    requires
        operands(c, p, e, m, f, a, b),
    ensures
        ({
            let op = e.kind->Binary_op;
            let v = eval(c, p, e, m, f).r;
            &&& op is Lt ==> v == Ok::<ValV, TrapV>(ValV::Bool((a as int) < (b as int)))
            &&& op is Le ==> v == Ok::<ValV, TrapV>(ValV::Bool(!((b as int) < (a as int))))
            &&& op is Gt ==> v == Ok::<ValV, TrapV>(ValV::Bool((b as int) < (a as int)))
            &&& op is Ge ==> v == Ok::<ValV, TrapV>(ValV::Bool(!((a as int) < (b as int))))
            &&& op is Eq ==> v == Ok::<ValV, TrapV>(ValV::Bool(a as int == b as int))
            &&& op is Ne ==> v == Ok::<ValV, TrapV>(ValV::Bool(a as int != b as int))
        }),
        e.kind->Binary_op.comparison() ==> eval(c, p, e, m, f).m == second_int(c, p, e, m, f).m
            && eval(c, p, e, m, f).f == second_int(c, p, e, m, f).f,
{
    assert(eval(c, p, e, m, f) == eval_kind(c, p, e, burned(m), f));
    assert(eval_kind(c, p, e, burned(m), f) == eval_binary(c, p, e, burned(m), f));
}

// ------------------------------------------------------------------------------------------
// Arithmetic
// ------------------------------------------------------------------------------------------

/// An integer that the type has.
pub open spec fn in_type(it: IntTy, n: int) -> bool {
    it.least() <= n <= it.greatest()
}

/// The least and the greatest value of a type are those of its width: a signed type of `n` bits
/// reaches from half of `2^n` below nothing to one less above it, an unsigned one from nothing to one
/// less than `2^n`.
pub proof fn law_types_have_their_width()
    ensures
        forall|n: int| #[trigger] in_type(IntTy::I8, n) <==> i8::MIN <= n <= i8::MAX,
        forall|n: int| #[trigger] in_type(IntTy::I16, n) <==> i16::MIN <= n <= i16::MAX,
        forall|n: int| #[trigger] in_type(IntTy::I32, n) <==> i32::MIN <= n <= i32::MAX,
        forall|n: int| #[trigger] in_type(IntTy::I64, n) <==> i64::MIN <= n <= i64::MAX,
        forall|n: int| #[trigger] in_type(IntTy::U8, n) <==> 0 <= n <= u8::MAX,
        forall|n: int| #[trigger] in_type(IntTy::U16, n) <==> 0 <= n <= u16::MAX,
        forall|n: int| #[trigger] in_type(IntTy::U32, n) <==> 0 <= n <= u32::MAX,
        forall|n: int| #[trigger] in_type(IntTy::U64, n) <==> 0 <= n <= u64::MAX,
{
}

/// A sum, a difference and a product are the exact ones where the type has them, and a trap where it
/// does not: no result wraps around.
pub proof fn law_arithmetic_is_exact(
    source: Seq<char>,
    a: i128,
    b: i128,
    e: Expr,
    rhs: Span,
    it: IntTy,
)
    requires
        int_type(e) == Some(it),
    ensures
        computed(source, BinOp::Add, a, b, e, rhs) == Ok::<ValV, TrapV>(ValV::Int((a + b) as i128))
            <==> in_type(it, a + b),
        computed(source, BinOp::Add, a, b, e, rhs) is Ok <==> in_type(it, a + b),
        computed(source, BinOp::Sub, a, b, e, rhs) == Ok::<ValV, TrapV>(ValV::Int((a - b) as i128))
            <==> in_type(it, a - b),
        computed(source, BinOp::Sub, a, b, e, rhs) is Ok <==> in_type(it, a - b),
        computed(source, BinOp::Mul, a, b, e, rhs) == Ok::<ValV, TrapV>(ValV::Int((a * b) as i128))
            <==> in_type(it, a * b),
        computed(source, BinOp::Mul, a, b, e, rhs) is Ok <==> in_type(it, a * b),
{
    assert(in_type(it, a + b) ==> machine_int(a + b));
    assert(in_type(it, a - b) ==> machine_int(a - b));
    assert(in_type(it, a * b) ==> machine_int(a * b));
}

/// Division by nothing is a trap, with the place of the divisor; and so is the one quotient that a
/// signed type does not have. Every other quotient and remainder is given.
pub proof fn law_division_traps(
    source: Seq<char>,
    a: i128,
    b: i128,
    e: Expr,
    rhs: Span,
    it: IntTy,
)
    requires
        int_type(e) == Some(it),
        in_type(it, a as int),
        in_type(it, b as int),
    ensures
        computed(source, BinOp::Div, a, b, e, rhs) is Err <==> b == 0 || (it.is_signed() && a
            == it.least() && b == -1),
        computed(source, BinOp::Rem, a, b, e, rhs) is Err <==> b == 0,
        b == 0 ==> (computed(source, BinOp::Div, a, b, e, rhs) matches Err(t) && t.span == rhs),
        b == 0 ==> (computed(source, BinOp::Rem, a, b, e, rhs) matches Err(t) && t.span == rhs),
        computed(source, BinOp::Div, a, b, e, rhs) is Ok ==> computed(
            source,
            BinOp::Div,
            a,
            b,
            e,
            rhs,
        ) == Ok::<ValV, TrapV>(ValV::Int((a as int / b as int) as i128)),
        computed(source, BinOp::Rem, a, b, e, rhs) is Ok ==> computed(
            source,
            BinOp::Rem,
            a,
            b,
            e,
            rhs,
        ) == Ok::<ValV, TrapV>(ValV::Int((a as int % b as int) as i128)),
{
}

/// The value of an arithmetic operator is what [`computed`] says of its operands' values.
pub proof fn law_arithmetic_values(
    c: CodeV,
    p: SiteV,
    e: Expr,
    m: MachV,
    f: FrameV,
    a: i128,
    b: i128,
    it: IntTy,
)
    requires
        operands(c, p, e, m, f, a, b),
        int_type(e) == Some(it),
    ensures
        ({
            let op = e.kind->Binary_op;
            let v = eval(c, p, e, m, f).r;
            &&& op is Add ==> (v is Ok <==> in_type(it, a + b)) && (v matches Ok(x) ==> x
                == ValV::Int((a + b) as i128))
            &&& op is Sub ==> (v is Ok <==> in_type(it, a - b)) && (v matches Ok(x) ==> x
                == ValV::Int((a - b) as i128))
            &&& op is Mul ==> (v is Ok <==> in_type(it, a * b)) && (v matches Ok(x) ==> x
                == ValV::Int((a * b) as i128))
            &&& op is Div || op is Rem ==> (b == 0 ==> v is Err)
            &&& op is Div ==> (v matches Ok(x) ==> x == ValV::Int((a as int / b as int) as i128))
            &&& op is Rem ==> (v matches Ok(x) ==> x == ValV::Int((a as int % b as int) as i128))
        }),
{
    assert(eval(c, p, e, m, f) == eval_kind(c, p, e, burned(m), f));
    assert(eval_kind(c, p, e, burned(m), f) == eval_binary(c, p, e, burned(m), f));
    law_arithmetic_is_exact(c.source, a, b, e, e.kind->Binary_rhs.span, it);
}

/// The negative of an integer is given where the type has it, and is a trap where it does not.
pub proof fn law_negation_is_exact(source: Seq<char>, v: i128, e: Expr, it: IntTy)
    requires
        int_type(e) == Some(it),
    ensures
        negated(source, v, e) is Ok <==> in_type(it, -v),
        negated(source, v, e) matches Ok(x) ==> x == ValV::Int((-v) as i128),
{
    assert(in_type(it, -v) ==> machine_int(-v));
}

/// `!` turns a truth value round, and `-` an integer.
pub proof fn law_unary_values(c: CodeV, p: SiteV, e: Expr, m: MachV, f: FrameV, it: IntTy)
    requires
        under_way(p, e, m),
        e.kind is Unary,
    ensures
        e.kind->Unary_op is Not ==> (eval_bool(
            c,
            p,
            *e.kind->Unary_operand,
            burned(m),
            f,
        ).r matches Ok(b) ==> eval(c, p, e, m, f).r == Ok::<ValV, TrapV>(ValV::Bool(!b))),
        e.kind->Unary_op is Neg && int_type(e) == Some(it) ==> (eval_int(
            c,
            p,
            *e.kind->Unary_operand,
            burned(m),
            f,
        ).r matches Ok(n) ==> (eval(c, p, e, m, f).r is Ok <==> in_type(it, -n)) && (eval(
            c,
            p,
            e,
            m,
            f,
        ).r matches Ok(v) ==> v == ValV::Int((-n) as i128))),
{
    assert(eval(c, p, e, m, f) == eval_kind(c, p, e, burned(m), f));
    assert(eval_kind(c, p, e, burned(m), f) == eval_unary(c, p, e, burned(m), f));
    if e.kind->Unary_op is Neg && int_type(e) == Some(it) {
        let o = eval_int(c, p, *e.kind->Unary_operand, burned(m), f);
        if o.r is Ok {
            law_negation_is_exact(c.source, o.r->Ok_0, e, it);
        }
    }
}

/// A narrowed integer is unchanged where its new type has it, and a trap where it does not.
pub proof fn law_narrowing_keeps_the_value(v: i128, target: IntTy, span: Span)
    ensures
        narrowed(v, target, span) is Ok <==> in_type(target, v as int),
        narrowed(v, target, span) matches Ok(x) ==> x == ValV::Int(v),
{
}

/// Widening changes no value; narrowing changes none that it does not refuse.
pub proof fn law_conversions_keep_the_value(c: CodeV, p: SiteV, e: Expr, m: MachV, f: FrameV)
    requires
        under_way(p, e, m),
    ensures
        e.kind matches ExprKind::Widen { arg, .. } ==> eval(c, p, e, m, f) == eval(
            c,
            p,
            *arg,
            burned(m),
            f,
        ),
        e.kind matches ExprKind::Narrow { arg, target } ==> (eval_int(
            c,
            p,
            *arg,
            burned(m),
            f,
        ).r matches Ok(n) ==> (eval(c, p, e, m, f).r is Ok <==> in_type(target, n as int)) && (
        eval(c, p, e, m, f).r matches Ok(v) ==> v == ValV::Int(n))),
{
    assert(eval(c, p, e, m, f) == eval_kind(c, p, e, burned(m), f));
    if e.kind is Widen {
        assert(eval_kind(c, p, e, burned(m), f) == eval_widen(c, p, e, burned(m), f));
    }
    if e.kind is Narrow {
        assert(eval_kind(c, p, e, burned(m), f) == eval_narrow(c, p, e, burned(m), f));
    }
}

// ------------------------------------------------------------------------------------------
// Literals and names
// ------------------------------------------------------------------------------------------

/// A literal is its own value, and a name the value that it is bound to, where a copy of it owns
/// nothing a second time. Each costs one unit of fuel and changes nothing else.
pub proof fn law_literals_and_names(c: CodeV, p: SiteV, e: Expr, m: MachV, f: FrameV)
    requires
        under_way(p, e, m),
    ensures
        e.kind matches ExprKind::IntLit(n) ==> eval(c, p, e, m, f).r == Ok::<ValV, TrapV>(
            ValV::Int(n),
        ),
        e.kind matches ExprKind::BoolLit(b) ==> eval(c, p, e, m, f).r == Ok::<ValV, TrapV>(
            ValV::Bool(b),
        ),
        e.kind matches ExprKind::Var(name) ==> (eval(c, p, e, m, f).r matches Ok(v) ==> value_of(
            f.vars,
            name@,
        ) == Some(v) && copyable(v)),
        e.kind matches ExprKind::Var(name) ==> (value_of(f.vars, name@) matches Some(v) ==> (
        copyable(v) ==> eval(c, p, e, m, f).r == Ok::<ValV, TrapV>(v))),
        e.kind is IntLit || e.kind is BoolLit || e.kind is Var ==> eval(c, p, e, m, f).f == f
            && eval(c, p, e, m, f).m == (MachV { fuel: (m.fuel - 1) as u64, ..m }),
{
    assert(eval(c, p, e, m, f) == eval_kind(c, p, e, burned(m), f));
}

/// Without fuel nothing is evaluated: the state is as it was.
pub proof fn law_no_fuel_no_value(c: CodeV, p: SiteV, e: Expr, m: MachV, f: FrameV)
    requires
        m.fuel == 0,
    ensures
        eval(c, p, e, m, f).r is Err,
        eval(c, p, e, m, f).m == m,
        eval(c, p, e, m, f).f == f,
{
}

/// A value that owns leaves the place it is taken from; any other stays.
pub proof fn law_owners_leave_their_place(
    c: CodeV,
    p: SiteV,
    e: Expr,
    m: MachV,
    f: FrameV,
    name: Seq<char>,
)
    requires
        e.kind matches ExprKind::Var(n) && n@ == name,
        eval(c, p, e, m, f).r is Ok,
    ensures
        ({
            let o = eval(c, p, e, m, f);
            let t = eval_moved(c, p, e, m, f);
            &&& t.r == o.r
            &&& owning(o.r->Ok_0) ==> t.m == o.m && t.f.vars == unbind(
                o.f.vars,
                name,
            )
            &&& !owning(o.r->Ok_0) ==> t == o
        }),
{
}

// ------------------------------------------------------------------------------------------
// Lists of expressions
// ------------------------------------------------------------------------------------------

proof fn lemma_list_len(
    c: CodeV,
    p: SiteV,
    args: Seq<Expr>,
    i: nat,
    n: nat,
    acc: Seq<ValV>,
    m: MachV,
    f: FrameV,
)
    requires
        i <= n <= args.len(),
    ensures
        eval_list(c, p, args, i, n, acc, m, f).r matches Ok(vals) ==> vals.len() == acc.len() + n - i
            && vals.take(acc.len() as int) == acc,
    decreases n - i,
{
    if i < n {
        let o = spent(eval(c, p, args[i as int], m, f), m);
        if o.r is Ok {
            let v = o.r->Ok_0;
            lemma_list_len(c, p, args, i + 1, n, acc.push(v), o.m, o.f);
            match eval_list(c, p, args, i, n, acc, m, f).r {
                Ok(vals) => {
                    assert(vals.take(acc.len() as int) =~= vals.take(
                        acc.push(v).len() as int,
                    ).take(acc.len() as int));
                    assert(acc.push(v).take(acc.len() as int) =~= acc);
                },
                Err(_) => {},
            }
        }
    } else {
        assert(acc.take(acc.len() as int) =~= acc);
    }
}

/// Each expression of a list gives one value, in order: the first value is that of the first
/// expression, and the others are those of the rest, in the state that the first left.
pub proof fn law_lists_give_one_value_each(
    c: CodeV,
    p: SiteV,
    args: Seq<Expr>,
    m: MachV,
    f: FrameV,
)
    ensures
        eval_list(c, p, args, 0, args.len(), Seq::empty(), m, f).r matches Ok(vals) ==> vals.len()
            == args.len() && (args.len() > 0 ==> eval(c, p, args[0], m, f).r == Ok::<ValV, TrapV>(
            vals[0],
        )),
        args.len() > 0 && eval(c, p, args[0], m, f).r is Err ==> eval_list(
            c,
            p,
            args,
            0,
            args.len(),
            Seq::empty(),
            m,
            f,
        ).r is Err,
{
    lemma_list_len(c, p, args, 0, args.len(), Seq::empty(), m, f);
    if args.len() > 0 {
        let o = spent(eval(c, p, args[0], m, f), m);
        if o.r is Ok {
            let first = Seq::<ValV>::empty().push(o.r->Ok_0);
            lemma_list_len(c, p, args, 1, args.len(), first, o.m, o.f);
            match eval_list(c, p, args, 0, args.len(), Seq::empty(), m, f).r {
                Ok(vals) => {
                    assert(vals.take(1)[0] == first[0]);
                    assert(vals[0] == vals.take(1)[0]);
                },
                Err(_) => {},
            }
        }
    }
}

proof fn lemma_moved_len(
    c: CodeV,
    p: SiteV,
    args: Seq<Expr>,
    i: nat,
    acc: Seq<ValV>,
    m: MachV,
    f: FrameV,
)
    requires
        i <= args.len(),
    ensures
        moved_list(c, p, args, i, acc, m, f).r matches Ok(vals) ==> vals.len() == acc.len()
            + args.len() - i && vals.take(acc.len() as int) == acc,
    decreases args.len() - i,
{
    if i < args.len() {
        let o = spent(eval_moved(c, p, args[i as int], m, f), m);
        if o.r is Ok {
            let v = o.r->Ok_0;
            lemma_moved_len(c, p, args, i + 1, acc.push(v), o.m, o.f);
            match moved_list(c, p, args, i, acc, m, f).r {
                Ok(vals) => {
                    assert(vals.take(acc.len() as int) =~= vals.take(
                        acc.push(v).len() as int,
                    ).take(acc.len() as int));
                    assert(acc.push(v).take(acc.len() as int) =~= acc);
                },
                Err(_) => {},
            }
        }
    } else {
        assert(acc.take(acc.len() as int) =~= acc);
    }
}

/// Each argument of an initializer or a method gives one value, the first first.
pub proof fn law_arguments_give_one_value_each(
    c: CodeV,
    p: SiteV,
    args: Seq<Expr>,
    m: MachV,
    f: FrameV,
)
    ensures
        moved_list(c, p, args, 0, Seq::empty(), m, f).r matches Ok(vals) ==> vals.len()
            == args.len() && (args.len() > 0 ==> eval_moved(c, p, args[0], m, f).r == Ok::<
            ValV,
            TrapV,
        >(vals[0])),
{
    lemma_moved_len(c, p, args, 0, Seq::empty(), m, f);
    if args.len() > 0 {
        let o = spent(eval_moved(c, p, args[0], m, f), m);
        if o.r is Ok {
            let first = Seq::<ValV>::empty().push(o.r->Ok_0);
            lemma_moved_len(c, p, args, 1, first, o.m, o.f);
            match moved_list(c, p, args, 0, Seq::empty(), m, f).r {
                Ok(vals) => {
                    assert(vals.take(1)[0] == first[0]);
                    assert(vals[0] == vals.take(1)[0]);
                },
                Err(_) => {},
            }
        }
    }
}

// ------------------------------------------------------------------------------------------
// Records and options
// ------------------------------------------------------------------------------------------

proof fn lemma_record_fields(r: RecordDecl, vals: Seq<ValV>, n: nat, k: int)
    requires
        n <= vals.len(),
        n <= r.fields@.len(),
        0 <= k < n,
        forall|i: int, j: int|
            0 <= i < j < r.fields@.len() ==> (#[trigger] r.fields@[i]).name@ != (
            #[trigger] r.fields@[j]).name@,
    ensures
        value_of(record_fields(r, vals, n), r.fields@[k].name@) == Some(vals[k]),
    decreases n,
{
    let last = n - 1;
    let rest = record_fields(r, vals, last as nat);
    law_bind(rest, r.fields@[last].name@, vals[last], r.fields@[k].name@);
    if k < last {
        lemma_record_fields(r, vals, last as nat, k);
    }
}

/// A field of a record is the value that its argument had.
pub proof fn law_record_fields_hold_their_arguments(
    r: RecordDecl,
    vals: Seq<ValV>,
    k: int,
)
    requires
        vals.len() == r.fields@.len(),
        0 <= k < vals.len(),
        forall|i: int, j: int|
            0 <= i < j < r.fields@.len() ==> (#[trigger] r.fields@[i]).name@ != (
            #[trigger] r.fields@[j]).name@,
    ensures
        value_of(record_fields(r, vals, vals.len()), r.fields@[k].name@) == Some(vals[k]),
{
    lemma_record_fields(r, vals, vals.len(), k);
}

/// An option that was made of a value is present and gives that value back; an empty option is
/// absent, and asking it for a value is a trap.
pub proof fn law_options_give_back_their_payload(payload: Ty, v: ValV, a: i128, o: i128, span: Span)
    ensures
        ({
            let some = ValV::Opt { payload, value: Some(Box::new(v)) };
            let none = ValV::Opt { payload, value: None };
            &&& presence(some, span) == Ok::<ValV, TrapV>(ValV::Bool(true))
            &&& payload_value(some, span) == Ok::<ValV, TrapV>(v)
            &&& presence(none, span) == Ok::<ValV, TrapV>(ValV::Bool(false))
            &&& payload_value(none, span) is Err
        }),
        presence(ValV::PtrOpt(Some((a, o))), span) == Ok::<ValV, TrapV>(ValV::Bool(true)),
        payload_value(ValV::PtrOpt(Some((a, o))), span) == Ok::<ValV, TrapV>(ValV::Ptr(a, o)),
        presence(ValV::PtrOpt(None), span) == Ok::<ValV, TrapV>(ValV::Bool(false)),
        payload_value(ValV::PtrOpt(None), span) is Err,
{
}

/// The value of `some` is an option of its operand's value; of `is_some` and `.value`, what that
/// option says.
pub proof fn law_option_values(c: CodeV, p: SiteV, e: Expr, m: MachV, f: FrameV)
    requires
        under_way(p, e, m),
    ensures
        e.kind matches ExprKind::SomeE(inner) ==> (e.ty matches Some(Ty::Option(payload)) ==> (
        !e.ty->Some_0.affine_option() ==> (eval(c, p, *inner, burned(m), f).r matches Ok(v) ==> eval(
            c,
            p,
            e,
            m,
            f,
        ).r == Ok::<ValV, TrapV>(ValV::Opt { payload: *payload, value: Some(Box::new(v)) })))),
        e.kind matches ExprKind::OptValue { operand } ==> (eval(
            c,
            p,
            *operand,
            burned(m),
            f,
        ).r matches Ok(v) ==> (v matches ValV::Opt { value: Some(x), .. } ==> eval(
            c,
            p,
            e,
            m,
            f,
        ).r == Ok::<ValV, TrapV>(*x))),
        e.kind matches ExprKind::OptValue { operand } ==> (eval(
            c,
            p,
            *operand,
            burned(m),
            f,
        ).r matches Ok(v) ==> (v matches ValV::Opt { value: None, .. } ==> eval(
            c,
            p,
            e,
            m,
            f,
        ).r is Err)),
        e.kind matches ExprKind::IsSome { operand } ==> (!(operand.kind is Var) ==> (eval(
            c,
            p,
            *operand,
            burned(m),
            f,
        ).r matches Ok(v) ==> (v matches ValV::Opt { value, .. } ==> eval(c, p, e, m, f).r == Ok::<
            ValV,
            TrapV,
        >(ValV::Bool(value is Some))))),
{
    assert(eval(c, p, e, m, f) == eval_kind(c, p, e, burned(m), f));
    if e.kind is SomeE {
        assert(eval_kind(c, p, e, burned(m), f) == eval_some(c, p, e, burned(m), f));
    }
    if e.kind is OptValue {
        assert(eval_kind(c, p, e, burned(m), f) == eval_opt_value(c, p, e, burned(m), f));
    }
    if e.kind is IsSome {
        assert(eval_kind(c, p, e, burned(m), f) == eval_is_some(c, p, e, burned(m), f));
    }
}

// ------------------------------------------------------------------------------------------
// Arrays
// ------------------------------------------------------------------------------------------

/// Reading an array gives the element at the index, counted from nothing, and is a trap exactly
/// outside its bounds; its length is the number of its elements.
pub proof fn law_arrays_are_read_in_bounds(m: MachV, id: usize, idx: i128, span: Span)
    requires
        m.heap.array(id) is Some,
        m.heap.array(id)->Some_0.values.len() <= i128::MAX,
    ensures
        ({
            let values = m.heap.array(id)->Some_0.values;
            &&& array_get(m, Some(id), idx, span) is Ok <==> 0 <= idx < values.len()
            &&& 0 <= idx < values.len() ==> array_get(m, Some(id), idx, span) == Ok::<ValV, TrapV>(
                values[idx as int],
            )
            &&& array_len(m, Some(id), span) matches Ok(ValV::Int(n)) && n == values.len()
        }),
{
}

/// A store changes one element of one array: reading it back gives what was stored, and every other
/// element of every array is as it was. A store that is refused changes nothing.
pub proof fn law_stores_are_read_back(
    m: MachV,
    id: usize,
    idx: i128,
    v: ValV,
    span: Span,
    other: usize,
    k: i128,
    at: Span,
)
    ensures
        ({
            let s = array_put(m, Some(id), idx, v, span);
            &&& s.0 is Ok <==> {
                &&& m.heap.array(id) is Some
                &&& 0 <= idx < m.heap.array(id)->Some_0.values.len()
                &&& inhabits(v, m.heap.array(id)->Some_0.payload)
            }
            &&& s.0 is Ok ==> array_get(s.1, Some(id), idx, at) == Ok::<ValV, TrapV>(v)
            &&& s.0 is Ok && (other != id || k != idx) ==> array_get(s.1, Some(other), k, at)
                == array_get(m, Some(other), k, at)
            &&& s.0 is Ok ==> array_len(s.1, Some(other), at) == array_len(m, Some(other), at)
            &&& s.0 is Err ==> s.1 == m
        }),
{
}

/// The machine with the heap of another.
pub open spec fn only_heap_differs(a: MachV, b: MachV) -> bool {
    a == (MachV { heap: a.heap, ..b })
}

/// A new array has an identity that none had before, and holds what it was made of: the elements of
/// a literal in order, or as many copies of the initial value as were asked for. No other array
/// changes.
pub proof fn law_new_arrays_hold_their_values(
    m: MachV,
    payload: Ty,
    values: Seq<ValV>,
    n: i128,
    v: ValV,
    span: Span,
    other: usize,
)
    requires
        m.heap.arrays.len() < usize::MAX,
    ensures
        ({
            let s = literal_array(m, payload, values, span);
            &&& s.0 matches Ok(x) ==> {
                &&& x matches ValV::Arr(id)
                &&& m.heap.array(id) is None
                &&& s.1.heap.array(id) matches Some(a) && a.values == values && a.payload == payload
                &&& other != id ==> s.1.heap.array(other) == m.heap.array(other)
                &&& only_heap_differs(s.1, m)
            }
            &&& s.0 is Err ==> s.1 == m
        }),
        ({
            let s = allocate_array(m, payload, n, v, span);
            &&& s.0 matches Ok(x) ==> {
                &&& x matches ValV::Arr(id)
                &&& m.heap.array(id) is None
                &&& s.1.heap.array(id) matches Some(a) && a.values.len() == n && a.payload == payload
                    && forall|i: int| 0 <= i < n ==> #[trigger] a.values[i] == v
                &&& other != id ==> s.1.heap.array(other) == m.heap.array(other)
                &&& only_heap_differs(s.1, m)
            }
            &&& s.0 is Ok <==> 0 <= n <= MAX_ELEMENTS && inhabits(v, payload)
            &&& s.0 is Err ==> s.1 == m
        }),
{
}

/// The value of an index expression is the element that the evaluated index names.
pub proof fn law_index_values(c: CodeV, p: SiteV, e: Expr, m: MachV, f: FrameV, id: usize)
    requires
        under_way(p, e, m),
        e.kind is Index,
    ensures
        ({
            let o = eval_int(c, p, *e.kind->Index_index, burned(m), f);
            o.r matches Ok(idx) ==> (value_of(o.f.vars, e.kind->Index_array@) == Some(ValV::Arr(id))
                ==> (o.m.heap.array(id) matches Some(a) ==> (eval(c, p, e, m, f).r is Ok <==> 0 <= idx
                < a.values.len()) && (eval(c, p, e, m, f).r matches Ok(v) ==> v
                == a.values[idx as int])))
        }),
{
    assert(eval(c, p, e, m, f) == eval_kind(c, p, e, burned(m), f));
    assert(eval_kind(c, p, e, burned(m), f) == eval_index(c, p, e, burned(m), f));
}

// ------------------------------------------------------------------------------------------
// Followed maps
// ------------------------------------------------------------------------------------------

/// A key that was put into a map is there and can be taken; a key that was taken is gone. Putting a
/// key that is there, and taking one that is not, is a trap that changes nothing.
pub proof fn law_maps_hold_each_key_once(m: MachV, id: usize, key: i128, other: i128, span: Span)
    requires
        m.heap.map(id) is Some,
        m.heap.map(id)->Some_0.no_duplicates(),
    ensures
        ({
            let keys = m.heap.map(id)->Some_0;
            let put = map_put(m, id, key, span);
            let took = map_take(m, id, key, span);
            &&& put.0 is Ok <==> !keys.contains(key)
            &&& took.0 is Ok <==> keys.contains(key)
            &&& put.0 is Ok ==> {
                &&& put.1.heap.map(id) matches Some(after)
                &&& after.no_duplicates()
                &&& after.contains(key)
                &&& other != key ==> (after.contains(other) <==> keys.contains(other))
            }
            &&& took.0 is Ok ==> {
                &&& took.1.heap.map(id) matches Some(after)
                &&& after.no_duplicates()
                &&& !after.contains(key)
                &&& other != key ==> (after.contains(other) <==> keys.contains(other))
            }
            &&& put.0 is Err ==> put.1 == m
            &&& took.0 is Err ==> took.1 == m
        }),
{
    let keys = m.heap.map(id)->Some_0;
    let put = map_put(m, id, key, span);
    let took = map_take(m, id, key, span);
    if put.0 is Ok {
        let after = put.1.heap.map(id)->Some_0;
        assert(after =~= keys.push(key));
        assert(after[keys.len() as int] == key);
        if keys.contains(other) {
            let i = keys.index_of(other);
            assert(after[i] == other);
        }
        if after.contains(other) && other != key {
            let i = after.index_of(other);
            assert(keys[i] == other);
        }
    }
    if took.0 is Ok {
        keys.index_of_first_ensures(key);
        let i = keys.index_of_first(key)->Some_0;
        let after = took.1.heap.map(id)->Some_0;
        assert(after =~= keys.remove(i));
        assert forall|x: int, y: int| 0 <= x < after.len() && 0 <= y < after.len() && x
            != y implies after[x] != after[y] by {
            let u = if x < i {
                x
            } else {
                x + 1
            };
            let w = if y < i {
                y
            } else {
                y + 1
            };
            assert(keys[u] != keys[w]);
        }
        if after.contains(key) {
            let j = after.index_of(key);
            let u = if j < i {
                j
            } else {
                j + 1
            };
            assert(keys[u] == key && keys[i] == key && u != i);
        }
        if keys.contains(other) && other != key {
            let j = keys.index_of(other);
            let u = if j < i {
                j
            } else {
                j - 1
            };
            assert(after[u] == other);
        }
        if after.contains(other) {
            let j = after.index_of(other);
            let u = if j < i {
                j
            } else {
                j + 1
            };
            assert(keys[u] == other);
        }
    }
}

// ------------------------------------------------------------------------------------------
// Declarations
// ------------------------------------------------------------------------------------------

/// A call means the last function of its name.
pub proof fn law_functions_are_found_by_name(
    fns: Seq<FnDecl>,
    name: Seq<char>,
    n: nat,
    k: int,
)
    requires
        n <= fns.len(),
        0 <= k < n,
    ensures
        fn_at(fns, name, n) matches Some(i) ==> i < n && fns[i as int].name@ == name && (k > i
            ==> fns[k].name@ != name),
        fn_at(fns, name, n) is None ==> fns[k].name@ != name,
    decreases n,
{
    if fns[n - 1].name@ != name {
        if n == 1 {
            assert(fn_at(fns, name, 0) is None);
        } else if k < n - 1 {
            law_functions_are_found_by_name(fns, name, (n - 1) as nat, k);
        } else {
            law_functions_are_found_by_name(fns, name, (n - 1) as nat, 0);
        }
    }
}

/// A construction means the first class of its name.
pub proof fn law_classes_are_found_by_name(
    classes: Seq<ClassDecl>,
    name: Seq<char>,
    i: nat,
)
    ensures
        class_at(classes, name, i) matches Some(k) ==> i <= k < classes.len()
            && classes[k as int].name@ == name && forall|x: int|
            i <= x < k ==> (#[trigger] classes[x]).name@ != name,
        class_at(classes, name, i) is None ==> forall|x: int|
            i <= x < classes.len() ==> (#[trigger] classes[x]).name@ != name,
    decreases classes.len() - i,
{
    if i < classes.len() && classes[i as int].name@ != name {
        law_classes_are_found_by_name(classes, name, i + 1);
    }
}

/// A record literal means the first record of its name.
pub proof fn law_records_are_found_by_name(
    records: Seq<RecordDecl>,
    name: Seq<char>,
    i: nat,
)
    ensures
        record_at(records, name, i) matches Some(k) ==> i <= k < records.len()
            && records[k as int].name@ == name && forall|x: int|
            i <= x < k ==> (#[trigger] records[x]).name@ != name,
        record_at(records, name, i) is None ==> forall|x: int|
            i <= x < records.len() ==> (#[trigger] records[x]).name@ != name,
    decreases records.len() - i,
{
    if i < records.len() && records[i as int].name@ != name {
        law_records_are_found_by_name(records, name, i + 1);
    }
}

/// A member means the first of its name in its class.
pub proof fn law_members_are_found_by_name(
    class: ClassDecl,
    name: Seq<char>,
    i: nat,
)
    ensures
        init_at(class, name, i) matches Some(k) ==> i <= k < class.inits@.len()
            && class.inits@[k as int].name@ == name && forall|x: int|
            i <= x < k ==> (#[trigger] class.inits@[x]).name@ != name,
        init_at(class, name, i) is None ==> forall|x: int|
            i <= x < class.inits@.len() ==> (#[trigger] class.inits@[x]).name@ != name,
        method_at(class, name, i) matches Some(k) ==> i <= k < class.methods@.len()
            && class.methods@[k as int].f.name@ == name && forall|x: int|
            i <= x < k ==> (#[trigger] class.methods@[x]).f.name@ != name,
        method_at(class, name, i) is None ==> forall|x: int|
            i <= x < class.methods@.len() ==> (#[trigger] class.methods@[x]).f.name@ != name,
    decreases class.inits@.len() + class.methods@.len() - i,
{
    if i < class.inits@.len() || i < class.methods@.len() {
        law_members_are_found_by_name(class, name, i + 1);
    }
}

// ------------------------------------------------------------------------------------------
// Compound expressions
// ------------------------------------------------------------------------------------------

/// A call evaluates its arguments and then runs the function that its name means, in the state that
/// the arguments left; it gives what that gives and leaves the frame as the arguments left it.
pub proof fn law_call_values(c: CodeV, p: SiteV, e: Expr, m: MachV, f: FrameV, i: nat)
    requires
        under_way(p, e, m),
        e.kind is Call,
        fn_at(c.fns, e.kind->Call_callee@, c.fns.len()) == Some(i),
        c.fns[i as int].foreign is None,
    ensures
        ({
            let g = c.fns[i as int];
            let o = spent(
                call_args(c, p, g, e.kind->Call_args@, 0, Seq::empty(), burned(m), f),
                burned(m),
            );
            let after = eval(c, p, e, m, f);
            &&& o.r matches Ok(vals) ==> after.r == call(c, g, vals, o.m).0 && after.m == call(
                c,
                g,
                vals,
                o.m,
            ).1 && after.f == o.f
            &&& o.r matches Err(t) ==> after.r == Err::<ValV, TrapV>(t)
        }),
{
    assert(eval(c, p, e, m, f) == eval_kind(c, p, e, burned(m), f));
    assert(eval_kind(c, p, e, burned(m), f) == eval_call(c, p, e, burned(m), f));
}

proof fn lemma_call_args(
    c: CodeV,
    p: SiteV,
    g: FnDecl,
    args: Seq<Expr>,
    i: nat,
    acc: Seq<ValV>,
    m: MachV,
    f: FrameV,
)
    requires
        i <= args.len(),
        args.len() == g.params@.len(),
        forall|k: int| i <= k < args.len() ==> !stays_behind(g, (#[trigger] g.params@[k]).ty),
    ensures
        call_args(c, p, g, args, i, acc, m, f) == moved_list(c, p, args, i, acc, m, f),
    decreases args.len() - i,
{
    if i < args.len() {
        assert(!stays_behind(g, g.params@[i as int].ty));
        let o = spent(eval_moved(c, p, args[i as int], m, f), m);
        if o.r is Ok {
            lemma_call_args(c, p, g, args, i + 1, acc.push(o.r->Ok_0), o.m, o.f);
        }
    }
}

/// Where every parameter has a runtime value, every argument is passed, in order.
pub proof fn law_calls_pass_every_argument(
    c: CodeV,
    p: SiteV,
    g: FnDecl,
    args: Seq<Expr>,
    m: MachV,
    f: FrameV,
)
    requires
        args.len() == g.params@.len(),
        forall|k: int| 0 <= k < args.len() ==> !stays_behind(g, (#[trigger] g.params@[k]).ty),
    ensures
        call_args(c, p, g, args, 0, Seq::empty(), m, f).r matches Ok(vals) ==> vals.len()
            == args.len() && (args.len() > 0 ==> eval_moved(c, p, args[0], m, f).r == Ok::<
            ValV,
            TrapV,
        >(vals[0])),
{
    lemma_call_args(c, p, g, args, 0, Seq::empty(), m, f);
    law_arguments_give_one_value_each(c, p, args, m, f);
}

/// A construction evaluates its arguments and runs the initializer of its class; a method call those
/// of its method, on the object that its receiver names.
pub proof fn law_member_call_values(c: CodeV, p: SiteV, e: Expr, m: MachV, f: FrameV)
    requires
        under_way(p, e, m),
    ensures
        e.kind matches ExprKind::CtorCall { class, init, args, .. } ==> (class_at(
            c.classes,
            class@,
            0,
        ) matches Some(ci) ==> {
            let o = spent(moved_list(c, p, args@, 0, Seq::empty(), burned(m), f), burned(m));
            o.r matches Ok(vals) ==> eval(c, p, e, m, f).r == construct(
                c,
                ci as usize,
                init@,
                vals,
                e.span,
                o.m,
            ).0 && eval(c, p, e, m, f).m == construct(c, ci as usize, init@, vals, e.span, o.m).1
        }),
        e.kind matches ExprKind::MethodCall { recv, method, args, .. } ==> (value_of(
            f.vars,
            recv@,
        ) matches Some(ValV::Obj { class, fields }) ==> {
            let o = spent(moved_list(c, p, args@, 0, Seq::empty(), burned(m), f), burned(m));
            o.r matches Ok(vals) ==> eval(c, p, e, m, f).r == invoke(
                c,
                class,
                method@,
                fields,
                vals,
                e.span,
                o.m,
            ).0 && eval(c, p, e, m, f).m == invoke(c, class, method@, fields, vals, e.span, o.m).1
        }),
{
    assert(eval(c, p, e, m, f) == eval_kind(c, p, e, burned(m), f));
    if e.kind is CtorCall {
        assert(eval_kind(c, p, e, burned(m), f) == eval_ctor(c, p, e, burned(m), f));
    }
    if e.kind is MethodCall {
        assert(eval_kind(c, p, e, burned(m), f) == eval_method(c, p, e, burned(m), f));
    }
}

/// A field of an object and of a record is what the object or the record holds under its name; a
/// length is the number of elements. Reading changes nothing.
pub proof fn law_field_values(c: CodeV, p: SiteV, e: Expr, m: MachV, f: FrameV, v: ValV, id: usize)
    requires
        under_way(p, e, m),
        copyable(v),
    ensures
        e.kind matches ExprKind::ClassField { obj, field, .. } ==> (value_of(
            f.vars,
            obj@,
        ) matches Some(ValV::Obj { fields, .. }) ==> (m.heap.object(fields) matches Some(held) ==> (
        value_of(held, field@) == Some(v) ==> eval(c, p, e, m, f).r == Ok::<ValV, TrapV>(v)))),
        e.kind matches ExprKind::SelfField { field } ==> (f.self_ctx matches Some((_, own)) ==> (
        m.heap.object(own) matches Some(held) ==> (value_of(held, field@) == Some(v) ==> eval(
            c,
            p,
            e,
            m,
            f,
        ).r == Ok::<ValV, TrapV>(v)))),
        e.kind matches ExprKind::RecordField { obj, field, .. } ==> (value_of(
            f.vars,
            obj@,
        ) matches Some(ValV::Record { fields, .. }) ==> (value_of(fields, field@) == Some(v) ==> eval(
            c,
            p,
            e,
            m,
            f,
        ).r == Ok::<ValV, TrapV>(v))),
        e.kind matches ExprKind::Len { array } ==> (value_of(f.vars, array@) == Some(ValV::Arr(id))
            ==> (m.heap.array(id) matches Some(a) ==> (a.values.len() <= i128::MAX ==> (eval(
            c,
            p,
            e,
            m,
            f,
        ).r matches Ok(ValV::Int(n)) && n == a.values.len())))),
        e.kind is ClassField || e.kind is SelfField || e.kind is RecordField || e.kind is Len ==> eval(
            c,
            p,
            e,
            m,
            f,
        ).m == burned(m) && eval(c, p, e, m, f).f == f,
{
    assert(eval(c, p, e, m, f) == eval_kind(c, p, e, burned(m), f));
}

/// A record literal is the record that its name means, with a field for each argument; an array
/// literal a new array of its elements; a raw operation what raw storage does with its operands.
pub proof fn law_literal_values(c: CodeV, p: SiteV, e: Expr, m: MachV, f: FrameV)
    requires
        under_way(p, e, m),
    ensures
        e.kind matches ExprKind::RecordLit { record, args } ==> (record_at(
            c.records,
            record@,
            0,
        ) matches Some(ri) ==> {
            let r = c.records[ri as int];
            let o = eval_list(c, p, args@, 0, r.fields@.len(), Seq::empty(), burned(m), f);
            o.r matches Ok(vals) ==> (eval(c, p, e, m, f).r matches Ok(v) && v == (ValV::Record {
                record: ri as usize,
                fields: record_fields(r, vals, vals.len()),
            }))
        }),
        e.kind matches ExprKind::ArrayLit(elems) ==> (e.ty matches Some(Ty::Array(payload)) ==> {
            let o = eval_list(c, p, elems@, 0, elems@.len(), Seq::empty(), burned(m), f);
            o.r matches Ok(values) ==> eval(c, p, e, m, f).r == literal_array(
                o.m,
                *payload,
                values,
                e.span,
            ).0 && eval(c, p, e, m, f).m == literal_array(o.m, *payload, values, e.span).1
        }),
        e.kind matches ExprKind::RawOp { op, args } ==> {
            let o = eval_list(c, p, args@, 0, args@.len(), Seq::empty(), burned(m), f);
            o.r matches Ok(vals) ==> eval(c, p, e, m, f).r == raw_step(
                o.m.raw,
                c.records,
                op,
                vals,
                e.span,
            ).0 && eval(c, p, e, m, f).m.raw == raw_step(o.m.raw, c.records, op, vals, e.span).1
        },
        e.kind matches ExprKind::AllocArray { elem, len, init } ==> {
            let o = spent(eval_int(c, p, *len, burned(m), f), burned(m));
            let q = eval(c, p, *init, o.m, o.f);
            o.r matches Ok(n) ==> (q.r matches Ok(v) ==> eval(c, p, e, m, f).r == allocate_array(
                q.m,
                elem,
                n,
                v,
                e.span,
            ).0)
        },
{
    assert(eval(c, p, e, m, f) == eval_kind(c, p, e, burned(m), f));
    if e.kind is RecordLit {
        assert(eval_kind(c, p, e, burned(m), f) == eval_record(c, p, e, burned(m), f));
    }
    if e.kind is ArrayLit {
        assert(eval_kind(c, p, e, burned(m), f) == eval_array_lit(c, p, e, burned(m), f));
    }
    if e.kind is RawOp {
        assert(eval_kind(c, p, e, burned(m), f) == eval_raw(c, p, e, burned(m), f));
    }
    if e.kind is AllocArray {
        assert(eval_kind(c, p, e, burned(m), f) == eval_alloc(c, p, e, burned(m), f));
    }
}

/// Where the first operand of a logical operator leaves the answer open, the second is the answer.
pub proof fn law_logical_values(c: CodeV, p: SiteV, e: Expr, m: MachV, f: FrameV)
    requires
        under_way(p, e, m),
        e.kind is Binary,
    ensures
        ({
            let o = spent(eval_bool(c, p, *e.kind->Binary_lhs, burned(m), f), burned(m));
            let q = eval_bool(c, p, *e.kind->Binary_rhs, o.m, o.f);
            let v = eval(c, p, e, m, f).r;
            &&& e.kind->Binary_op is And ==> (o.r matches Ok(a) ==> (a ==> (q.r matches Ok(b) ==> v
                == Ok::<ValV, TrapV>(ValV::Bool(a && b)))) && (!a ==> v == Ok::<ValV, TrapV>(
                ValV::Bool(false),
            )))
            &&& e.kind->Binary_op is Or ==> (o.r matches Ok(a) ==> (!a ==> (q.r matches Ok(b) ==> v
                == Ok::<ValV, TrapV>(ValV::Bool(a || b)))) && (a ==> v == Ok::<ValV, TrapV>(
                ValV::Bool(true),
            )))
        }),
{
    assert(eval(c, p, e, m, f) == eval_kind(c, p, e, burned(m), f));
    assert(eval_kind(c, p, e, burned(m), f) == eval_binary(c, p, e, burned(m), f));
}

/// A borrow of a local, of the object at hand, and of a field of either, shares what they name.
pub proof fn law_borrows_share(m: MachV, f: FrameV, base: Seq<char>, span: Span, id: usize, class: usize)
    ensures
        base != "self"@ && value_of(f.vars, base) == Some(ValV::Arr(id)) ==> borrowed(
            m,
            f,
            base,
            None,
            span,
        ) == Ok::<ValV, TrapV>(ValV::Arr(id)),
        f.self_ctx == Some((class, id)) ==> borrowed(m, f, "self"@, None, span) == Ok::<
            ValV,
            TrapV,
        >(ValV::Obj { class, fields: id }),
{
}

} // verus!
