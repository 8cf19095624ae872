//! Whole programs, and the steps they are made of.
use sable::ast::{
    BinOp, Clause, ClauseKind, DeviceOp, Expr, ExprKind, FnDecl, ForeignInfo, IntTy, Param,
    Program, RawOp, ResOp, Stmt, Ty, UnOp,
};
use sable::bindings::Binding;
use sable::devices::{MmioEvent, PosixWorld, ScriptedUart};
use sable::heap::Heap;
use sable::machine::{Frame, Machine, FUEL};
use sable::rawheap::RawHeap;
use sable::run::{
    run_checked_fn, run_checked_fn_observed, run_checked_tests, run_tests, run_unchecked_fn,
    run_unchecked_fn_observed, run_verified_fn, CheckedProgram, ModuleSet, VerifiedProgram,
};
use sable::span::Span;
use sable::steps::{compute, narrow, negate};
use sable::value::{RtArray, RtVal};

fn at(start: usize) -> Span {
    Span::new(start, start + 1)
}

fn typed(kind: ExprKind, span: Span, ty: Ty) -> Expr {
    Expr {
        kind,
        span,
        ty: Some(ty),
    }
}

fn int_at(n: i128, span: Span) -> Expr {
    typed(ExprKind::IntLit(n), span, Ty::Int(IntTy::I64))
}

fn boolean(b: bool, span: Span) -> Expr {
    typed(ExprKind::BoolLit(b), span, Ty::Bool)
}

fn var(name: &str, span: Span) -> Expr {
    typed(ExprKind::Var(name.into()), span, Ty::Int(IntTy::I64))
}

fn binary(op: BinOp, lhs: Expr, rhs: Expr, span: Span, ty: Ty) -> Expr {
    typed(
        ExprKind::Binary {
            op,
            op_span: span,
            lhs: Box::new(lhs),
            rhs: Box::new(rhs),
        },
        span,
        ty,
    )
}

fn clause(kind: ClauseKind, text: &str, start: usize) -> Clause {
    Clause {
        kind,
        label: None,
        fact: false,
        unfold: false,
        text: text.into(),
        span: at(start),
        line_span: at(start),
    }
}

fn function(name: &str, start: usize, ret: Ty, body: Vec<Stmt>) -> FnDecl {
    FnDecl {
        foreign: None,
        name: name.into(),
        name_span: at(start),
        type_params: Vec::new(),
        params: Vec::new(),
        ret,
        pres: Vec::new(),
        posts: Vec::new(),
        body,
        span: at(start),
    }
}

fn program(fns: Vec<FnDecl>) -> Program {
    Program {
        fns,
        fn_templates: Vec::new(),
        classes: Vec::new(),
        class_templates: Vec::new(),
        records: Vec::new(),
    }
}

fn give_back(e: Expr, start: usize) -> Stmt {
    Stmt::Return {
        value: Some(e),
        span: at(start),
    }
}

fn declare(name: &str, start: usize, ty: Ty, init: Expr) -> Stmt {
    Stmt::Decl {
        ty,
        name: name.into(),
        name_span: at(start),
        init: Some(init),
        mutable: true,
    }
}

fn assign(name: &str, start: usize, value: Expr) -> Stmt {
    Stmt::Assign {
        name: name.into(),
        name_span: at(start),
        value,
    }
}

fn module() -> ModuleSet {
    ModuleSet::single("m.sable".into(), "0123456789\nabcdefghij\n".into())
}

fn run(p: &Program) -> Result<RtVal, String> {
    run_unchecked_fn(p, &module(), "subject").map(|r| r.value)
}

fn i64_ty() -> Ty {
    Ty::Int(IntTy::I64)
}

/// Sums the numbers from `n` down to one.
fn summing(variant: &str) -> Program {
    let body = vec![
        declare("n", 100, i64_ty(), int_at(4, at(101))),
        declare("total", 110, i64_ty(), int_at(0, at(111))),
        Stmt::While {
            cond: binary(BinOp::Gt, var("n", at(121)), int_at(0, at(122)), at(120), Ty::Bool),
            invariants: vec![clause(ClauseKind::Invariant, "n >= 0", 123)],
            variant: Some(clause(ClauseKind::Variant, variant, 124)),
            kw_span: at(125),
            body: vec![
                assign(
                    "total",
                    130,
                    binary(BinOp::Add, var("total", at(132)), var("n", at(133)), at(131), i64_ty()),
                ),
                assign(
                    "n",
                    140,
                    binary(BinOp::Sub, var("n", at(142)), int_at(1, at(143)), at(141), i64_ty()),
                ),
            ],
        },
        give_back(var("total", at(151)), 150),
    ];
    program(vec![function("subject", 90, i64_ty(), body)])
}

#[test]
fn loops_run_to_their_end() {
    assert!(matches!(run(&summing("n")), Ok(RtVal::Int(10))));
}

#[test]
fn loop_measures_must_fall_and_stay_nonnegative() {
    assert_eq!(
        run(&summing("total")).unwrap_err(),
        "loop variant did not decrease (0 → 4): total"
    );
    assert_eq!(
        run(&summing("n - 5")).unwrap_err(),
        "loop variant is negative (-1): n - 5"
    );
}

#[test]
fn contracts_are_monitored() {
    let mut callee = function(
        "half",
        10,
        i64_ty(),
        vec![give_back(
            binary(BinOp::Div, var("x", at(12)), int_at(2, at(13)), at(11), i64_ty()),
            14,
        )],
    );
    callee.params.push(Param {
        name: "x".into(),
        ty: i64_ty(),
        span: at(15),
        consumes: false,
    });
    callee.pres.push(clause(ClauseKind::Pre, "x > 0", 16));
    callee.posts.push(clause(ClauseKind::Post, "result < x", 17));
    let call = |n: i128| {
        typed(
            ExprKind::Call {
                callee: "half".into(),
                callee_span: at(21),
                type_args: Vec::new(),
                args: vec![int_at(n, at(22))],
            },
            at(20),
            i64_ty(),
        )
    };
    let mut p = program(vec![
        callee,
        function("subject", 30, i64_ty(), vec![give_back(call(7), 31)]),
    ]);
    assert!(matches!(run(&p), Ok(RtVal::Int(3))));
    p.fns[1].body = vec![give_back(call(0), 31)];
    let error = run(&p).unwrap_err();
    assert!(error.contains("pre of `half`") && error.contains("x > 0"), "{error}");
    p.fns[0].posts = vec![clause(ClauseKind::Post, "result > x", 17)];
    p.fns[1].body = vec![give_back(call(7), 31)];
    let error = run(&p).unwrap_err();
    assert!(error.contains("post of `half`"), "{error}");
}

#[test]
fn logical_operators_stop_early() {
    let zero = || {
        binary(
            BinOp::Eq,
            binary(BinOp::Div, int_at(1, at(51)), int_at(0, at(52)), at(50), i64_ty()),
            int_at(0, at(53)),
            at(54),
            Ty::Bool,
        )
    };
    for (op, first) in [(BinOp::And, false), (BinOp::Or, true)] {
        let e = binary(op, boolean(first, at(41)), zero(), at(40), Ty::Bool);
        let p = program(vec![function("subject", 30, Ty::Bool, vec![give_back(e, 31)])]);
        assert!(matches!(run(&p), Ok(RtVal::Bool(b)) if b == first));
        let e = binary(op, boolean(!first, at(41)), zero(), at(40), Ty::Bool);
        let p = program(vec![function("subject", 30, Ty::Bool, vec![give_back(e, 31)])]);
        assert_eq!(run(&p).unwrap_err(), "division by zero");
    }
}

#[test]
fn arithmetic_is_exact_or_traps() {
    let e = |ty: IntTy| typed(ExprKind::IntLit(0), Span::new(2, 5), Ty::Int(ty));
    let source = "0123456789";
    let eval = |op: BinOp, a: i128, b: i128, ty: IntTy| {
        compute(source, op, a, b, &e(ty), at(7)).map_err(|t| t.message)
    };
    for (op, a, b, expected) in [
        (BinOp::Add, 3, 4, 7),
        (BinOp::Sub, 3, 4, -1),
        (BinOp::Mul, -3, 4, -12),
        (BinOp::Div, -7, 2, -4),
        (BinOp::Rem, -7, 2, 1),
        (BinOp::Div, 7, -2, -3),
        (BinOp::Rem, 7, -2, 1),
        (BinOp::Div, -7, -2, 4),
        (BinOp::Rem, -7, -2, 1),
    ] {
        let Ok(RtVal::Int(n)) = eval(op, a, b, IntTy::I64) else {
            panic!("{a} {op:?} {b} has a value")
        };
        assert_eq!(n, expected, "{a} {op:?} {b}");
    }
    assert_eq!(
        eval(BinOp::Add, 100, 100, IntTy::I8).unwrap_err(),
        "overflow: `234` = 200 does not fit in `i8` (+)"
    );
    assert_eq!(eval(BinOp::Rem, 1, 0, IntTy::U8).unwrap_err(), "division by zero");
    assert_eq!(
        eval(BinOp::Div, -128, -1, IntTy::I8).unwrap_err(),
        "Euclidean quotient overflows: i8.min / -1"
    );
    assert_eq!(
        eval(BinOp::Mul, i128::MAX, 2, IntTy::I64).unwrap_err(),
        "multiplication exceeds i128 (ghost width)"
    );
    assert!(matches!(narrow(255, IntTy::U8, at(0)), Ok(RtVal::Int(255))));
    assert_eq!(
        narrow(256, IntTy::U8, at(0)).unwrap_err().message,
        "narrow out of range: 256 does not fit in `u8`"
    );
    assert!(matches!(negate(source, -5, &e(IntTy::I8)), Ok(RtVal::Int(5))));
    assert_eq!(
        negate(source, 1, &e(IntTy::U8)).unwrap_err().message,
        "overflow: `234` = -1 does not fit in `u8` (negation)"
    );
    let not = typed(
        ExprKind::Unary { op: UnOp::Not, operand: Box::new(boolean(true, at(41))) },
        at(40),
        Ty::Bool,
    );
    let p = program(vec![function("subject", 30, Ty::Bool, vec![give_back(not, 31)])]);
    assert!(matches!(run(&p), Ok(RtVal::Bool(false))));
}

#[test]
fn every_test_is_reported_by_name_in_order() {
    let failing = function(
        "test_b",
        20,
        Ty::Unit,
        vec![Stmt::Assert(clause(ClauseKind::Assert, "1 = 2", 14))],
    );
    let skipping = function(
        "test_c",
        40,
        Ty::Unit,
        vec![Stmt::Assert(clause(ClauseKind::Assert, "forall x, p x", 15))],
    );
    let p = program(vec![
        function("test_a", 10, Ty::Unit, Vec::new()),
        function("helper", 30, Ty::Unit, Vec::new()),
        failing,
        skipping,
    ]);
    let reports = run_tests(&p, &module());
    let names: Vec<&str> = reports.iter().map(|r| r.name.as_str()).collect();
    assert_eq!(names, ["test_a", "test_b", "test_c"]);
    assert!(reports[0].outcome.is_ok());
    assert_eq!(
        reports[1].outcome.as_ref().unwrap_err(),
        "inline assert violated: 1 = 2 (m.sable:2:4)"
    );
    assert!(reports[2].outcome.is_ok());
    assert_eq!(reports[2].skipped.len(), 1);

    let checked = CheckedProgram::seal(p).expect("the program has a plan");
    assert_eq!(run_checked_tests(&checked, &module()).len(), 3);

    let refused = program(vec![function("test_a", 10, Ty::option(Ty::Record(0)), Vec::new())]);
    let reports = run_tests(&refused, &module());
    assert_eq!(reports.len(), 1);
    assert!(reports[0]
        .outcome
        .as_ref()
        .unwrap_err()
        .starts_with("interp.aggregate_payload_unsupported:"));
}

#[test]
fn checked_and_verified_programs_run_under_their_own_plan() {
    let checked = CheckedProgram::seal(summing("n")).expect("the program has a plan");
    assert!(matches!(
        run_checked_fn(&checked, &module(), "subject").map(|r| r.value),
        Ok(RtVal::Int(10))
    ));
    let seen = run_checked_fn_observed(&checked, &module(), "subject");
    assert!(seen.mmio.is_empty() && seen.uart_profile.is_none());
    let verified = VerifiedProgram { checked };
    assert!(matches!(
        run_verified_fn(&verified, &module(), "subject").map(|r| r.value),
        Ok(RtVal::Int(10))
    ));
}

#[test]
fn device_accesses_are_observed() {
    let res = |op: ResOp, args: Vec<Expr>, start: usize| {
        Stmt::ExprStmt(typed(ExprKind::ResOp { op, args }, at(start), Ty::Unit))
    };
    let device = |op: DeviceOp, args: Vec<Expr>, start: usize, ty: Ty| {
        typed(ExprKind::DeviceOp { op, args }, at(start), ty)
    };
    let mut frame = Frame::new(None);
    let mut m = Machine::new(FUEL);
    assert!(m.uart_status(at(1)).is_err());
    m.select_uart(0);
    assert!(m.uart_write(65, at(2)).is_err(), "the transmitter was not asked before");
    assert!(matches!(m.uart_status(at(3)), Ok(RtVal::Int(1))));
    assert!(m.uart_write(65, at(4)).is_ok());
    frame.set_var("x", RtVal::Unit);
    let uart = m.uart.as_ref().unwrap();
    assert_eq!(
        uart.events,
        vec![
            MmioEvent::Read { address: 4096, width: 8, value: 1 },
            MmioEvent::Write { address: 4097, width: 8, value: 65 },
        ]
    );
    let mut slow = ScriptedUart::new(1);
    assert_eq!([slow.status(), slow.status(), slow.status()], [0, 0, 1]);

    let p = program(vec![function(
        "subject",
        30,
        Ty::Unit,
        vec![
            res(ResOp::TestUart, vec![int_at(0, at(41))], 40),
            Stmt::ExprStmt(device(DeviceOp::UartStatus, Vec::new(), 50, Ty::Int(IntTy::U8))),
        ],
    )]);
    let seen = run_unchecked_fn_observed(&p, &module(), "subject");
    assert_eq!(seen.uart_profile, Some(0), "{:?}", seen.outcome);
    assert_eq!(seen.uart_cursor, 1);
    assert_eq!(seen.mmio.len(), 1);
}

#[test]
fn descriptors_are_adopted_once() {
    let mut m = Machine::new(FUEL);
    m.select_world(0);
    let world: &PosixWorld = m.world.as_ref().unwrap();
    let fd = 0;
    assert!(fd < world.fds);
    let beyond = world.fds;
    assert!(m.adopt(fd, at(1)).is_ok());
    assert_eq!(
        m.adopt(fd, at(2)).unwrap_err().message,
        "open_file: descriptor 0's authority has already been handed out"
    );
    assert_eq!(
        m.adopt(beyond, at(3)).unwrap_err().message,
        format!("open_file: descriptor {beyond} is not open in this world")
    );
}

#[test]
fn raw_bytes_and_cells_give_back_what_was_put_in() {
    let mut raw = RawHeap::new();
    let a = raw.fresh(vec![None; 16]);
    let p = |off: i128| RtVal::Ptr(a, off);
    let none = [];
    assert!(raw.step(&none, RawOp::Load8, &vec![p(3)], at(1)).is_err());
    assert!(raw.step(&none, RawOp::Store8, &vec![p(3), RtVal::Int(9)], at(1)).is_ok());
    assert!(matches!(
        raw.step(&none, RawOp::Load8, &vec![p(3)], at(1)),
        Ok(RtVal::Int(9))
    ));
    assert!(raw.step(&none, RawOp::Load8, &vec![p(4)], at(1)).is_err());
    assert!(raw.step(&none, RawOp::Load8, &vec![p(16)], at(1)).is_err());

    assert!(raw.step(&none, RawOp::IntoCellU64, &vec![p(8)], at(1)).is_ok());
    assert!(raw.step(&none, RawOp::CellReadU64, &vec![p(8)], at(1)).is_err());
    assert!(raw
        .step(&none, RawOp::CellInitU64, &vec![p(8), RtVal::Int(77)], at(1))
        .is_ok());
    assert!(raw
        .step(&none, RawOp::CellInitU64, &vec![p(8), RtVal::Int(78)], at(1))
        .is_err());
    assert!(matches!(
        raw.step(&none, RawOp::CellTakeU64, &vec![p(8)], at(1)),
        Ok(RtVal::Int(77))
    ));
    raw.allocs[a as usize].live = false;
    assert!(raw.step(&none, RawOp::Load8, &vec![p(3)], at(1)).is_err());
}

#[test]
fn a_mutable_exposure_writes_back() {
    let u8_array = Ty::array(Ty::Int(IntTy::U8));
    let u8_lit = |n: i128, start: usize| typed(ExprKind::IntLit(n), at(start), Ty::Int(IntTy::U8));
    let pointer = |start: usize| {
        typed(ExprKind::Var("p".into()), at(start), Ty::Raw(IntTy::U8))
    };
    let store = Stmt::ExprStmt(typed(
        ExprKind::RawOp {
            op: RawOp::Store8,
            args: vec![
                typed(
                    ExprKind::RawOp {
                        op: RawOp::Offset,
                        args: vec![pointer(71), typed(ExprKind::IntLit(1), at(72), i64_ty())],
                    },
                    at(70),
                    Ty::Raw(IntTy::U8),
                ),
                u8_lit(200, 73),
            ],
        },
        at(74),
        Ty::Unit,
    ));
    let subject = |inner: Vec<Stmt>, index: i128| {
        program(vec![function(
            "subject",
            30,
            Ty::Int(IntTy::U8),
            vec![
                declare(
                    "bytes",
                    40,
                    u8_array.clone(),
                    typed(
                        ExprKind::ArrayLit(vec![u8_lit(7, 42), u8_lit(8, 43)]),
                        at(41),
                        u8_array.clone(),
                    ),
                ),
                Stmt::Expose {
                    kw_span: at(60),
                    array: "bytes".into(),
                    array_span: at(61),
                    mutable: true,
                    ptr: "p".into(),
                    ptr_span: at(62),
                    res: "r".into(),
                    res_span: at(63),
                    body: inner,
                },
                give_back(
                    typed(
                        ExprKind::Index {
                            array: "bytes".into(),
                            array_span: at(81),
                            index: Box::new(typed(
                                ExprKind::IntLit(index),
                                at(82),
                                Ty::Int(IntTy::U64),
                            )),
                        },
                        at(80),
                        Ty::Int(IntTy::U8),
                    ),
                    83,
                ),
            ],
        )])
    };
    let written = run(&subject(vec![store], 1));
    assert!(matches!(written, Ok(RtVal::Int(200))), "{written:?}");
    let untouched = run(&subject(Vec::new(), 1));
    assert!(matches!(untouched, Ok(RtVal::Int(8))), "{untouched:?}");
}

#[test]
fn copies_are_detached_from_their_source() {
    let mut heap = Heap::new();
    let array = RtArray::from_values(Ty::Bool, vec![RtVal::Bool(true)], at(0)).unwrap();
    let id = heap.add_array(array);
    let object = heap.add_object(vec![Binding {
        name: "flags".into(),
        value: RtVal::Arr(id),
    }]);
    let Some(RtVal::Obj { fields, .. }) = heap.deep_copy(&RtVal::Obj { class: 0, fields: object })
    else {
        panic!("an object copies to an object")
    };
    assert_ne!(fields, object);
    let RtVal::Arr(copy) = heap.object(fields).unwrap()[0].value else {
        panic!("the field copies to an array")
    };
    assert_ne!(copy, id);
    heap.arrays[id].set(0, RtVal::Bool(false), at(0)).unwrap();
    assert!(matches!(heap.array(copy).unwrap().get(0), RtVal::Bool(true)));
}

#[test]
fn foreign_calls_run_their_stand_in() {
    let mut outside = function("no_such_shim", 10, i64_ty(), Vec::new());
    outside.foreign = Some(ForeignInfo {
        audit_id: "nowhere.v1".into(),
    });
    let call = typed(
        ExprKind::Call {
            callee: "no_such_shim".into(),
            callee_span: at(21),
            type_args: Vec::new(),
            args: Vec::new(),
        },
        at(20),
        i64_ty(),
    );
    let p = program(vec![
        outside,
        function("subject", 30, i64_ty(), vec![give_back(call, 31)]),
    ]);
    let error = run(&p).unwrap_err();
    assert!(error.contains("no_such_shim"), "{error}");
}

#[test]
fn fuel_ends_every_run() {
    let body = vec![Stmt::While {
        cond: boolean(true, at(41)),
        invariants: Vec::new(),
        variant: None,
        kw_span: at(40),
        body: Vec::new(),
    }];
    let p = program(vec![function("subject", 30, Ty::Unit, body)]);
    let control = sable::program::ControlProgram::build(&p).unwrap();
    let interp = sable::machine::Interp {
        control: &control,
        fns: &p.fns,
        classes: &p.classes,
        records: &p.records,
        source: "",
    };
    let mut m = Machine::new(100);
    assert!(interp.call(&p.fns[0], &Vec::new(), &mut m).is_err());
    assert_eq!(m.fuel, 0);
}
