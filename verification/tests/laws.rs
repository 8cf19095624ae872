//! Laws of the library, on concrete values.
use sable::ast::{DeviceOp, Expr, ExprKind, FnDecl, IntTy, Param, Program, ResOp, Stmt, Ty};
use sable::bindings::Binding;
use sable::devices::{call_shim, MmioEvent};
use sable::drops::ExitKind;
use sable::gates::{validate_interp_stmts, InterpLocals};
use sable::heap::{Heap, SpecVal};
use sable::inventory::BodyInventory;
use sable::monitor::Env;
use sable::outline::ControlOutline;
use sable::place::CallOwner;
use sable::plan::BodyPlan;
use sable::rawheap::RawHeap;
use sable::repr::Repr;
use sable::run::{run_unchecked_fn, run_unchecked_fn_observed, ModuleSet, Returned};
use sable::span::Span;
use sable::text::quote;
use sable::traps::TrapSiteKind;
use sable::value::{RtArray, RtVal};

fn at(start: usize) -> Span {
    Span::new(start, start + 1)
}

fn typed(kind: ExprKind, span: Span, ty: Ty) -> Expr {
    Expr {
        kind,
        span,
        ty: Some(ty),
    }
}

fn boolean(b: bool, start: usize) -> Expr {
    typed(ExprKind::BoolLit(b), at(start), Ty::Bool)
}

fn integer(n: i128, start: usize, ty: IntTy) -> Expr {
    typed(ExprKind::IntLit(n), at(start), Ty::Int(ty))
}

fn program(ret: Ty, body: Vec<Stmt>) -> Program {
    Program {
        fns: vec![FnDecl {
            foreign: None,
            name: "subject".into(),
            name_span: at(0),
            type_params: Vec::new(),
            params: Vec::new(),
            ret,
            pres: Vec::new(),
            posts: Vec::new(),
            body,
            span: at(0),
        }],
        fn_templates: Vec::new(),
        classes: Vec::new(),
        class_templates: Vec::new(),
        records: Vec::new(),
    }
}

fn module() -> ModuleSet {
    ModuleSet::single("m.sable".into(), String::new())
}

fn returned(ret: Ty, body: Vec<Stmt>) -> Returned {
    run_unchecked_fn(&program(ret, body), &module(), "subject").unwrap()
}

#[test]
fn a_returned_array_is_read_with_its_contents() {
    let flags = |b: bool| {
        let ty = Ty::array(Ty::Bool);
        let literal = typed(
            ExprKind::ArrayLit(vec![boolean(b, 12)]),
            at(11),
            ty.clone(),
        );
        let body = vec![
            Stmt::Decl {
                ty: ty.clone(),
                name: "flags".into(),
                name_span: at(10),
                init: Some(literal),
                mutable: true,
            },
            Stmt::Return {
                value: Some(typed(ExprKind::Var("flags".into()), at(21), ty.clone())),
                span: at(20),
            },
        ];
        returned(ty, body)
    };
    let (yes, no) = (flags(true), flags(false));
    assert_eq!(yes.array().unwrap().len(), 1);
    assert!(matches!(yes.array().unwrap().get(0), RtVal::Bool(true)));
    assert!(matches!(no.array().unwrap().get(0), RtVal::Bool(false)));
    assert!(yes.fields().is_none());
    assert!(yes.keys().is_none());
}

#[test]
fn a_whole_run_keeps_the_order_of_the_transmitter() {
    let res = |op: ResOp, args: Vec<Expr>, start: usize| {
        Stmt::ExprStmt(typed(ExprKind::ResOp { op, args }, at(start), Ty::Unit))
    };
    let status = |start: usize| {
        Stmt::ExprStmt(typed(
            ExprKind::DeviceOp {
                op: DeviceOp::UartStatus,
                args: Vec::new(),
            },
            at(start),
            Ty::Int(IntTy::U8),
        ))
    };
    let write = |byte: i128, start: usize| {
        Stmt::ExprStmt(typed(
            ExprKind::DeviceOp {
                op: DeviceOp::UartWrite,
                args: vec![integer(byte, start + 1, IntTy::U8)],
            },
            at(start),
            Ty::Unit,
        ))
    };
    let select = |start: usize| {
        res(
            ResOp::TestUart,
            vec![integer(1, start + 1, IntTy::I64)],
            start,
        )
    };
    let read = |value: i128| MmioEvent::Read {
        address: 4096,
        width: 8,
        value,
    };
    let steady = program(
        Ty::Unit,
        vec![
            select(10),
            status(20),
            status(30),
            status(40),
            write(65, 50),
            status(60),
        ],
    );
    let seen = run_unchecked_fn_observed(&steady, &module(), "subject");
    assert_eq!(
        seen.mmio,
        vec![
            read(0),
            read(0),
            read(1),
            MmioEvent::Write {
                address: 4097,
                width: 8,
                value: 65,
            },
            read(1),
        ],
        "{:?}",
        seen.outcome
    );
    assert_eq!(seen.uart_cursor, 4);

    let hasty = program(Ty::Unit, vec![select(10), status(20), write(65, 30)]);
    let seen = run_unchecked_fn_observed(&hasty, &module(), "subject");
    assert!(seen.outcome.unwrap_err().contains("transmitter is not ready"));
    assert_eq!(seen.mmio, vec![read(0)]);
    assert_eq!(seen.uart_cursor, 1);

    let silent = program(Ty::Unit, Vec::new());
    let seen = run_unchecked_fn_observed(&silent, &module(), "subject");
    assert!(seen.uart_profile.is_none() && seen.mmio.is_empty());
    assert_eq!(seen.uart_cursor, 0);
}

#[test]
fn the_value_of_an_option_has_a_default() {
    let heap = Heap::new();
    let option = |name: &str, payload: Ty, value: Option<RtVal>| Binding {
        name: name.into(),
        value: RtVal::Opt {
            payload,
            value: value.map(Box::new),
        },
    };
    let vars = vec![
        option("empty", Ty::Int(IntTy::I64), None),
        option("full", Ty::Int(IntTy::I64), Some(RtVal::Int(7))),
        option("unset", Ty::Bool, None),
        option("set", Ty::Bool, Some(RtVal::Bool(true))),
    ];
    let olds = vec![Binding {
        name: "full".into(),
        value: SpecVal::Opt {
            payload: Some(Ty::Int(IntTy::I64)),
            value: None,
        },
    }];
    let entry = Vec::new();
    let env = Env {
        heap: &heap,
        vars: &vars,
        entry: &entry,
        self_ctx: None,
        result: None,
        olds: &olds,
    };
    assert!(env.eval_clause("empty.value = 0").unwrap());
    assert!(env.eval_clause("full.value = 7").unwrap());
    assert!(env.eval_clause("full.value > old full.value").unwrap());
    assert!(!env.eval_clause("unset.value").unwrap());
    assert!(env.eval_clause("set.value").unwrap());
    assert_eq!(env.eval_int_expr("full.value + empty.value").unwrap(), 7);
    assert!(env.eval_clause("empty = 0").is_err());
    assert!(env.eval_clause("absent.value = 0").is_err());
}

fn owned_array(name: &str, start: usize) -> Stmt {
    Stmt::Decl {
        ty: Ty::array(Ty::Bool),
        name: name.into(),
        name_span: at(start),
        init: None,
        mutable: true,
    }
}

fn plain(name: &str, start: usize) -> Stmt {
    Stmt::Decl {
        ty: Ty::Bool,
        name: name.into(),
        name_span: at(start),
        init: Some(boolean(true, start + 1)),
        mutable: true,
    }
}

#[test]
fn what_was_declared_before_a_refusal_stays() {
    let mut locals: InterpLocals = Vec::new();
    let stray = Stmt::Assign {
        name: "absent".into(),
        name_span: at(30),
        value: boolean(true, 31),
    };
    assert!(validate_interp_stmts(&[plain("a", 10), stray, plain("b", 40)], &mut locals).is_err());
    let names: Vec<&str> = locals.iter().map(|l| l.name.as_str()).collect();
    assert_eq!(names, ["a"]);

    let body = [plain("a", 10)];
    let plan = BodyPlan::build(CallOwner::Function("f".into()), at(1), &[], &body).unwrap();
    let mut inventory = BodyInventory::root(&plan);
    let unplanned = Stmt::Return {
        value: None,
        span: at(50),
    };
    let scope = plan.body_scope;
    let refused = plan.inventory_block(&[plain("a", 10), unplanned], scope, &mut inventory);
    assert!(refused.is_err());
    assert_eq!(inventory.ledgers[scope.0].bindings.len(), 1);
    assert_eq!(inventory.returns.len(), 1);
}

#[test]
fn a_plan_accepts_its_own_parameters_only() {
    let param = |name: &str, ty: Ty, start: usize| Param {
        name: name.into(),
        ty,
        span: at(start),
        consumes: false,
    };
    let params = [param("x", Ty::Bool, 10), param("y", Ty::Bool, 20)];
    let body = [owned_array("owner", 40)];
    let plan = BodyPlan::build(CallOwner::Function("f".into()), at(1), &params, &body).unwrap();
    assert!(plan.validate_callable(&params, &body).is_ok());
    assert!(plan.validate_body_shape(&body).is_ok());
    let swapped = [param("y", Ty::Bool, 20), param("x", Ty::Bool, 10)];
    let respanned = [param("x", Ty::Bool, 11), param("y", Ty::Bool, 20)];
    let renamed = [param("z", Ty::Bool, 10), param("y", Ty::Bool, 20)];
    let retyped = [
        param("x", Ty::Int(IntTy::U8), 10),
        param("y", Ty::Bool, 20),
    ];
    for others in [&swapped[..], &respanned, &renamed, &retyped, &params[..1]] {
        assert!(plan.validate_callable(others, &body).is_err());
    }
}

#[test]
fn a_sealed_plan_keeps_its_outline_and_clears_what_it_destroys() {
    let owner = CallOwner::Function("f".into());
    let body = [owned_array("a", 40), plain("n", 50), owned_array("b", 60)];
    let outline = ControlOutline::build(owner.copy(), at(1), &body);
    let plan = BodyPlan::seal(&outline, &[], &body).unwrap();
    assert_eq!(plan.body_block, outline.body_block);
    assert_eq!(plan.blocks.len(), outline.blocks.len());
    assert_eq!(plan.blocks[0].statements().len(), 3);

    let exit = plan.scope_exit(plan.body_scope);
    let cleared: Vec<String> = exit.clears.iter().map(|p| p.render()).collect();
    assert_eq!(cleared, ["b", "n", "a"]);
    let destroyed: Vec<String> = exit
        .drops
        .iter()
        .map(|id| plan.candidates[id.0].place.render())
        .collect();
    assert_eq!(destroyed, ["b", "a"]);

    let Err(error) = BodyPlan::seal(&outline, &[], &body[..2]) else {
        panic!("another body has another outline")
    };
    assert_eq!(error.span, at(1));
    assert!(error
        .message
        .contains("no longer matches its pre-check control outline"));
}

#[test]
fn a_checksum_after_a_fill_is_their_product() {
    let mut raw = RawHeap::new();
    let mut world = None;
    let id = raw.fresh(vec![None, None, None]);
    let p = RtVal::Ptr(id, 0);
    let args = vec![p.duplicate(), RtVal::Int(3)];
    let early = call_shim(&mut raw, &mut world, "sum", "test.checksum.v1", &args, at(0));
    assert!(early.is_err(), "no byte was written yet");
    let fill = vec![p, RtVal::Int(3), RtVal::Int(9)];
    assert!(call_shim(&mut raw, &mut world, "fill", "test.fill.v1", &fill, at(1)).is_ok());
    let sum = call_shim(&mut raw, &mut world, "sum", "test.checksum.v1", &args, at(2));
    assert!(matches!(sum, Ok(RtVal::Int(27))), "{sum:?}");
}

#[test]
fn a_copy_has_the_snapshot_of_its_source() {
    let mut heap = Heap::new();
    let array = RtArray::from_values(Ty::Bool, vec![RtVal::Bool(true)], at(0)).unwrap();
    let id = heap.add_array(array);
    let fields = heap.add_object(vec![Binding {
        name: "flags".into(),
        value: RtVal::Arr(id),
    }]);
    let source = RtVal::Obj { class: 0, fields };
    let copy = heap.deep_copy(&source).unwrap();
    let (a, b) = (heap.spec_of(&source), heap.spec_of(&copy));
    assert_eq!(format!("{a:?}"), format!("{b:?}"));
    assert!(a.is_some());
}

#[test]
fn a_misfit_is_shown_with_its_contents() {
    let mut heap = Heap::new();
    let array = RtArray::from_values(Ty::Bool, vec![RtVal::Bool(true)], at(0)).unwrap();
    let id = heap.add_array(array);
    let fields = heap.add_object(vec![Binding {
        name: "flags".into(),
        value: RtVal::Arr(id),
    }]);
    let shown = heap.show(&RtVal::Obj { class: 2, fields });
    assert!(shown.contains("\"flags\""), "{shown}");
    assert!(shown.contains("Bool(true)"), "{shown}");
    let Err(misfit) = RtArray::from_values(Ty::Bool, vec![RtVal::Arr(id)], at(0)) else {
        panic!("an array is no Boolean")
    };
    let message = misfit.payload_mismatch(&heap).message;
    assert!(message.starts_with("interp.array_payload_mismatch: "), "{message}");
    assert!(message.contains("Bool(true)"), "{message}");
}

#[test]
fn quoted_text_is_escaped() {
    for n in 0..128u8 {
        let text = format!("a{}b", n as char);
        assert_eq!(quote(&text), format!("{text:?}"));
    }
    assert_eq!(quote("\u{1}\u{1f}\u{7f}"), "\"\\u{1}\\u{1f}\\u{7f}\"");
    for text in ["n ≥ 0", "\u{ad}", "\u{200b}x", "e\u{301}", "\u{e000}", "é"] {
        assert_eq!(quote(text), format!("{text:?}"));
    }
}

#[test]
fn a_trap_kind_is_described_with_quoted_names() {
    let invariant = TrapSiteKind::LoopInvariant("\"".into()).describe();
    assert_eq!(invariant, "LoopInvariant(\"\\\"\")");
    assert_eq!(invariant.chars().count(), 19);
    assert_eq!(
        TrapSiteKind::InlineAssert("a\nb".into()).describe(),
        "InlineAssert(\"a\\nb\")"
    );
    let take = TrapSiteKind::OptionTake {
        option: "a\\b".into(),
        payload: Ty::Bool,
    };
    assert_eq!(take.describe(), "OptionTake { option: \"a\\\\b\", payload: Bool }");
}

#[test]
fn normal_edges_follow_the_flow() {
    let leave = |start: usize| Stmt::Return {
        value: None,
        span: at(start),
    };
    let body = [
        Stmt::If {
            cond: boolean(true, 10),
            then_block: vec![owned_array("a", 20)],
            else_block: Some(vec![leave(30)]),
        },
        Stmt::While {
            cond: boolean(true, 40),
            invariants: Vec::new(),
            variant: None,
            kw_span: at(41),
            body: vec![plain("n", 50)],
        },
        Stmt::While {
            cond: boolean(true, 60),
            invariants: Vec::new(),
            variant: None,
            kw_span: at(61),
            body: vec![leave(70)],
        },
    ];
    let plan = BodyPlan::build(CallOwner::Function("f".into()), at(1), &[], &body).unwrap();
    let then_arm = &plan.branches[0].then_arm;
    let exit = then_arm.normal_exit.as_ref().unwrap();
    assert!(then_arm.flow.can_fall_through());
    assert_eq!(exit.kind, ExitKind::Fallthrough);
    assert_eq!(exit.scopes, [then_arm.scope]);
    assert_eq!(exit.drops.len(), 1);
    let else_arm = plan.branches[0].else_arm.as_ref().unwrap();
    assert!(!else_arm.flow.can_fall_through() && else_arm.normal_exit.is_none());
    let backedge = plan.loops[0].backedge.as_ref().unwrap();
    assert_eq!(backedge.kind, ExitKind::Backedge);
    assert_eq!(backedge.scopes, [plan.loops[0].body_scope]);
    assert!(plan.loops[1].backedge.is_none());
}
