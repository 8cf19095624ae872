//! The interpreter: what it admits, what it runs, and what a trap leaves behind.
use sable::ast::{
    BinOp, ClassDecl, Clause, ClauseKind, Expr, ExprKind, Field, FnDecl, IntTy, Method,
    Mutability, Param, Program, RecordDecl, ResKind, SlotOp, Stmt, Ty, TypeParamId, UnOp,
};
use sable::bindings::Binding;
use sable::gates::{
    reject_owned_bool_array_transport, validate_interp_class_field_ty, validate_interp_expr,
    validate_interp_field_ty, validate_interp_param_ty, validate_interp_program,
    validate_interp_stmts, validate_interp_ty, InterpLocal, InterpLocals,
};
use sable::heap::{Heap, SpecArray, SpecVal};
use sable::interp::Flow;
use sable::machine::{Frame, Interp, Machine, RtPlace, TrapContext, FUEL};
use sable::place::{CallOwner, Place};
use sable::plan::BodyPlan;
use sable::program::ControlProgram;
use sable::repr::Repr;
use sable::run::{run_unchecked_fn, ModuleSet};
use sable::span::Span;
use sable::value::{control_plan_trap, RtArray, RtVal, Trap};

/// Deep copies of syntax, which has no copies of its own.
trait Dup {
    fn dup(&self) -> Self;
}

impl<T: Dup> Dup for Vec<T> {
    fn dup(&self) -> Self {
        self.iter().map(|x| x.dup()).collect()
    }
}

impl<T: Dup> Dup for Option<T> {
    fn dup(&self) -> Self {
        self.as_ref().map(|x| x.dup())
    }
}

impl<T: Dup> Dup for Box<T> {
    fn dup(&self) -> Self {
        Box::new((**self).dup())
    }
}

impl Dup for Expr {
    fn dup(&self) -> Self {
        Expr {
            kind: self.kind.dup(),
            span: self.span,
            ty: self.ty.clone(),
        }
    }
}

impl Dup for ExprKind {
    fn dup(&self) -> Self {
        match self {
            ExprKind::IntLit(n) => ExprKind::IntLit(*n),
            ExprKind::BoolLit(b) => ExprKind::BoolLit(*b),
            ExprKind::Var(s) => ExprKind::Var(s.clone()),
            ExprKind::Unary { op, operand } => ExprKind::Unary {
                op: *op,
                operand: operand.dup(),
            },
            ExprKind::Binary {
                op,
                op_span,
                lhs,
                rhs,
            } => ExprKind::Binary {
                op: *op,
                op_span: *op_span,
                lhs: lhs.dup(),
                rhs: rhs.dup(),
            },
            ExprKind::Widen { target, arg } => ExprKind::Widen {
                target: *target,
                arg: arg.dup(),
            },
            ExprKind::Narrow { target, arg } => ExprKind::Narrow {
                target: *target,
                arg: arg.dup(),
            },
            ExprKind::IsSome { operand } => ExprKind::IsSome {
                operand: operand.dup(),
            },
            ExprKind::OptValue { operand } => ExprKind::OptValue {
                operand: operand.dup(),
            },
            ExprKind::SomeE(e) => ExprKind::SomeE(e.dup()),
            ExprKind::NoneE => ExprKind::NoneE,
            ExprKind::OptTake {
                option,
                option_span,
            } => ExprKind::OptTake {
                option: option.clone(),
                option_span: *option_span,
            },
            ExprKind::Call {
                callee,
                callee_span,
                type_args,
                args,
            } => ExprKind::Call {
                callee: callee.clone(),
                callee_span: *callee_span,
                type_args: type_args.clone(),
                args: args.dup(),
            },
            ExprKind::CtorCall {
                class,
                class_span,
                type_args,
                init,
                args,
            } => ExprKind::CtorCall {
                class: class.clone(),
                class_span: *class_span,
                type_args: type_args.clone(),
                init: init.clone(),
                args: args.dup(),
            },
            ExprKind::MethodCall {
                recv,
                recv_span,
                method,
                method_span,
                args,
            } => ExprKind::MethodCall {
                recv: recv.clone(),
                recv_span: *recv_span,
                method: method.clone(),
                method_span: *method_span,
                args: args.dup(),
            },
            ExprKind::ArrayLit(items) => ExprKind::ArrayLit(items.dup()),
            ExprKind::AllocArray { elem, len, init } => ExprKind::AllocArray {
                elem: elem.clone(),
                len: len.dup(),
                init: init.dup(),
            },
            ExprKind::Index {
                array,
                array_span,
                index,
            } => ExprKind::Index {
                array: array.clone(),
                array_span: *array_span,
                index: index.dup(),
            },
            ExprKind::SelfField { field } => ExprKind::SelfField {
                field: field.clone(),
            },
            ExprKind::Borrow {
                array,
                field,
                mutable,
            } => ExprKind::Borrow {
                array: array.clone(),
                field: field.clone(),
                mutable: *mutable,
            },
            other => panic!("no test copies {other:?}"),
        }
    }
}

impl Dup for Stmt {
    fn dup(&self) -> Self {
        match self {
            Stmt::Decl {
                ty,
                name,
                name_span,
                init,
                mutable,
            } => Stmt::Decl {
                ty: ty.clone(),
                name: name.clone(),
                name_span: *name_span,
                init: init.dup(),
                mutable: *mutable,
            },
            Stmt::VarDecl {
                name,
                name_span,
                init,
                ty,
                mutable,
            } => Stmt::VarDecl {
                name: name.clone(),
                name_span: *name_span,
                init: init.dup(),
                ty: ty.clone(),
                mutable: *mutable,
            },
            Stmt::Assign {
                name,
                name_span,
                value,
            } => Stmt::Assign {
                name: name.clone(),
                name_span: *name_span,
                value: value.dup(),
            },
            Stmt::If {
                cond,
                then_block,
                else_block,
            } => Stmt::If {
                cond: cond.dup(),
                then_block: then_block.dup(),
                else_block: else_block.dup(),
            },
            Stmt::Return { value, span } => Stmt::Return {
                value: value.dup(),
                span: *span,
            },
            Stmt::ExprStmt(e) => Stmt::ExprStmt(e.dup()),
            Stmt::Assert(c) => Stmt::Assert(c.clone()),
            Stmt::FieldAssign {
                field,
                field_span,
                value,
            } => Stmt::FieldAssign {
                field: field.clone(),
                field_span: *field_span,
                value: value.dup(),
            },
            Stmt::Store {
                array,
                array_span,
                index,
                value,
            } => Stmt::Store {
                array: array.clone(),
                array_span: *array_span,
                index: index.dup(),
                value: value.dup(),
            },
            Stmt::While {
                cond,
                invariants,
                variant,
                kw_span,
                body,
            } => Stmt::While {
                cond: cond.dup(),
                invariants: invariants.clone(),
                variant: variant.clone(),
                kw_span: *kw_span,
                body: body.dup(),
            },
            Stmt::Unsafe { kw_span, body } => Stmt::Unsafe {
                kw_span: *kw_span,
                body: body.dup(),
            },
            Stmt::Expose {
                kw_span,
                array,
                array_span,
                mutable,
                ptr,
                ptr_span,
                res,
                res_span,
                body,
            } => Stmt::Expose {
                kw_span: *kw_span,
                array: array.clone(),
                array_span: *array_span,
                mutable: *mutable,
                ptr: ptr.clone(),
                ptr_span: *ptr_span,
                res: res.clone(),
                res_span: *res_span,
                body: body.dup(),
            },
            other => panic!("no test copies {other:?}"),
        }
    }
}

impl Dup for FnDecl {
    fn dup(&self) -> Self {
        FnDecl {
            foreign: self.foreign.clone(),
            name: self.name.clone(),
            name_span: self.name_span,
            type_params: self.type_params.clone(),
            params: self.params.clone(),
            ret: self.ret.clone(),
            pres: self.pres.clone(),
            posts: self.posts.clone(),
            body: self.body.dup(),
            span: self.span,
        }
    }
}

impl Dup for Method {
    fn dup(&self) -> Self {
        Method {
            self_kind: self.self_kind,
            f: self.f.dup(),
        }
    }
}

impl Dup for ClassDecl {
    fn dup(&self) -> Self {
        ClassDecl {
            name: self.name.clone(),
            name_span: self.name_span,
            type_params: self.type_params.clone(),
            fields: self.fields.clone(),
            invariants: self.invariants.clone(),
            inits: self.inits.dup(),
            methods: self.methods.dup(),
            deinit: self.deinit.dup(),
            span: self.span,
        }
    }
}

fn rt_bools(values: &[bool]) -> RtArray {
    RtArray::from_values(
        Ty::Bool,
        values.iter().copied().map(RtVal::Bool).collect(),
        Span::new(0, 0),
    )
    .expect("Boolean values inhabit a Boolean payload")
}

fn rt_ints(payload: IntTy, values: &[i128]) -> RtArray {
    RtArray::from_values(
        Ty::Int(payload),
        values.iter().copied().map(RtVal::Int).collect(),
        Span::new(0, 0),
    )
    .expect("integer values inhabit an integer payload")
}

fn rt_bools_of(array: &RtArray) -> Vec<bool> {
    array
        .iter()
        .iter()
        .map(|value| match value {
            RtVal::Bool(value) => *value,
            other => panic!("expected a Boolean element, found {other:?}"),
        })
        .collect()
}

fn spec_bools(values: &[bool]) -> SpecArray {
    SpecArray {
        payload: Ty::Bool,
        values: values.iter().copied().map(SpecVal::Bool).collect(),
    }
}

fn empty_program() -> Program {
    Program {
        fns: Vec::new(),
        fn_templates: Vec::new(),
        class_templates: Vec::new(),
        classes: Vec::new(),
        records: Vec::new(),
    }
}

fn drop_clause(kind: ClauseKind, text: &str, start: usize) -> Clause {
    Clause {
        kind,
        label: None,
        fact: false,
        unfold: false,
        text: text.into(),
        span: Span::new(start, start + 1),
        line_span: Span::new(start, start + 1),
    }
}

fn trapping_deinitializer(text: &str, start: usize) -> Vec<Stmt> {
    vec![Stmt::Assert(drop_clause(ClauseKind::Assert, text, start))]
}

fn drop_class(
    name: &str,
    start: usize,
    fields: Vec<Field>,
    invariants: Vec<Clause>,
    deinit: Option<Vec<Stmt>>,
) -> ClassDecl {
    ClassDecl {
        name: name.into(),
        name_span: Span::new(start, start + 1),
        type_params: Vec::new(),
        fields,
        invariants,
        inits: Vec::new(),
        methods: Vec::new(),
        deinit,
        span: Span::new(start, start + 10),
    }
}

fn class_field(name: &str, class: usize, start: usize) -> Field {
    Field {
        name: name.into(),
        ty: Ty::Class(class),
        span: Span::new(start, start + 1),
        must_consume: false,
    }
}

fn bound(name: &str, value: RtVal) -> Binding<RtVal> {
    Binding {
        name: name.into(),
        value,
    }
}

/// Destroys an object whose fields hold objects of these classes: the outcome, and the fields that
/// are left.
fn drop_runtime_object(
    classes: Vec<ClassDecl>,
    class: usize,
    fields: &[(&str, usize)],
) -> (Result<(), Trap>, Vec<String>) {
    let mut program = empty_program();
    program.classes = classes;
    with_program_interpreter(&program, |interpreter, _, m| {
        let mut held = Vec::new();
        for (name, class) in fields {
            let empty = m.heap.add_object(Vec::new());
            held.push(bound(
                name,
                RtVal::Obj {
                    class: *class,
                    fields: empty,
                },
            ));
        }
        let object = m.heap.add_object(held);
        let outcome = interpreter.drop_value(class, object, "probe", m);
        let left = m.heap.object(object).unwrap();
        (outcome, left.iter().map(|b| b.name.clone()).collect())
    })
}

fn function(name: &str, ret: Ty, body: Vec<Stmt>) -> FnDecl {
    FnDecl {
        foreign: None,
        name: name.into(),
        name_span: Span::new(0, 0),
        type_params: Vec::new(),
        params: Vec::new(),
        ret,
        pres: Vec::new(),
        posts: Vec::new(),
        body,
        span: Span::new(0, 0),
    }
}

fn expr(kind: ExprKind, ty: Option<Ty>) -> Expr {
    Expr {
        kind,
        span: Span::new(0, 0),
        ty,
    }
}

fn int_lit(value: i128) -> Expr {
    expr(ExprKind::IntLit(value), Some(Ty::Int(IntTy::U64)))
}

fn affine_bool_option() -> Ty {
    Ty::affine_array_option(Ty::Bool)
}

fn public_interp_error(program: &Program) -> String {
    let modules = ModuleSet::single("synthetic".into(), String::new());
    run_unchecked_fn(program, &modules, "subject")
        .expect_err("synthetic affine-option program reached interpreter execution")
}

fn with_empty_interpreter<R>(run: impl FnOnce(&Interp<'_>, &mut Machine) -> R) -> R {
    let fns: Vec<FnDecl> = Vec::new();
    let classes: Vec<ClassDecl> = Vec::new();
    let records: Vec<RecordDecl> = Vec::new();
    let control = ControlProgram::new();
    let interpreter = Interp {
        control: &control,
        fns: &fns,
        classes: &classes,
        records: &records,
        source: "",
    };
    run(&interpreter, &mut Machine::new(FUEL))
}

fn with_program_interpreter<R>(
    program: &Program,
    run: impl FnOnce(&Interp<'_>, &ControlProgram, &mut Machine) -> R,
) -> R {
    let control = ControlProgram::build(program).expect("test program has exact control");
    let interpreter = Interp {
        control: &control,
        fns: &program.fns,
        classes: &program.classes,
        records: &program.records,
        source: "",
    };
    run(&interpreter, &control, &mut Machine::new(FUEL))
}

fn fresh_child(span: Span) -> Expr {
    Expr {
        kind: ExprKind::CtorCall {
            class: "Child".into(),
            class_span: span,
            type_args: Vec::new(),
            init: "new".into(),
            args: Vec::new(),
        },
        span,
        ty: Some(Ty::Class(0)),
    }
}

fn child_with_deinit(deinit: Option<Vec<Stmt>>) -> ClassDecl {
    let mut child = drop_class("Child", 100, Vec::new(), Vec::new(), deinit);
    let mut initializer = function("new", Ty::Unit, Vec::new());
    initializer.span = Span::new(110, 111);
    initializer.name_span = initializer.span;
    child.inits.push(initializer);
    child
}

fn cleanup_statement_program(statement: Stmt, deinit: Option<Vec<Stmt>>) -> Program {
    let mut program = empty_program();
    program.classes.push(child_with_deinit(deinit));
    let mut subject = function("cleanup_subject", Ty::Unit, vec![statement]);
    subject.span = Span::new(200, 240);
    subject.name_span = Span::new(200, 201);
    program.fns.push(subject);
    program
}

fn frame_with(vars: Vec<(&str, RtVal)>) -> Frame {
    let mut frame = Frame::new(None);
    for (name, value) in vars {
        frame.vars.push(bound(name, value));
    }
    frame
}

fn var<'a>(frame: &'a Frame, name: &str) -> Option<&'a RtVal> {
    frame.vars.iter().find(|b| b.name == name).map(|b| &b.value)
}

/// How many locals hold an array.
fn holders(frame: &Frame, array: usize) -> usize {
    frame
        .vars
        .iter()
        .filter(|b| match &b.value {
            RtVal::Arr(id) => *id == array,
            RtVal::AffineOptBoolArray(Some(id)) => *id == array,
            _ => false,
        })
        .count()
}

fn local(ty: Ty) -> InterpLocal {
    InterpLocal { ty, mutable: true }
}

fn locals_of(locals: Vec<(&str, InterpLocal)>) -> InterpLocals {
    locals
        .into_iter()
        .map(|(name, value)| Binding {
            name: name.into(),
            value,
        })
        .collect()
}

fn bool_array_decl(name: &str) -> Stmt {
    let ty = Ty::array(Ty::Bool);
    Stmt::Decl {
        ty: ty.clone(),
        name: name.into(),
        name_span: Span::new(0, 0),
        init: Some(expr(
            ExprKind::ArrayLit(vec![expr(ExprKind::BoolLit(true), Some(Ty::Bool))]),
            Some(ty),
        )),
        mutable: false,
    }
}

fn bool_decl(name: &str, value: bool) -> Stmt {
    Stmt::Decl {
        ty: Ty::Bool,
        name: name.into(),
        name_span: Span::new(0, 0),
        init: Some(expr(ExprKind::BoolLit(value), Some(Ty::Bool))),
        mutable: false,
    }
}

fn eval_test_expression(
    interpreter: &Interp<'_>,
    expression: &Expr,
    m: &mut Machine,
    frame: &mut Frame,
) -> Result<RtVal, Trap> {
    let owner_span = Span::new(usize::MAX - 2, usize::MAX - 1);
    let body = [Stmt::ExprStmt(expression.dup())];
    let plan = BodyPlan::build(
        CallOwner::Function("__interpreter_expression_probe".into()),
        owner_span,
        &[],
        &body,
    )
    .map_err(control_plan_trap)?;
    interpreter.eval(
        expression,
        m,
        frame,
        TrapContext::new(&plan, plan.body_scope()),
    )
}

fn eval_test_moved(
    interpreter: &Interp<'_>,
    expression: &Expr,
    m: &mut Machine,
    frame: &mut Frame,
) -> Result<RtVal, Trap> {
    let owner_span = Span::new(usize::MAX - 2, usize::MAX - 1);
    let body = [Stmt::ExprStmt(expression.dup())];
    let plan = BodyPlan::build(
        CallOwner::Function("__interpreter_move_probe".into()),
        owner_span,
        &[],
        &body,
    )
    .map_err(control_plan_trap)?;
    interpreter.eval_moved(
        expression,
        m,
        frame,
        TrapContext::new(&plan, plan.body_scope()),
    )
}

fn exec_test_block(
    interpreter: &Interp<'_>,
    stmts: &Vec<Stmt>,
    m: &mut Machine,
    frame: &mut Frame,
) -> Result<Flow, Trap> {
    let owner_span = Span::new(usize::MAX - 1, usize::MAX);
    let plan = BodyPlan::build(
        CallOwner::Function("__interpreter_block_probe".into()),
        owner_span,
        &[],
        stmts,
    )
    .map_err(control_plan_trap)?;
    frame.reached.clear();
    interpreter.exec_body(stmts, &plan, m, frame)
}

fn exec_test_stmt(
    interpreter: &Interp<'_>,
    stmt: Stmt,
    m: &mut Machine,
    frame: &mut Frame,
) -> Result<Flow, Trap> {
    let owner_span = Span::new(usize::MAX - 1, usize::MAX);
    let body = [stmt];
    let plan = BodyPlan::build(
        CallOwner::Function("__interpreter_statement_probe".into()),
        owner_span,
        &[],
        &body,
    )
    .map_err(control_plan_trap)?;
    frame.reached.clear();
    let statement = plan.body_block().statements()[0].kind();
    interpreter.exec_stmt(&body[0], statement, &plan, plan.body_scope(), m, frame)
}

fn eval_with_empty_runtime(expression: &Expr) -> Result<RtVal, String> {
    with_empty_interpreter(|interpreter, m| {
        eval_test_expression(interpreter, expression, m, &mut Frame::new(None))
            .map_err(|trap| trap.message)
    })
}

fn affine_is_some(name: &str) -> Expr {
    expr(
        ExprKind::IsSome {
            operand: Box::new(expr(ExprKind::Var(name.into()), Some(affine_bool_option()))),
        },
        Some(Ty::Bool),
    )
}

fn affine_take(name: &str) -> Expr {
    expr(
        ExprKind::OptTake {
            option: name.into(),
            option_span: Span::new(0, 0),
        },
        Some(Ty::array(Ty::Bool)),
    )
}

fn affine_some_decl(name: &str) -> Stmt {
    let array_ty = Ty::array(Ty::Bool);
    Stmt::Decl {
        ty: affine_bool_option(),
        name: name.into(),
        name_span: Span::new(0, 0),
        init: Some(expr(
            ExprKind::SomeE(Box::new(expr(
                ExprKind::AllocArray {
                    elem: Ty::Bool,
                    len: Box::new(int_lit(1)),
                    init: Box::new(expr(ExprKind::BoolLit(true), Some(Ty::Bool))),
                },
                Some(array_ty),
            ))),
            Some(affine_bool_option()),
        )),
        mutable: true,
    }
}

#[test]
fn owner_slots_have_neither_an_interpreter_type_nor_operation_semantics() {
    let error = validate_interp_ty(&Ty::slots(Ty::Int(IntTy::U64)), "forged slot local")
        .expect_err("owner slots have no runtime representation yet");
    assert!(error.starts_with("interp.slots_unsupported:"), "{error}");

    let operation = expr(
        ExprKind::SlotOp {
            op: SlotOp::Put,
            op_span: Span::new(1, 2),
            args: vec![expr(
                ExprKind::Var("hostile_operand".into()),
                Some(Ty::Param(TypeParamId::from_legacy(0))),
            )],
        },
        Some(Ty::Param(TypeParamId::from_legacy(0))),
    );
    let error = validate_interp_expr(&operation, &Vec::new())
        .expect_err("the slot refusal wins over hostile cached types and operands");
    assert!(error.starts_with("interp.slots_unsupported:"), "{error}");
}

#[test]
fn an_array_never_holds_a_value_outside_its_payload() {
    let span = Span::new(0, 0);
    let mismatch = RtArray::from_values(Ty::Bool, vec![RtVal::Int(1)], span)
        .expect_err("an integer does not inhabit a Boolean payload")
        .payload_mismatch(&Heap::new());
    assert!(mismatch.undef);
    assert!(
        mismatch
            .message
            .starts_with("interp.array_payload_mismatch:"),
        "{}",
        mismatch.message
    );

    assert!(
        RtArray::repeat(Ty::Record(0), RtVal::Int(0), 1, span).is_err(),
        "a payload with no runtime value is inhabited by nothing"
    );

    let mut array = RtArray::from_values(Ty::Bool, vec![RtVal::Bool(true)], span)
        .expect("Boolean values inhabit a Boolean payload");
    assert!(array.set(0, RtVal::Int(0), span).is_err());
    assert!(array.set(0, RtVal::Bool(false), span).is_ok());
}

#[test]
fn affine_options_keep_nonlocal_and_temporary_crossings_closed() {
    let mut return_program = empty_program();
    return_program
        .fns
        .push(function("subject", affine_bool_option(), Vec::new()));
    assert!(
        public_interp_error(&return_program)
            .starts_with("interp.affine_option_position_unsupported:")
    );

    let mut local_program = empty_program();
    local_program.fns.push(function(
        "subject",
        Ty::Unit,
        vec![Stmt::Decl {
            ty: affine_bool_option(),
            name: "maybe_flags".into(),
            name_span: Span::new(0, 0),
            init: None,
            mutable: true,
        }],
    ));
    assert!(
        public_interp_error(&local_program).starts_with("interp.affine_option_initializer:")
    );

    let mut expression_program = empty_program();
    expression_program.fns.push(function(
        "subject",
        Ty::Unit,
        vec![Stmt::ExprStmt(expr(
            ExprKind::IsSome {
                operand: Box::new(expr(ExprKind::NoneE, Some(affine_bool_option()))),
            },
            Some(Ty::Bool),
        ))],
    ));
    assert!(
        public_interp_error(&expression_program).starts_with("interp.affine_option_temporary:")
    );
}

#[test]
fn affine_option_take_cannot_replace_its_source_place_in_forged_ast() {
    let span = Span::new(0, 0);
    let mut program = empty_program();
    program.fns.push(function(
        "subject",
        Ty::Unit,
        vec![
            Stmt::Decl {
                ty: affine_bool_option(),
                name: "pending".into(),
                name_span: span,
                init: Some(expr(ExprKind::NoneE, Some(affine_bool_option()))),
                mutable: true,
            },
            Stmt::Decl {
                ty: Ty::array(Ty::Bool),
                name: "pending".into(),
                name_span: span,
                init: Some(affine_take("pending")),
                mutable: false,
            },
        ],
    ));
    let error = public_interp_error(&program);
    assert!(
        error.starts_with("internal control plan rejected the checked body:"),
        "the shared control identity gate must reject the duplicate before execution: {error}"
    );
    assert!(error.contains("duplicate local `pending`"), "{error}");
}

#[test]
fn affine_option_cannot_launder_through_named_receivers_or_generated_bindings() {
    let span = Span::new(0, 0);
    let scalar = || int_lit(0);
    let expressions = vec![
        ExprKind::MethodCall {
            recv: "pending".into(),
            recv_span: span,
            method: "m".into(),
            method_span: span,
            args: Vec::new(),
        },
        ExprKind::ClassField {
            obj: "pending".into(),
            obj_span: span,
            field: "f".into(),
        },
        ExprKind::RecordField {
            obj: "pending".into(),
            obj_span: span,
            field: "f".into(),
        },
        ExprKind::ClassFieldLen {
            obj: "pending".into(),
            field: "f".into(),
        },
        ExprKind::ClassFieldIndex {
            obj: "pending".into(),
            obj_span: span,
            field: "f".into(),
            index: Box::new(scalar()),
        },
        ExprKind::Borrow {
            array: "pending".into(),
            field: None,
            mutable: false,
        },
        ExprKind::Len {
            array: "pending".into(),
        },
    ];
    for kind in expressions {
        let expression = expr(kind, Some(Ty::Int(IntTy::U64)));
        let locals = locals_of(vec![("pending", local(affine_bool_option()))]);
        let error = validate_interp_expr(&expression, &locals)
            .expect_err("affine named receiver must fail closed");
        assert!(
            error.starts_with("interp.affine_option_position_unsupported:")
                || error.contains("unknown or non-array local"),
            "{error}"
        );
    }

    let mut locals = locals_of(vec![("pending", local(affine_bool_option()))]);
    let expose = Stmt::Expose {
        kw_span: span,
        array: "pending".into(),
        array_span: span,
        mutable: false,
        ptr: "p".into(),
        ptr_span: span,
        res: "r".into(),
        res_span: span,
        body: Vec::new(),
    };
    assert!(
        validate_interp_stmts(&[expose], &mut locals)
            .unwrap_err()
            .starts_with("interp.affine_option_position_unsupported:")
    );

    let mut locals = locals_of(vec![("pending", local(affine_bool_option()))]);
    let allocation = Stmt::StaticAlloc {
        kw_span: span,
        size: scalar(),
        ptr: "pending".into(),
        ptr_span: span,
        res: "pending".into(),
        res_span: span,
    };
    assert!(
        validate_interp_stmts(&[allocation], &mut locals)
            .unwrap_err()
            .starts_with("interp.duplicate_local:")
    );
}

#[test]
fn discarded_class_temporary_runs_its_retained_drop_and_trap_skips_continuation() {
    let temporary = Stmt::ExprStmt(fresh_child(Span::new(210, 211)));
    let mut program =
        cleanup_statement_program(temporary, Some(trapping_deinitializer("1 = 2", 120)));
    program.fns[0]
        .body
        .push(Stmt::Assert(drop_clause(ClauseKind::Assert, "3 = 4", 220)));

    let modules = ModuleSet::single("synthetic".into(), String::new());
    let trap = run_unchecked_fn(&program, &modules, "cleanup_subject")
        .expect_err("discarded result deinitializer must trap");
    assert!(trap.contains("inline assert violated: 1 = 2"), "{trap}");
}

#[test]
fn rejects_option_payloads_without_g1_runtime_semantics() {
    let unsupported = [
        Ty::Record(0),
        Ty::Param(TypeParamId::from_legacy(0)),
        Ty::Int(IntTy::TParam(0)),
    ];

    for payload in unsupported {
        let mut program = empty_program();
        program
            .fns
            .push(function("subject", Ty::option(payload.clone()), Vec::new()));
        let error = validate_interp_program(&program)
            .expect_err("an unsupported option payload must fail closed");
        assert!(
            error.starts_with("interp.aggregate_payload_unsupported:"),
            "{payload:?}: {error}"
        );
    }
}

#[test]
fn an_owned_bool_array_is_a_local_value_and_a_borrowed_one_is_a_parameter() {
    let mut program = empty_program();
    program.fns.push(function(
        "subject",
        Ty::Unit,
        vec![Stmt::Decl {
            ty: Ty::array(Ty::Bool),
            name: "flags".into(),
            name_span: Span::new(0, 0),
            init: Some(expr(
                ExprKind::AllocArray {
                    elem: Ty::Bool,
                    len: Box::new(int_lit(0)),
                    init: Box::new(expr(ExprKind::BoolLit(false), Some(Ty::Bool))),
                },
                Some(Ty::array(Ty::Bool)),
            )),
            mutable: true,
        }],
    ));

    validate_interp_program(&program)
        .expect("owned local Boolean arrays have interpreter semantics");
    for ty in [
        Ty::array_ref(Ty::Bool, Mutability::Shared),
        Ty::array_ref(Ty::Bool, Mutability::Mut),
    ] {
        validate_interp_ty(&ty, "Boolean array borrow")
            .expect("a borrowed Boolean array is an executable value");
        validate_interp_param_ty(&ty, "parameter `m`")
            .expect("a borrowed Boolean array is an ordinary parameter");
    }
    validate_interp_param_ty(&Ty::array(Ty::Bool), "parameter `flags`")
        .expect("an owned Boolean array is handed over at a call");
    assert!(
        validate_interp_param_ty(&Ty::option(Ty::array(Ty::Bool)), "parameter `held`")
            .unwrap_err()
            .starts_with("interp.affine_option_position_unsupported:")
    );
}

#[test]
fn a_unique_bool_array_borrow_writes_through_to_its_owner() {
    let bool_array = Ty::array(Ty::Bool);
    let mut program = empty_program();

    let mut writer = function(
        "writer",
        Ty::Unit,
        vec![Stmt::Store {
            array: "m".into(),
            array_span: Span::new(0, 0),
            index: int_lit(1),
            value: expr(ExprKind::BoolLit(true), Some(Ty::Bool)),
        }],
    );
    writer.params.push(Param {
        name: "m".into(),
        ty: Ty::array_ref(Ty::Bool, Mutability::Mut),
        span: Span::new(0, 0),
        consumes: false,
    });
    program.fns.push(writer);

    program.fns.push(function(
        "subject",
        Ty::Bool,
        vec![
            Stmt::Decl {
                ty: bool_array.clone(),
                name: "flags".into(),
                name_span: Span::new(0, 0),
                init: Some(expr(
                    ExprKind::AllocArray {
                        elem: Ty::Bool,
                        len: Box::new(int_lit(2)),
                        init: Box::new(expr(ExprKind::BoolLit(false), Some(Ty::Bool))),
                    },
                    Some(bool_array.clone()),
                )),
                mutable: true,
            },
            Stmt::ExprStmt(expr(
                ExprKind::Call {
                    callee: "writer".into(),
                    callee_span: Span::new(0, 0),
                    type_args: vec![],
                    args: vec![expr(
                        ExprKind::Borrow {
                            array: "flags".into(),
                            field: None,
                            mutable: true,
                        },
                        Some(Ty::array_ref(Ty::Bool, Mutability::Mut)),
                    )],
                },
                Some(Ty::Unit),
            )),
            Stmt::Return {
                value: Some(expr(
                    ExprKind::Index {
                        array: "flags".into(),
                        array_span: Span::new(0, 0),
                        index: Box::new(int_lit(1)),
                    },
                    Some(Ty::Bool),
                )),
                span: Span::new(0, 0),
            },
        ],
    ));

    let modules = ModuleSet::single("synthetic".into(), String::new());
    assert!(
        matches!(
            run_unchecked_fn(&program, &modules, "subject").map(|r| r.value),
            Ok(RtVal::Bool(true))
        ),
        "a store through a unique borrow must be visible to the owner"
    );
}

#[test]
fn option_parameters_execute_and_stored_option_fields_split_by_container() {
    for payload in [Ty::Bool, Ty::Int(IntTy::U64)] {
        validate_interp_param_ty(&Ty::option(payload.clone()), "parameter `value`")
            .expect("a copyable option parameter is an executable value");
        validate_interp_class_field_ty(&Ty::option(payload.clone()), "field `Box.value`")
            .expect("a copyable option class field is an executable value");
        let error = validate_interp_field_ty(&Ty::option(payload), "field `Pair.value`")
            .expect_err("options must not acquire a record byte-layout ABI");
        assert!(error.starts_with("interp.option_position_unsupported:"));
    }
    let affine = validate_interp_param_ty(&Ty::option(Ty::array(Ty::Bool)), "parameter `value`")
        .expect_err("an affine option has no parameter ABI");
    assert!(affine.starts_with("interp.affine_option_position_unsupported:"));
    let generic = validate_interp_param_ty(
        &Ty::option(Ty::Param(TypeParamId::from_legacy(0))),
        "parameter `value`",
    )
    .expect_err("an unresolved option payload is not executable");
    assert!(generic.starts_with("interp.aggregate_payload_unsupported:"));
}

#[test]
fn recursively_accepts_boolean_alloc_array_element_metadata() {
    let allocation = expr(
        ExprKind::AllocArray {
            elem: Ty::Bool,
            len: Box::new(int_lit(1)),
            init: Box::new(expr(ExprKind::BoolLit(false), Some(Ty::Bool))),
        },
        Some(Ty::array(Ty::Bool)),
    );
    let mut program = empty_program();
    program.fns.push(function(
        "subject",
        Ty::Unit,
        vec![Stmt::Decl {
            ty: Ty::array(Ty::Bool),
            name: "values".into(),
            name_span: Span::new(0, 0),
            init: Some(allocation),
            mutable: false,
        }],
    ));

    validate_interp_program(&program).expect("Boolean allocation metadata is executable");
}

#[test]
fn index_accepts_boolean_or_concrete_integer_result_annotations() {
    let load = expr(
        ExprKind::Index {
            array: "values".into(),
            array_span: Span::new(0, 0),
            index: Box::new(int_lit(0)),
        },
        Some(Ty::Bool),
    );
    let mut program = empty_program();
    program.fns.push(function(
        "subject",
        Ty::Unit,
        vec![
            Stmt::Decl {
                ty: Ty::array(Ty::Bool),
                name: "values".into(),
                name_span: Span::new(0, 0),
                init: Some(expr(
                    ExprKind::ArrayLit(vec![expr(ExprKind::BoolLit(true), Some(Ty::Bool))]),
                    Some(Ty::array(Ty::Bool)),
                )),
                mutable: false,
            },
            Stmt::ExprStmt(load),
        ],
    ));

    validate_interp_program(&program).expect("Boolean array indices produce Boolean values");
}

#[test]
fn boolean_array_guard_rejects_forged_payloads_indices_stores_and_transports() {
    let bool_array = Ty::array(Ty::Bool);
    let bad_alloc = expr(
        ExprKind::AllocArray {
            elem: Ty::Bool,
            len: Box::new(expr(ExprKind::BoolLit(true), Some(Ty::Int(IntTy::U64)))),
            init: Box::new(expr(ExprKind::IntLit(1), Some(Ty::Bool))),
        },
        Some(bool_array.clone()),
    );
    assert!(validate_interp_expr(&bad_alloc, &Vec::new()).is_err());

    let bad_outer = expr(
        ExprKind::AllocArray {
            elem: Ty::Bool,
            len: Box::new(int_lit(1)),
            init: Box::new(expr(ExprKind::BoolLit(false), Some(Ty::Bool))),
        },
        Some(Ty::array(Ty::Int(IntTy::U8))),
    );
    assert!(validate_interp_expr(&bad_outer, &Vec::new()).is_err());

    let mut program = empty_program();
    program.fns.push(function(
        "subject",
        Ty::Unit,
        vec![
            Stmt::Decl {
                ty: bool_array.clone(),
                name: "flags".into(),
                name_span: Span::new(0, 0),
                init: Some(expr(ExprKind::ArrayLit(vec![]), Some(bool_array.clone()))),
                mutable: true,
            },
            Stmt::Store {
                array: "flags".into(),
                array_span: Span::new(0, 0),
                index: expr(ExprKind::BoolLit(false), Some(Ty::Int(IntTy::U64))),
                value: expr(ExprKind::IntLit(0), Some(Ty::Bool)),
            },
        ],
    ));
    assert!(validate_interp_program(&program).is_err());

    let handed_over = expr(
        ExprKind::Call {
            callee: "make".into(),
            callee_span: Span::new(0, 0),
            type_args: vec![],
            args: vec![],
        },
        Some(bool_array.clone()),
    );
    validate_interp_expr(&handed_over, &Vec::new())
        .expect("a call result is an owner the callee handed over");

    let forged_member = expr(
        ExprKind::MethodCall {
            recv: "holder".into(),
            recv_span: Span::new(0, 0),
            method: "make".into(),
            method_span: Span::new(0, 0),
            args: vec![],
        },
        Some(bool_array),
    );
    assert!(
        validate_interp_expr(&forged_member, &Vec::new())
            .unwrap_err()
            .starts_with("interp.array_position_unsupported:")
    );
}

#[test]
fn boolean_array_guard_rejects_object_option_and_scalar_operator_laundering() {
    let bool_array = Ty::array(Ty::Bool);
    let locals = locals_of(vec![("flags", local(bool_array.clone()))]);
    let span = Span::new(0, 0);
    let receiver_uses = [
        expr(
            ExprKind::MethodCall {
                recv: "flags".into(),
                recv_span: span,
                method: "read".into(),
                method_span: span,
                args: vec![],
            },
            Some(Ty::Unit),
        ),
        expr(
            ExprKind::ClassField {
                obj: "flags".into(),
                obj_span: span,
                field: "value".into(),
            },
            Some(Ty::Bool),
        ),
        expr(
            ExprKind::RecordField {
                obj: "flags".into(),
                obj_span: span,
                field: "value".into(),
            },
            Some(Ty::Bool),
        ),
        expr(
            ExprKind::ClassFieldLen {
                obj: "flags".into(),
                field: "values".into(),
            },
            Some(Ty::Int(IntTy::U64)),
        ),
        expr(
            ExprKind::ClassFieldIndex {
                obj: "flags".into(),
                obj_span: span,
                field: "values".into(),
                index: Box::new(int_lit(0)),
            },
            Some(Ty::Bool),
        ),
    ];
    for receiver_use in receiver_uses {
        assert!(
            validate_interp_expr(&receiver_use, &locals)
                .unwrap_err()
                .starts_with("interp.array_position_unsupported:"),
            "{receiver_use:?}"
        );
    }

    for accessor in [
        expr(
            ExprKind::IsSome {
                operand: Box::new(expr(
                    ExprKind::Var("flags".into()),
                    Some(bool_array.clone()),
                )),
            },
            Some(Ty::Bool),
        ),
        expr(
            ExprKind::OptValue {
                operand: Box::new(expr(
                    ExprKind::Var("flags".into()),
                    Some(bool_array.clone()),
                )),
            },
            Some(Ty::Bool),
        ),
    ] {
        assert!(
            validate_interp_expr(&accessor, &locals)
                .unwrap_err()
                .starts_with("interp.option_operand:"),
            "{accessor:?}"
        );
    }

    for conversion in [
        expr(
            ExprKind::Widen {
                target: IntTy::U64,
                arg: Box::new(expr(
                    ExprKind::Var("flags".into()),
                    Some(bool_array.clone()),
                )),
            },
            Some(Ty::Int(IntTy::U64)),
        ),
        expr(
            ExprKind::Narrow {
                target: IntTy::U8,
                arg: Box::new(expr(
                    ExprKind::Var("flags".into()),
                    Some(bool_array.clone()),
                )),
            },
            Some(Ty::Int(IntTy::U8)),
        ),
    ] {
        assert!(
            validate_interp_expr(&conversion, &locals)
                .unwrap_err()
                .contains("integer conversion operand"),
            "{conversion:?}"
        );
    }

    let forged_boolean = expr(
        ExprKind::Unary {
            op: UnOp::Not,
            operand: Box::new(expr(ExprKind::Var("flags".into()), Some(bool_array))),
        },
        Some(Ty::Bool),
    );
    assert!(validate_interp_expr(&forged_boolean, &locals).is_err());

    let resource_locals =
        locals_of(vec![("authority", local(Ty::Res(ResKind::RawSpan)))]);
    let erased_place = expr(ExprKind::Var("authority".into()), None);
    reject_owned_bool_array_transport(&erased_place, &resource_locals, "sealed operand")
        .expect("an intentionally unannotated resource place is not a Boolean array");
}

#[test]
fn boolean_array_guard_rejects_scalar_statement_sinks() {
    let span = Span::new(0, 0);
    let bool_array = Ty::array(Ty::Bool);
    let int_array = Ty::array(Ty::Int(IntTy::U8));
    let bool_var = || expr(ExprKind::Var("bits".into()), Some(bool_array.clone()));
    let byte = || expr(ExprKind::IntLit(1), Some(Ty::Int(IntTy::U8)));
    let base = || {
        locals_of(vec![
            ("bits", local(bool_array.clone())),
            ("ints", local(int_array.clone())),
            ("raw", local(Ty::Res(ResKind::RawSpan))),
            ("release", local(Ty::Res(ResKind::SystemDealloc))),
        ])
    };

    let forged_sinks = vec![
        Stmt::Store {
            array: "ints".into(),
            array_span: span,
            index: bool_var(),
            value: byte(),
        },
        Stmt::Store {
            array: "ints".into(),
            array_span: span,
            index: int_lit(0),
            value: bool_var(),
        },
        Stmt::FieldStore {
            field: "bytes".into(),
            field_span: span,
            index: bool_var(),
            value: byte(),
        },
        Stmt::If {
            cond: bool_var(),
            then_block: vec![],
            else_block: None,
        },
        Stmt::While {
            cond: bool_var(),
            invariants: vec![],
            variant: None,
            kw_span: span,
            body: vec![],
        },
        Stmt::StaticAlloc {
            kw_span: span,
            size: bool_var(),
            ptr: "p".into(),
            ptr_span: span,
            res: "memory".into(),
            res_span: span,
        },
        Stmt::SystemAlloc {
            kw_span: span,
            size: bool_var(),
            ptr: "p".into(),
            ptr_span: span,
            res: "memory".into(),
            res_span: span,
            release: "free".into(),
            release_span: span,
        },
        Stmt::SystemDealloc {
            kw_span: span,
            ptr: bool_var(),
            res: expr(ExprKind::Var("raw".into()), None),
            release: expr(ExprKind::Var("release".into()), None),
        },
    ];

    for statement in forged_sinks {
        let error = validate_interp_stmts(&[statement], &mut base())
            .expect_err("a Boolean array must not reach a scalar statement sink");
        assert!(
            error.starts_with("interp.expression_type:")
                || error.starts_with("interp.array_position_unsupported:"),
            "{error}"
        );
    }
}

#[test]
fn permits_integer_execution_and_ignores_retained_templates() {
    let mut program = empty_program();
    program.fns.push(function(
        "subject",
        Ty::option(Ty::Int(IntTy::U64)),
        vec![Stmt::Return {
            value: Some(expr(ExprKind::NoneE, Some(Ty::option(Ty::Int(IntTy::U64))))),
            span: Span::new(0, 0),
        }],
    ));
    program.fn_templates.push(function(
        "template",
        Ty::option(Ty::Param(TypeParamId::from_legacy(0))),
        Vec::new(),
    ));

    validate_interp_program(&program)
        .expect("the executable integer domain should remain unchanged");
}

#[test]
fn class_invariant_failure_aborts_the_deinitializer_and_field_suffix() {
    let child = drop_class(
        "Child",
        10,
        Vec::new(),
        Vec::new(),
        Some(trapping_deinitializer("2 = 3", 12)),
    );
    let parent = drop_class(
        "Parent",
        30,
        vec![class_field("child", 0, 31)],
        vec![drop_clause(ClauseKind::Invariant, "1 = 2", 32)],
        Some(trapping_deinitializer("3 = 4", 33)),
    );
    let (outcome, fields) = drop_runtime_object(vec![child, parent], 1, &[("child", 0)]);

    let trap = outcome.expect_err("the parent invariant must trap");
    assert!(trap.message.contains("class invariant of `Parent`"));
    assert!(trap.message.contains("1 = 2"));
    assert!(
        fields.iter().any(|name| name == "child"),
        "an invariant trap must not run any later destruction phase"
    );
}

#[test]
fn deinitializer_failure_aborts_the_field_suffix_without_unwind() {
    let child = drop_class(
        "Child",
        10,
        Vec::new(),
        Vec::new(),
        Some(trapping_deinitializer("2 = 3", 12)),
    );
    let parent = drop_class(
        "Parent",
        30,
        vec![class_field("child", 0, 31)],
        Vec::new(),
        Some(trapping_deinitializer("3 = 4", 33)),
    );
    let (outcome, fields) = drop_runtime_object(vec![child, parent], 1, &[("child", 0)]);

    let trap = outcome.expect_err("the parent deinitializer must trap");
    assert_eq!(trap.message, "inline assert violated: 3 = 4");
    assert!(
        fields.iter().any(|name| name == "child"),
        "a deinitializer trap must not unwind into field destruction"
    );
}

#[test]
fn recursive_field_failure_uses_reverse_order_and_aborts_the_suffix() {
    let first = drop_class(
        "First",
        10,
        Vec::new(),
        Vec::new(),
        Some(trapping_deinitializer("1 = 2", 12)),
    );
    let second = drop_class(
        "Second",
        30,
        Vec::new(),
        Vec::new(),
        Some(trapping_deinitializer("2 = 3", 32)),
    );
    let parent = drop_class(
        "Parent",
        50,
        vec![class_field("first", 0, 51), class_field("second", 1, 52)],
        Vec::new(),
        None,
    );
    let (outcome, remaining) = drop_runtime_object(
        vec![first, second, parent],
        2,
        &[("first", 0), ("second", 1)],
    );

    let trap = outcome.expect_err("the last-declared child must trap first");
    assert_eq!(trap.message, "inline assert violated: 2 = 3");
    assert!(
        !remaining.iter().any(|name| name == "second"),
        "the active child leaves its parent place before recursive destruction"
    );
    assert!(
        remaining.iter().any(|name| name == "first"),
        "a recursive trap must not unwind into the remaining field suffix"
    );
}

#[test]
fn interpreter_operations_reject_mismatched_and_moved_retained_trap_sites() {
    let trap_span = Span::new(20, 21);
    let integer = |value: i128| Expr {
        kind: ExprKind::IntLit(value),
        span: Span::new(30 + value as usize, 31 + value as usize),
        ty: Some(Ty::Int(IntTy::I32)),
    };
    let arithmetic = |op| Expr {
        kind: ExprKind::Binary {
            op,
            op_span: trap_span,
            lhs: Box::new(integer(4)),
            rhs: Box::new(integer(2)),
        },
        span: trap_span,
        ty: Some(Ty::Int(IntTy::I32)),
    };
    let original = arithmetic(BinOp::Add);
    let body = [Stmt::ExprStmt(original.dup())];
    let plan = BodyPlan::build(
        CallOwner::Function("__retained_trap_probe".into()),
        Span::new(100, 101),
        &[],
        &body,
    )
    .unwrap();

    with_empty_interpreter(|interpreter, m| {
        let mut frame = Frame::new(None);
        let error = interpreter
            .eval(
                &arithmetic(BinOp::Sub),
                m,
                &mut frame,
                TrapContext::new(&plan, plan.body_scope()),
            )
            .expect_err("the operation must exact-lookup its sealed semantic kind");
        assert!(error.undef);
        assert!(error.message.contains("SubOverflow"), "{}", error.message);
    });

    let branch_anchor = Span::new(110, 111);
    let scoped_body = [Stmt::If {
        cond: Expr {
            kind: ExprKind::BoolLit(true),
            span: branch_anchor,
            ty: Some(Ty::Bool),
        },
        then_block: vec![Stmt::ExprStmt(original.dup())],
        else_block: Some(Vec::new()),
    }];
    let scoped = BodyPlan::build(
        CallOwner::Function("__moved_trap_probe".into()),
        Span::new(120, 121),
        &[],
        &scoped_body,
    )
    .unwrap();
    let else_scope = scoped
        .branch(scoped.body_scope(), branch_anchor, true)
        .unwrap()
        .else_arm()
        .unwrap()
        .scope();
    with_empty_interpreter(|interpreter, m| {
        let mut frame = Frame::new(None);
        let error = interpreter
            .eval(
                &original,
                m,
                &mut frame,
                TrapContext::new(&scoped, else_scope),
            )
            .expect_err("moving the same operation to a sibling scope must fail");
        assert!(error.undef);
        assert!(error.message.contains("active lexical scope"));
    });
}

#[test]
fn affine_presence_is_nonconsuming_and_take_clears_the_slot_atomically() {
    with_empty_interpreter(|interpreter, m| {
        let array = m.heap.add_array(rt_bools(&[true, false]));
        let mut frame = frame_with(vec![("pending", RtVal::AffineOptBoolArray(Some(array)))]);

        let presence = eval_test_expression(interpreter, &affine_is_some("pending"), m, &mut frame)
            .unwrap_or_else(|trap| panic!("presence test trapped: {}", trap.message));
        assert!(matches!(presence, RtVal::Bool(true)));
        assert!(matches!(
            var(&frame, "pending"),
            Some(RtVal::AffineOptBoolArray(Some(_)))
        ));
        assert_eq!(holders(&frame, array), 1);

        let taken = eval_test_expression(interpreter, &affine_take("pending"), m, &mut frame)
            .unwrap_or_else(|trap| panic!("present take trapped: {}", trap.message));
        let RtVal::Arr(taken_array) = taken else {
            panic!("take did not return an array")
        };
        assert_eq!(taken_array, array);
        assert!(matches!(
            var(&frame, "pending"),
            Some(RtVal::AffineOptBoolArray(None))
        ));

        let trap = eval_test_expression(interpreter, &affine_take("pending"), m, &mut frame)
            .expect_err("second take must trap");
        assert_eq!(trap.message, "`.take` of an empty affine option");
        assert!(matches!(
            var(&frame, "pending"),
            Some(RtVal::AffineOptBoolArray(None))
        ));
    });
}

#[test]
fn dropping_an_affine_option_releases_a_present_payload_once() {
    with_empty_interpreter(|interpreter, m| {
        let array = m.heap.add_array(rt_bools(&[true]));
        let mut frame = frame_with(vec![("pending", RtVal::AffineOptBoolArray(Some(array)))]);
        assert_eq!(holders(&frame, array), 1);

        interpreter
            .drop_place(&RtPlace::Local("pending".into()), m, &mut frame)
            .unwrap_or_else(|trap| panic!("affine option drop trapped: {}", trap.message));

        assert!(var(&frame, "pending").is_none());
        assert_eq!(holders(&frame, array), 0);
    });
}

#[test]
fn a_trap_does_not_unwind_a_present_affine_option() {
    let mut pending = affine_some_decl("pending");
    let Stmt::Decl {
        init:
            Some(Expr {
                kind: ExprKind::SomeE(payload),
                ..
            }),
        ..
    } = &mut pending
    else {
        unreachable!("fixture is an affine option containing a fresh array")
    };
    payload.span = Span::new(10, 11);
    let body = vec![
        pending,
        bool_array_decl("trap_source"),
        Stmt::ExprStmt(expr(
            ExprKind::Index {
                array: "trap_source".into(),
                array_span: Span::new(0, 0),
                index: Box::new(int_lit(1)),
            },
            Some(Ty::Bool),
        )),
    ];

    with_empty_interpreter(|interpreter, m| {
        let mut frame = Frame::new(None);
        let trap = match exec_test_block(interpreter, &body, m, &mut frame) {
            Ok(_) => panic!("out-of-bounds access must trap"),
            Err(trap) => trap,
        };
        assert_eq!(trap.message, "index out of bounds: index 1, length 1");
        let Some(RtVal::AffineOptBoolArray(value)) = var(&frame, "pending") else {
            panic!("trap unwound the affine option place")
        };
        assert!(value.is_some());
    });
}

#[test]
fn affine_option_snapshots_detach_proof_data_from_runtime_ownership() {
    with_empty_interpreter(|_, m| {
        let array = m.heap.add_array(rt_bools(&[true, false]));
        let mut frame = frame_with(vec![("pending", RtVal::AffineOptBoolArray(Some(array)))]);
        let snapshot = m
            .heap
            .spec_of(var(&frame, "pending").unwrap())
            .expect("monitor snapshot");

        let removed = frame
            .slot_take("pending", Span::new(0, 0), Span::new(0, 0))
            .expect("present payload");
        drop(removed);
        assert_eq!(holders(&frame, array), 0);
        m.heap.arrays[array]
            .set(0, RtVal::Bool(false), Span::new(0, 0))
            .expect("a Boolean value inhabits a Boolean payload");
        assert!(snapshot.same_spec(&SpecVal::AffineOpt {
            value: Some(Box::new(SpecVal::Arr(spec_bools(&[true, false])))),
        }));
    });
}

#[test]
fn dropping_an_array_place_removes_its_binding_and_releases_its_rc() {
    with_empty_interpreter(|interpreter, m| {
        let storage = m.heap.add_array(rt_bools(&[true]));
        let mut frame = frame_with(vec![("flags", RtVal::Arr(storage))]);
        assert_eq!(holders(&frame, storage), 1);

        interpreter
            .drop_place(&RtPlace::Local("flags".into()), m, &mut frame)
            .unwrap_or_else(|trap| panic!("unexpected array-drop trap: {}", trap.message));

        assert!(var(&frame, "flags").is_none());
        assert_eq!(holders(&frame, storage), 0);
    });
}

#[test]
fn retained_array_drop_action_rejects_a_runtime_payload_mismatch() {
    let declaration = bool_array_decl("flags");
    let plan = BodyPlan::build(
        CallOwner::Function("array_drop_payload_probe".into()),
        Span::new(40, 41),
        &[],
        std::slice::from_ref(&declaration),
    )
    .expect("Boolean owner has one retained drop action");
    let candidate = plan
        .candidate_for_place(&Place::local("flags"))
        .expect("Boolean owner is a cleanup candidate");
    let action = candidate.drop_action().copy();

    with_empty_interpreter(|interpreter, m| {
        let wrong = m.heap.add_array(rt_ints(IntTy::U8, &[1]));
        let validation = interpreter
            .validate_runtime_value_for_action(
                m,
                &RtVal::Arr(wrong),
                &action,
                "flags",
                candidate.span(),
            )
            .expect_err("validation must consume the retained element identity");
        assert!(validation.undef);
        assert!(validation.message.contains("internal control plan"));
        assert!(validation.message.contains("payload `u8`"));
        assert!(validation.message.contains("retained payload `bool`"));

        let drop = interpreter
            .drop_runtime_value_with_action(
                &RtVal::Arr(wrong),
                &action,
                "flags",
                candidate.span(),
                m,
            )
            .expect_err("destruction must consume the retained element identity too");
        assert!(drop.undef);
        assert_eq!(drop.message, validation.message);
    });
}

#[test]
fn eval_moved_takes_an_owned_integer_array_place() {
    let read = expr(
        ExprKind::Var("values".into()),
        Some(Ty::array(Ty::Int(IntTy::U64))),
    );
    with_empty_interpreter(|interpreter, m| {
        let storage = m.heap.add_array(rt_ints(IntTy::U64, &[7]));
        let mut frame = frame_with(vec![("values", RtVal::Arr(storage))]);

        let value = eval_test_moved(interpreter, &read, m, &mut frame)
            .unwrap_or_else(|trap| panic!("unexpected array-move trap: {}", trap.message));

        assert!(var(&frame, "values").is_none());
        assert!(matches!(&value, RtVal::Arr(id) if *id == storage));
        assert_eq!(holders(&frame, storage), 0);
    });
}

#[test]
fn planned_assignment_installs_into_a_moved_out_owner_without_dropping_twice() {
    let declaration_span = Span::new(10, 11);
    let assignment_span = Span::new(20, 21);
    let assignment = Stmt::Assign {
        name: "destination".into(),
        name_span: assignment_span,
        value: expr(ExprKind::Var("fresh".into()), Some(Ty::Class(0))),
    };
    let body = vec![
        Stmt::Decl {
            ty: Ty::Class(0),
            name: "destination".into(),
            name_span: declaration_span,
            init: None,
            mutable: true,
        },
        assignment.dup(),
    ];
    let plan = BodyPlan::build(
        CallOwner::Function("moved_out_assignment_probe".into()),
        Span::new(1, 30),
        &[],
        &body,
    )
    .expect("class replacement has a planned action");

    with_empty_interpreter(|interpreter, m| {
        let fields = m.heap.add_object(Vec::new());
        let mut frame = frame_with(vec![("fresh", RtVal::Obj { class: 0, fields })]);
        frame
            .arm(&plan, "destination", plan.body_scope(), declaration_span)
            .unwrap();
        assert!(matches!(
            interpreter.exec_stmt(
                &assignment,
                plan.body_block().statements()[1].kind(),
                &plan,
                plan.body_scope(),
                m,
                &mut frame,
            ),
            Ok(Flow::Normal)
        ));

        assert!(var(&frame, "fresh").is_none());
        let Some(RtVal::Obj {
            fields: installed, ..
        }) = var(&frame, "destination")
        else {
            panic!("planned assignment did not install the staged owner")
        };
        assert_eq!(*installed, fields);
    });
}

#[test]
fn trapping_assignment_rhs_leaves_the_old_planned_owner_live() {
    let declaration_span = Span::new(10, 11);
    let assignment = Stmt::Assign {
        name: "destination".into(),
        name_span: Span::new(20, 21),
        value: expr(
            ExprKind::Index {
                array: "trap_source".into(),
                array_span: Span::new(22, 23),
                index: Box::new(int_lit(1)),
            },
            Some(Ty::Class(0)),
        ),
    };
    let body = vec![
        Stmt::Decl {
            ty: Ty::Class(0),
            name: "destination".into(),
            name_span: declaration_span,
            init: None,
            mutable: true,
        },
        assignment.dup(),
    ];
    let plan = BodyPlan::build(
        CallOwner::Function("trapping_assignment_probe".into()),
        Span::new(1, 30),
        &[],
        &body,
    )
    .expect("class replacement has a planned action");

    with_empty_interpreter(|interpreter, m| {
        let old_fields = m.heap.add_object(Vec::new());
        let trap_source = m.heap.add_array(rt_bools(&[true]));
        let mut frame = frame_with(vec![
            (
                "destination",
                RtVal::Obj {
                    class: 0,
                    fields: old_fields,
                },
            ),
            ("trap_source", RtVal::Arr(trap_source)),
        ]);
        frame
            .arm(&plan, "destination", plan.body_scope(), declaration_span)
            .unwrap();

        let trap = match interpreter.exec_stmt(
            &assignment,
            plan.body_block().statements()[1].kind(),
            &plan,
            plan.body_scope(),
            m,
            &mut frame,
        ) {
            Err(trap) => trap,
            Ok(_) => panic!("the RHS index must trap before replacement"),
        };

        assert_eq!(trap.message, "index out of bounds: index 1, length 1");
        let Some(RtVal::Obj {
            fields: retained, ..
        }) = var(&frame, "destination")
        else {
            panic!("trapping RHS destroyed the old destination")
        };
        assert_eq!(*retained, old_fields);
    });
}

#[test]
fn retained_field_action_uses_dynamic_presence_for_first_install_moved_absence_and_replacement() {
    let field_span = Span::new(210, 211);
    let statement = Stmt::FieldAssign {
        field: "child".into(),
        field_span,
        value: expr(ExprKind::Var("fresh".into()), Some(Ty::Class(0))),
    };
    let program = cleanup_statement_program(statement.dup(), None);

    for present in [false, true] {
        with_program_interpreter(&program, |interpreter, control_program, m| {
            let body = control_program
                .body(
                    &CallOwner::Function("cleanup_subject".into()),
                    program.fns[0].span,
                )
                .unwrap();
            let plan = body.plan();
            let installed_fields = m.heap.add_object(Vec::new());
            let mut held = Vec::new();
            if present {
                let fields = m.heap.add_object(Vec::new());
                held.push(bound("child", RtVal::Obj { class: 0, fields }));
            }
            let object_fields = m.heap.add_object(held);
            let mut frame = frame_with(vec![(
                "fresh",
                RtVal::Obj {
                    class: 0,
                    fields: installed_fields,
                },
            )]);
            frame.self_ctx = Some((0, object_fields));

            assert!(matches!(
                interpreter.exec_stmt(
                    &statement,
                    plan.body_block().statements()[0].kind(),
                    plan,
                    plan.body_scope(),
                    m,
                    &mut frame,
                ),
                Ok(Flow::Normal)
            ));
            assert!(var(&frame, "fresh").is_none());
            let Some(RtVal::Obj {
                fields: installed, ..
            }) = m.self_field(&frame, "child")
            else {
                panic!("retained field action did not install its staged RHS")
            };
            assert_eq!(*installed, installed_fields);
        });
    }
}

#[test]
fn trapping_field_rhs_precedes_the_retained_destination_drop() {
    let statement = Stmt::FieldAssign {
        field: "child".into(),
        field_span: Span::new(210, 211),
        value: Expr {
            kind: ExprKind::Index {
                array: "trap_source".into(),
                array_span: Span::new(212, 213),
                index: Box::new(int_lit(1)),
            },
            span: Span::new(212, 214),
            ty: Some(Ty::Class(0)),
        },
    };
    let program = cleanup_statement_program(statement.dup(), None);
    with_program_interpreter(&program, |interpreter, control_program, m| {
        let body = control_program
            .body(
                &CallOwner::Function("cleanup_subject".into()),
                program.fns[0].span,
            )
            .unwrap();
        let plan = body.plan();
        let old_fields = m.heap.add_object(Vec::new());
        let object_fields = m.heap.add_object(vec![bound(
            "child",
            RtVal::Obj {
                class: 0,
                fields: old_fields,
            },
        )]);
        let trap_source = m.heap.add_array(rt_bools(&[true]));
        let mut frame = frame_with(vec![("trap_source", RtVal::Arr(trap_source))]);
        frame.self_ctx = Some((0, object_fields));

        let trap = match interpreter.exec_stmt(
            &statement,
            plan.body_block().statements()[0].kind(),
            plan,
            plan.body_scope(),
            m,
            &mut frame,
        ) {
            Err(trap) => trap,
            Ok(_) => panic!("RHS must trap before replacement"),
        };
        assert_eq!(trap.message, "index out of bounds: index 1, length 1");
        let Some(RtVal::Obj {
            fields: retained, ..
        }) = m.self_field(&frame, "child")
        else {
            panic!("RHS trap removed the old field destination")
        };
        assert_eq!(*retained, old_fields);
    });
}

#[test]
fn successful_branch_and_loop_blocks_clear_all_planned_locals() {
    let branch = Stmt::If {
        cond: expr(ExprKind::BoolLit(true), Some(Ty::Bool)),
        then_block: vec![
            bool_array_decl("branch_flags"),
            bool_decl("branch_scalar", true),
        ],
        else_block: None,
    };
    let loop_stmt = Stmt::While {
        cond: expr(ExprKind::Var("again".into()), Some(Ty::Bool)),
        invariants: Vec::new(),
        variant: None,
        kw_span: Span::new(0, 0),
        body: vec![
            bool_array_decl("loop_flags"),
            bool_decl("loop_scalar", true),
            Stmt::Assign {
                name: "again".into(),
                name_span: Span::new(0, 0),
                value: expr(ExprKind::BoolLit(false), Some(Ty::Bool)),
            },
        ],
    };
    let loop_probe = vec![
        Stmt::Decl {
            ty: Ty::Bool,
            name: "again".into(),
            name_span: Span::new(1, 2),
            init: Some(expr(ExprKind::BoolLit(true), Some(Ty::Bool))),
            mutable: true,
        },
        loop_stmt,
    ];

    with_empty_interpreter(|interpreter, m| {
        let mut frame = Frame::new(None);
        assert!(matches!(
            exec_test_stmt(interpreter, branch, m, &mut frame),
            Ok(Flow::Normal)
        ));
        assert!(var(&frame, "branch_flags").is_none());
        assert!(var(&frame, "branch_scalar").is_none());
        assert!(matches!(
            exec_test_block(interpreter, &loop_probe, m, &mut frame),
            Ok(Flow::Normal)
        ));

        assert!(var(&frame, "loop_flags").is_none());
        assert!(var(&frame, "loop_scalar").is_none());
        assert!(var(&frame, "again").is_none());
    });
}

#[test]
fn early_return_consumes_the_planned_nested_cleanup_route() {
    let mut condition = expr(ExprKind::BoolLit(true), Some(Ty::Bool));
    condition.span = Span::new(10, 11);
    let body = vec![
        bool_array_decl("outer_flags"),
        bool_decl("outer_scalar", true),
        Stmt::If {
            cond: condition,
            then_block: vec![
                bool_array_decl("inner_flags"),
                bool_decl("inner_scalar", true),
                Stmt::Return {
                    value: None,
                    span: Span::new(20, 21),
                },
            ],
            else_block: None,
        },
    ];

    with_empty_interpreter(|interpreter, m| {
        let mut frame = Frame::new(None);
        assert!(matches!(
            exec_test_block(interpreter, &body, m, &mut frame),
            Ok(Flow::Return(RtVal::Unit))
        ));
        assert!(var(&frame, "inner_flags").is_none());
        assert!(var(&frame, "inner_scalar").is_none());
        assert!(var(&frame, "outer_flags").is_none());
        assert!(var(&frame, "outer_scalar").is_none());
    });
}

#[test]
fn exposure_uses_its_planned_clear_route_for_source_and_body_bindings() {
    let span = Span::new(40, 41);
    let bytes = RtArray::from_values(Ty::Int(IntTy::U8), vec![RtVal::Int(7)], span)
        .expect("byte array fixture");
    let exposure = Stmt::Expose {
        kw_span: span,
        array: "bytes".into(),
        array_span: Span::new(41, 42),
        mutable: false,
        ptr: "loan_ptr".into(),
        ptr_span: Span::new(42, 43),
        res: "loan_res".into(),
        res_span: Span::new(43, 44),
        body: vec![bool_decl("loan_scalar", true)],
    };
    let parameter = Param {
        name: "bytes".into(),
        ty: Ty::array(Ty::Int(IntTy::U8)),
        span: Span::new(39, 40),
        consumes: false,
    };
    let owner_span = Span::new(38, 39);
    let body = std::slice::from_ref(&exposure);
    let plan = BodyPlan::build(
        CallOwner::Function("__interpreter_exposure_probe".into()),
        owner_span,
        std::slice::from_ref(&parameter),
        body,
    )
    .expect("exposure probe has a typed source binding");
    let release = plan
        .exposure_plan(plan.body_scope(), span)
        .unwrap()
        .normal()
        .unwrap()
        .release_loan()
        .root()
        .to_owned();

    with_empty_interpreter(|interpreter, m| {
        let id = m.heap.add_array(bytes);
        let mut frame = frame_with(vec![("bytes", RtVal::Arr(id))]);
        frame
            .arm(&plan, "bytes", plan.frame_scope(), parameter.span)
            .expect("the owned parameter has its retained cleanup candidate");
        assert!(matches!(
            interpreter.exec_stmt(
                &exposure,
                plan.body_block().statements()[0].kind(),
                &plan,
                plan.body_scope(),
                m,
                &mut frame,
            ),
            Ok(Flow::Normal)
        ));
        assert!(var(&frame, release.as_str()).is_none());
        assert!(m.raw.allocs.iter().all(|allocation| !allocation.live));

        assert!(var(&frame, "bytes").is_some());
        assert!(var(&frame, "loan_ptr").is_none());
        assert!(var(&frame, "loan_res").is_none());
        assert!(var(&frame, "loan_scalar").is_none());
    });
}

#[test]
fn exposure_rejects_forged_source_mutability_and_pointer_before_opening_loan() {
    let span = Span::new(60, 61);
    let exposure = Stmt::Expose {
        kw_span: span,
        array: "bytes".into(),
        array_span: Span::new(61, 62),
        mutable: false,
        ptr: "loan_ptr".into(),
        ptr_span: Span::new(62, 63),
        res: "loan_res".into(),
        res_span: Span::new(63, 64),
        body: vec![bool_decl("loan_scalar", true)],
    };
    let parameters = [
        Param {
            name: "bytes".into(),
            ty: Ty::array(Ty::Int(IntTy::U8)),
            span: Span::new(58, 59),
            consumes: false,
        },
        Param {
            name: "other".into(),
            ty: Ty::array(Ty::Int(IntTy::U8)),
            span: Span::new(59, 60),
            consumes: false,
        },
    ];
    let body = std::slice::from_ref(&exposure);
    let plan = BodyPlan::build(
        CallOwner::Function("__interpreter_exposure_identity_probe".into()),
        Span::new(57, 58),
        &parameters,
        body,
    )
    .expect("exposure identity probe has two typed byte-array bindings");

    let mut swapped_owner = exposure.dup();
    let Stmt::Expose { array, .. } = &mut swapped_owner else {
        unreachable!()
    };
    *array = "other".into();

    let mut changed_mutability = exposure.dup();
    let Stmt::Expose { mutable, .. } = &mut changed_mutability else {
        unreachable!()
    };
    *mutable = true;

    let mut changed_pointer = exposure.dup();
    let Stmt::Expose { ptr, .. } = &mut changed_pointer else {
        unreachable!()
    };
    *ptr = "forged_ptr".into();

    for forged in [swapped_owner, changed_mutability, changed_pointer] {
        with_empty_interpreter(|interpreter, m| {
            let mut array = |value: i128| {
                RtVal::Arr(m.heap.add_array(
                    RtArray::from_values(Ty::Int(IntTy::U8), vec![RtVal::Int(value)], span)
                        .expect("byte array fixture"),
                ))
            };
            let mut frame = frame_with(vec![("bytes", array(7)), ("other", array(9))]);
            let outcome = interpreter.exec_stmt(
                &forged,
                plan.body_block().statements()[0].kind(),
                &plan,
                plan.body_scope(),
                m,
                &mut frame,
            );
            let Err(trap) = outcome else {
                panic!("forged exposure identity reached execution")
            };
            assert!(trap.undef, "{}", trap.message);
            assert!(
                trap.message.contains("retained rebuild action"),
                "{}",
                trap.message
            );
            assert!(
                m.raw.allocs.is_empty(),
                "identity rejection must precede loan allocation"
            );
            assert!(var(&frame, "loan_ptr").is_none());
            assert!(var(&frame, "forged_ptr").is_none());
            assert!(var(&frame, "loan_res").is_none());
            assert!(var(&frame, "loan_scalar").is_none());
        });
    }
}

#[test]
fn trapped_blocks_retain_scalar_and_owner_places_without_running_cleanup() {
    let body = vec![
        bool_decl("trapped_scalar", true),
        bool_array_decl("trapped_flags"),
        Stmt::ExprStmt(expr(
            ExprKind::Index {
                array: "trapped_flags".into(),
                array_span: Span::new(0, 0),
                index: Box::new(int_lit(1)),
            },
            Some(Ty::Bool),
        )),
    ];

    with_empty_interpreter(|interpreter, m| {
        let mut frame = Frame::new(None);
        let trapped = match exec_test_block(interpreter, &body, m, &mut frame) {
            Err(trap) => trap,
            Ok(_) => panic!("out-of-bounds index should trap"),
        };

        assert_eq!(trapped.message, "index out of bounds: index 1, length 1");
        assert!(var(&frame, "trapped_scalar").is_some());
        assert!(var(&frame, "trapped_flags").is_some());
    });
}

#[test]
fn unsafe_marker_keeps_array_local_in_the_enclosing_scope() {
    let unsafe_block = Stmt::Unsafe {
        kw_span: Span::new(0, 0),
        body: vec![bool_array_decl("open_flags")],
    };
    with_empty_interpreter(|interpreter, m| {
        let mut frame = Frame::new(None);
        assert!(matches!(
            exec_test_stmt(interpreter, unsafe_block, m, &mut frame),
            Ok(Flow::Normal)
        ));

        assert!(var(&frame, "open_flags").is_some());
    });
}

#[test]
fn boolean_option_construction_access_and_empty_trap_are_typed() {
    let some_false = expr(
        ExprKind::SomeE(Box::new(expr(ExprKind::BoolLit(false), Some(Ty::Bool)))),
        Some(Ty::option(Ty::Bool)),
    );
    let is_some = expr(
        ExprKind::IsSome {
            operand: Box::new(some_false.dup()),
        },
        Some(Ty::Bool),
    );
    let value = expr(
        ExprKind::OptValue {
            operand: Box::new(some_false),
        },
        Some(Ty::Bool),
    );

    assert!(matches!(
        eval_with_empty_runtime(&is_some),
        Ok(RtVal::Bool(true))
    ));
    assert!(matches!(
        eval_with_empty_runtime(&value),
        Ok(RtVal::Bool(false))
    ));

    let none = expr(ExprKind::NoneE, Some(Ty::option(Ty::Bool)));
    let runtime_none = eval_with_empty_runtime(&none).unwrap();
    assert!(Heap::new()
        .spec_of(&runtime_none)
        .expect("an option has a snapshot")
        .same_spec(&SpecVal::Opt {
            payload: Some(Ty::Bool),
            value: None,
        }));
    let empty_value = expr(
        ExprKind::OptValue {
            operand: Box::new(none),
        },
        Some(Ty::Bool),
    );
    assert_eq!(
        eval_with_empty_runtime(&empty_value).unwrap_err(),
        "`.value` of an empty option"
    );
}

#[test]
fn deep_copy_recurses_through_present_options() {
    let original = RtVal::Opt {
        payload: Ty::Bool,
        value: Some(Box::new(RtVal::Bool(false))),
    };
    let copied = Heap::new()
        .deep_copy(&original)
        .expect("an option copies");
    assert!(matches!(
        copied,
        RtVal::Opt {
            payload: Ty::Bool,
            value: Some(value),
        } if matches!(*value, RtVal::Bool(false))
    ));
}

#[test]
fn boolean_array_literal_allocation_index_store_and_snapshots_are_typed() {
    with_empty_interpreter(|interpreter, m| {
        let bool_ty = Ty::array(Ty::Bool);
        let literal = expr(
            ExprKind::ArrayLit(vec![
                expr(ExprKind::BoolLit(true), Some(Ty::Bool)),
                expr(ExprKind::BoolLit(false), Some(Ty::Bool)),
            ]),
            Some(bool_ty.clone()),
        );
        let RtVal::Arr(values) =
            eval_test_expression(interpreter, &literal, m, &mut Frame::new(None)).unwrap()
        else {
            panic!("expected an array")
        };
        assert_eq!(m.heap.array(values).unwrap().payload(), Ty::Bool);
        assert_eq!(rt_bools_of(m.heap.array(values).unwrap()), vec![true, false]);

        let allocated = expr(
            ExprKind::AllocArray {
                elem: Ty::Bool,
                len: Box::new(int_lit(2)),
                init: Box::new(expr(ExprKind::BoolLit(true), Some(Ty::Bool))),
            },
            Some(bool_ty),
        );
        let RtVal::Arr(values) =
            eval_test_expression(interpreter, &allocated, m, &mut Frame::new(None)).unwrap()
        else {
            panic!("expected an array")
        };
        m.heap.arrays[values]
            .set(1, RtVal::Bool(false), Span::new(0, 0))
            .expect("a Boolean value inhabits a Boolean payload");
        let index = expr(
            ExprKind::Index {
                array: "flags".into(),
                array_span: Span::new(0, 0),
                index: Box::new(int_lit(1)),
            },
            Some(Ty::Bool),
        );
        let mut frame = frame_with(vec![("flags", RtVal::Arr(values))]);
        assert!(matches!(
            eval_test_expression(interpreter, &index, m, &mut frame),
            Ok(RtVal::Bool(false))
        ));

        let empty = RtVal::Arr(m.heap.add_array(rt_bools(&[])));
        assert!(m
            .heap
            .spec_of(&empty)
            .expect("an array has a snapshot")
            .same_spec(&SpecVal::Arr(spec_bools(&[]))));
        let Some(RtVal::Arr(copied)) = m.heap.deep_copy(&empty) else {
            panic!("expected copied array")
        };
        assert_eq!(m.heap.array(copied).unwrap().payload(), Ty::Bool);
        assert_eq!(m.heap.array(copied).unwrap().len(), 0);
    });
}
