//! Plans: outlines, cleanup routes, recipes, trap sites and their reconciliation.
use sable::ast::{
    BinOp, ClassDecl, Clause, ClauseKind, Expr, ExprKind, Field, FnDecl, IntTy, Method,
    Mutability, Param, Program, ResKind, SelfKind, SlotOp, Stmt, Ty,
};
use sable::drops::{
    ClassDropPhase, ClassDropPlan, ExitKind, ExitRoute, ValueDropAction, ValueDropRecipe,
};
use sable::flow::summarize_block;
use sable::outline::{BlockKind, BranchArm, ControlOutline, ScopeKind, StatementPlanKind};
use sable::place::{CallOwner, Place, ValueTransferKey, ValueTransferSink};
use sable::plan::{AssignmentStaging, BodyPlan, CompilerTempKind};
use sable::program::{ControlBody, ControlProgram};
use sable::repr::Repr;
use sable::span::Span;
use sable::traps::direct_expression_traps;

/// Deep copies of syntax, which has no copies of its own.
trait Dup {
    fn dup(&self) -> Self;
}

impl<T: Dup> Dup for Vec<T> {
    fn dup(&self) -> Self {
        self.iter().map(|x| x.dup()).collect()
    }
}

impl<T: Dup> Dup for Option<T> {
    fn dup(&self) -> Self {
        self.as_ref().map(|x| x.dup())
    }
}

impl<T: Dup> Dup for Box<T> {
    fn dup(&self) -> Self {
        Box::new((**self).dup())
    }
}

impl Dup for Expr {
    fn dup(&self) -> Self {
        Expr {
            kind: self.kind.dup(),
            span: self.span,
            ty: self.ty.clone(),
        }
    }
}

impl Dup for ExprKind {
    fn dup(&self) -> Self {
        match self {
            ExprKind::IntLit(n) => ExprKind::IntLit(*n),
            ExprKind::BoolLit(b) => ExprKind::BoolLit(*b),
            ExprKind::Var(s) => ExprKind::Var(s.clone()),
            ExprKind::Unary { op, operand } => ExprKind::Unary {
                op: *op,
                operand: operand.dup(),
            },
            ExprKind::Binary {
                op,
                op_span,
                lhs,
                rhs,
            } => ExprKind::Binary {
                op: *op,
                op_span: *op_span,
                lhs: lhs.dup(),
                rhs: rhs.dup(),
            },
            ExprKind::Widen { target, arg } => ExprKind::Widen {
                target: *target,
                arg: arg.dup(),
            },
            ExprKind::Narrow { target, arg } => ExprKind::Narrow {
                target: *target,
                arg: arg.dup(),
            },
            ExprKind::IsSome { operand } => ExprKind::IsSome {
                operand: operand.dup(),
            },
            ExprKind::OptValue { operand } => ExprKind::OptValue {
                operand: operand.dup(),
            },
            ExprKind::SomeE(e) => ExprKind::SomeE(e.dup()),
            ExprKind::NoneE => ExprKind::NoneE,
            ExprKind::OptTake {
                option,
                option_span,
            } => ExprKind::OptTake {
                option: option.clone(),
                option_span: *option_span,
            },
            ExprKind::Call {
                callee,
                callee_span,
                type_args,
                args,
            } => ExprKind::Call {
                callee: callee.clone(),
                callee_span: *callee_span,
                type_args: type_args.clone(),
                args: args.dup(),
            },
            ExprKind::CtorCall {
                class,
                class_span,
                type_args,
                init,
                args,
            } => ExprKind::CtorCall {
                class: class.clone(),
                class_span: *class_span,
                type_args: type_args.clone(),
                init: init.clone(),
                args: args.dup(),
            },
            ExprKind::MethodCall {
                recv,
                recv_span,
                method,
                method_span,
                args,
            } => ExprKind::MethodCall {
                recv: recv.clone(),
                recv_span: *recv_span,
                method: method.clone(),
                method_span: *method_span,
                args: args.dup(),
            },
            ExprKind::ArrayLit(items) => ExprKind::ArrayLit(items.dup()),
            ExprKind::AllocArray { elem, len, init } => ExprKind::AllocArray {
                elem: elem.clone(),
                len: len.dup(),
                init: init.dup(),
            },
            ExprKind::Index {
                array,
                array_span,
                index,
            } => ExprKind::Index {
                array: array.clone(),
                array_span: *array_span,
                index: index.dup(),
            },
            ExprKind::SelfField { field } => ExprKind::SelfField {
                field: field.clone(),
            },
            ExprKind::Borrow {
                array,
                field,
                mutable,
            } => ExprKind::Borrow {
                array: array.clone(),
                field: field.clone(),
                mutable: *mutable,
            },
            other => panic!("no test copies {other:?}"),
        }
    }
}

impl Dup for Stmt {
    fn dup(&self) -> Self {
        match self {
            Stmt::Decl {
                ty,
                name,
                name_span,
                init,
                mutable,
            } => Stmt::Decl {
                ty: ty.clone(),
                name: name.clone(),
                name_span: *name_span,
                init: init.dup(),
                mutable: *mutable,
            },
            Stmt::VarDecl {
                name,
                name_span,
                init,
                ty,
                mutable,
            } => Stmt::VarDecl {
                name: name.clone(),
                name_span: *name_span,
                init: init.dup(),
                ty: ty.clone(),
                mutable: *mutable,
            },
            Stmt::Assign {
                name,
                name_span,
                value,
            } => Stmt::Assign {
                name: name.clone(),
                name_span: *name_span,
                value: value.dup(),
            },
            Stmt::If {
                cond,
                then_block,
                else_block,
            } => Stmt::If {
                cond: cond.dup(),
                then_block: then_block.dup(),
                else_block: else_block.dup(),
            },
            Stmt::Return { value, span } => Stmt::Return {
                value: value.dup(),
                span: *span,
            },
            Stmt::ExprStmt(e) => Stmt::ExprStmt(e.dup()),
            Stmt::Assert(c) => Stmt::Assert(c.clone()),
            Stmt::FieldAssign {
                field,
                field_span,
                value,
            } => Stmt::FieldAssign {
                field: field.clone(),
                field_span: *field_span,
                value: value.dup(),
            },
            Stmt::Store {
                array,
                array_span,
                index,
                value,
            } => Stmt::Store {
                array: array.clone(),
                array_span: *array_span,
                index: index.dup(),
                value: value.dup(),
            },
            Stmt::While {
                cond,
                invariants,
                variant,
                kw_span,
                body,
            } => Stmt::While {
                cond: cond.dup(),
                invariants: invariants.clone(),
                variant: variant.clone(),
                kw_span: *kw_span,
                body: body.dup(),
            },
            Stmt::Unsafe { kw_span, body } => Stmt::Unsafe {
                kw_span: *kw_span,
                body: body.dup(),
            },
            Stmt::Expose {
                kw_span,
                array,
                array_span,
                mutable,
                ptr,
                ptr_span,
                res,
                res_span,
                body,
            } => Stmt::Expose {
                kw_span: *kw_span,
                array: array.clone(),
                array_span: *array_span,
                mutable: *mutable,
                ptr: ptr.clone(),
                ptr_span: *ptr_span,
                res: res.clone(),
                res_span: *res_span,
                body: body.dup(),
            },
            other => panic!("no test copies {other:?}"),
        }
    }
}

impl Dup for FnDecl {
    fn dup(&self) -> Self {
        FnDecl {
            foreign: self.foreign.clone(),
            name: self.name.clone(),
            name_span: self.name_span,
            type_params: self.type_params.clone(),
            params: self.params.clone(),
            ret: self.ret.clone(),
            pres: self.pres.clone(),
            posts: self.posts.clone(),
            body: self.body.dup(),
            span: self.span,
        }
    }
}

impl Dup for Method {
    fn dup(&self) -> Self {
        Method {
            self_kind: self.self_kind,
            f: self.f.dup(),
        }
    }
}

impl Dup for ClassDecl {
    fn dup(&self) -> Self {
        ClassDecl {
            name: self.name.clone(),
            name_span: self.name_span,
            type_params: self.type_params.clone(),
            fields: self.fields.clone(),
            invariants: self.invariants.clone(),
            inits: self.inits.dup(),
            methods: self.methods.dup(),
            deinit: self.deinit.dup(),
            span: self.span,
        }
    }
}

fn bool_expr(value: bool) -> Expr {
    Expr {
        kind: ExprKind::BoolLit(value),
        span: Span::new(0, 0),
        ty: Some(Ty::Bool),
    }
}

fn integer_expr(value: i128, span: Span) -> Expr {
    Expr {
        kind: ExprKind::IntLit(value),
        span,
        ty: Some(Ty::Int(IntTy::I32)),
    }
}

fn fresh_class_expr(span: Span) -> Expr {
    Expr {
        kind: ExprKind::CtorCall {
            class: "Child".into(),
            class_span: span,
            type_args: Vec::new(),
            init: "new".into(),
            args: Vec::new(),
        },
        span,
        ty: Some(Ty::Class(0)),
    }
}

fn cleanup_action_body() -> Vec<Stmt> {
    vec![
        Stmt::FieldAssign {
            field: "child".into(),
            field_span: at(10),
            value: fresh_class_expr(at(11)),
        },
        Stmt::FieldAssign {
            field: "count".into(),
            field_span: at(20),
            value: integer_expr(1, at(21)),
        },
        Stmt::ExprStmt(fresh_class_expr(at(30))),
    ]
}

fn arithmetic_expr(op: BinOp, span: Span) -> Expr {
    Expr {
        kind: ExprKind::Binary {
            op,
            op_span: span,
            lhs: Box::new(integer_expr(4, at(span.start + 2))),
            rhs: Box::new(integer_expr(2, at(span.start + 4))),
        },
        span,
        ty: Some(Ty::Int(IntTy::I32)),
    }
}

fn return_statement() -> Stmt {
    Stmt::Return {
        value: None,
        span: Span::new(0, 0),
    }
}

fn at(start: usize) -> Span {
    Span::new(start, start + 1)
}

#[test]
fn owner_slots_never_acquire_a_control_recipe_or_trap_plan() {
    let slots = Ty::slots(Ty::Int(IntTy::U64));
    let error = ValueDropAction::build(&slots, at(1))
        .expect_err("owner slots have no occupied-cell cleanup recipe yet");
    assert!(
        error
            .message
            .starts_with("internal.control.slots_unsupported:"),
        "{}",
        error.message
    );
    let error = ValueDropAction::build(&Ty::option(slots.clone()), at(1))
        .expect_err("an option over owner slots must stay on the owning cleanup path");
    assert!(
        error
            .message
            .starts_with("internal.control.slots_unsupported:"),
        "{}",
        error.message
    );

    let operation = Expr {
        kind: ExprKind::SlotOp {
            op: SlotOp::Alloc {
                elem: Ty::Int(IntTy::U64),
            },
            op_span: at(2),
            args: vec![integer_expr(4, at(3))],
        },
        span: at(2),
        ty: Some(slots),
    };
    let error = direct_expression_traps(&operation)
        .expect_err("owner-slot operations have no retained trap plan yet");
    assert!(
        error
            .message
            .starts_with("internal.control.slots_unsupported:"),
        "{}",
        error.message
    );
}

fn owned_decl(name: &str, span: Span) -> Stmt {
    Stmt::Decl {
        ty: Ty::array(Ty::Bool),
        name: name.into(),
        name_span: span,
        init: Some(bool_expr(false)),
        mutable: false,
    }
}

fn function(name: &str, span: Span, local: &str) -> FnDecl {
    FnDecl {
        foreign: None,
        name: name.into(),
        name_span: span,
        type_params: Vec::new(),
        params: Vec::new(),
        ret: Ty::Unit,
        pres: Vec::new(),
        posts: Vec::new(),
        body: vec![owned_decl(local, at(span.start + 1))],
        span,
    }
}

fn class(name: &str, span: Span, prefix: &str) -> ClassDecl {
    ClassDecl {
        name: name.into(),
        name_span: span,
        type_params: Vec::new(),
        fields: Vec::new(),
        invariants: Vec::new(),
        // Same-spelled members are legal across flavors and must retain
        // distinct semantic control identities.
        inits: vec![function(
            "same",
            at(span.start + 10),
            &format!("{prefix}_init_owner"),
        )],
        methods: vec![Method {
            self_kind: SelfKind::Shared,
            f: function(
                "same",
                at(span.start + 20),
                &format!("{prefix}_method_owner"),
            ),
        }],
        deinit: Some(vec![owned_decl(
            &format!("{prefix}_deinit_owner"),
            at(span.start + 30),
        )]),
        span,
    }
}

fn program() -> Program {
    Program {
        fns: Vec::new(),
        fn_templates: Vec::new(),
        class_templates: Vec::new(),
        classes: Vec::new(),
        records: Vec::new(),
    }
}

fn drop_names(plan: &BodyPlan, route: &ExitRoute) -> Vec<String> {
    route
        .drops()
        .iter()
        .map(|drop| plan.candidate(*drop).place().render())
        .collect()
}

fn clear_names(route: &ExitRoute) -> Vec<String> {
    route.clears().iter().map(Place::render).collect()
}

fn assert_flow(
    statements: &[Stmt],
    reaches_next: bool,
    has_reachable_return: bool,
    contains_return: bool,
) {
    let summary = summarize_block(statements);
    assert_eq!(summary.reaches_next, reaches_next);
    assert_eq!(summary.has_reachable_return, has_reachable_return);
    assert_eq!(summary.contains_return, contains_return);
    assert_eq!(
        summary.definitely_returns(),
        has_reachable_return && !reaches_next
    );
}

#[test]
fn branch_return_truth_table_distinguishes_may_from_must() {
    assert_flow(&[], true, false, false);
    assert_flow(&[return_statement()], false, true, true);

    assert_flow(
        &[Stmt::If {
            cond: bool_expr(true),
            then_block: vec![return_statement()],
            else_block: None,
        }],
        true,
        true,
        true,
    );

    assert_flow(
        &[Stmt::If {
            cond: bool_expr(true),
            then_block: vec![return_statement()],
            else_block: Some(vec![return_statement()]),
        }],
        false,
        true,
        true,
    );
}

#[test]
fn loops_fall_through_and_unsafe_is_transparent() {
    let returning_loop = Stmt::While {
        cond: bool_expr(true),
        invariants: Vec::new(),
        variant: None,
        kw_span: Span::new(0, 0),
        body: vec![return_statement()],
    };
    assert_flow(&[returning_loop], true, true, true);

    let returning_unsafe = Stmt::Unsafe {
        kw_span: Span::new(0, 0),
        body: vec![return_statement()],
    };
    assert_flow(&[returning_unsafe], false, true, true);
}

#[test]
fn structural_return_detection_includes_unreachable_and_exposure_bodies() {
    let unreachable_return = vec![
        return_statement(),
        Stmt::Unsafe {
            kw_span: Span::new(0, 0),
            body: vec![return_statement()],
        },
    ];
    assert_flow(&unreachable_return, false, true, true);

    let conditional_exposure_return = Stmt::Expose {
        kw_span: Span::new(0, 0),
        array: "bytes".into(),
        array_span: Span::new(0, 0),
        mutable: false,
        ptr: "ptr".into(),
        ptr_span: Span::new(0, 0),
        res: "mem".into(),
        res_span: Span::new(0, 0),
        body: vec![Stmt::If {
            cond: bool_expr(true),
            then_block: vec![return_statement()],
            else_block: None,
        }],
    };
    assert_flow(&[conditional_exposure_return], true, true, true);
}

#[test]
fn outline_ids_and_typed_control_edges_are_sealed_as_one_structure() {
    let owner = CallOwner::Function("outlined_edges".into());
    let declaration_span = at(100);
    let branch_anchor = at(20);
    let loop_keyword = at(30);
    let loop_condition = at(31);
    let unsafe_keyword = at(40);
    let exposure_keyword = at(50);
    let body = vec![
        owned_decl("bytes", at(1)),
        Stmt::Unsafe {
            kw_span: unsafe_keyword,
            body: vec![owned_decl("unsafe_local", at(2))],
        },
        Stmt::If {
            cond: Expr {
                kind: ExprKind::BoolLit(true),
                span: branch_anchor,
                ty: Some(Ty::Bool),
            },
            then_block: vec![Stmt::Return {
                value: None,
                span: at(21),
            }],
            else_block: Some(vec![owned_decl("else_local", at(22))]),
        },
        Stmt::While {
            cond: Expr {
                kind: ExprKind::BoolLit(false),
                span: loop_condition,
                ty: Some(Ty::Bool),
            },
            invariants: Vec::new(),
            variant: None,
            kw_span: loop_keyword,
            body: vec![owned_decl("iteration", at(32))],
        },
        Stmt::Expose {
            kw_span: exposure_keyword,
            array: "bytes".into(),
            array_span: at(51),
            mutable: false,
            ptr: "ptr".into(),
            ptr_span: at(52),
            res: "mem".into(),
            res_span: at(53),
            body: Vec::new(),
        },
    ];

    let outline = ControlOutline::build(owner, declaration_span, &body);
    let root = outline.body_block();
    let StatementPlanKind::Unsafe(unsafe_block) = outline.statement(root, 1).kind() else {
        panic!("unsafe statement lost its structural child")
    };
    let StatementPlanKind::Branch(branch_id) = outline.statement(root, 2).kind() else {
        panic!("if statement lost its structural edge")
    };
    let StatementPlanKind::Loop(loop_id) = outline.statement(root, 3).kind() else {
        panic!("while statement lost its structural edge")
    };
    let StatementPlanKind::Exposure(exposure_id) = outline.statement(root, 4).kind() else {
        panic!("exposure statement lost its structural edge")
    };
    let outlined_branch = outline.branch(branch_id);
    let outlined_loop = outline.loop_plan(loop_id);
    let outlined_exposure = outline.exposure(exposure_id);

    assert_eq!(outline.block(root).parent(), None);
    assert_eq!(outline.block(root).kind(), BlockKind::Body);
    assert_eq!(outline.block(unsafe_block).parent(), Some(root));
    assert_eq!(outline.block(unsafe_block).kind(), BlockKind::Unsafe);
    assert_eq!(outline.block(unsafe_block).scope(), outline.body_scope());
    assert_eq!(
        outline.block(outlined_branch.then_block).parent(),
        Some(root)
    );
    assert_eq!(
        outline.block(outlined_loop.body).kind(),
        BlockKind::LoopBody
    );
    assert_eq!(
        outline.block(outlined_exposure.body).kind(),
        BlockKind::Exposure
    );

    let plan = BodyPlan::seal(&outline, &[], &body)
        .expect("typed sealing should enrich the exact retained outline");
    assert_eq!(plan.body_block().id(), root);
    assert_eq!(plan.block(unsafe_block), outline.block(unsafe_block));

    let branch = plan
        .branch(outline.body_scope(), branch_anchor, true)
        .expect("branch has one stable parent/anchor identity");
    assert_eq!(branch.parent_scope(), outline.body_scope());
    assert_eq!(branch.anchor(), branch_anchor);
    assert_eq!(branch.then_arm().block(), outlined_branch.then_block);
    assert_eq!(
        branch.then_arm().scope(),
        outline.block(outlined_branch.then_block).scope()
    );
    assert!(branch.then_arm().flow().definitely_returns());
    assert!(branch.then_arm().normal_exit().is_none());
    let else_arm = branch.else_arm().expect("source has an else arm");
    assert!(else_arm.flow().can_fall_through());
    assert_eq!(
        else_arm
            .normal_exit()
            .expect("else reaches continuation")
            .kind(),
        ExitKind::Fallthrough
    );
    assert!(branch.flow().can_fall_through());

    let loop_plan = plan
        .loop_plan(outline.body_scope(), loop_keyword, loop_condition)
        .expect("loop has one stable parent/header identity");
    assert_eq!(loop_plan.body(), outlined_loop.body);
    assert_eq!(
        loop_plan.body_scope(),
        outline.block(outlined_loop.body).scope()
    );
    assert!(loop_plan.body_flow().can_fall_through());
    assert_eq!(
        loop_plan
            .backedge()
            .expect("loop body reaches its header")
            .kind(),
        ExitKind::Backedge
    );
    assert_eq!(&loop_plan.effect_key().owner, outline.owner());
    assert_eq!(loop_plan.effect_key().span, loop_keyword);

    let exposure = plan
        .exposure_plan(outline.body_scope(), exposure_keyword)
        .expect("exposure has one stable parent/header identity");
    assert_eq!(exposure.body(), outlined_exposure.body);
    assert_eq!(
        exposure.body_scope(),
        outline.block(outlined_exposure.body).scope()
    );
    assert!(exposure.body_flow().can_fall_through());
    assert_eq!(&exposure.effect_key().owner, outline.owner());
    let normal = exposure.normal().expect("body reaches the close edge");
    assert_eq!(normal.parent_scope(), outline.body_scope());
    assert_eq!(normal.capture(), &Place::local("mem"));
    assert_eq!(normal.body_exit().kind(), ExitKind::Fallthrough);
    assert_eq!(normal.rebuild().owner(), &Place::local("bytes"));
    assert_eq!(normal.rebuild().owner_span(), at(51));
    assert_eq!(normal.rebuild().owner_ty(), &Ty::array(Ty::Bool));
    assert_eq!(normal.rebuild().mutability(), Mutability::Shared);
    assert_eq!(normal.rebuild().pointer(), &Place::local("ptr"));
    assert_eq!(normal.rebuild().resource(), &Place::local("mem"));
    assert_eq!(normal.rebuild().keyword_span(), exposure_keyword);
    assert_eq!(normal.close().kind(), ExitKind::ExposureClose);
    assert!(
        normal
            .release_loan()
            .render()
            .contains("$sable$exposure_loan$")
    );
    assert!(exposure.flow().can_fall_through());
}

#[test]
fn callable_reconciliation_rejects_changed_exposure_source_identity() {
    let params = [
        Param {
            name: "left".into(),
            ty: Ty::array_ref(Ty::Int(IntTy::U8), Mutability::Shared),
            span: at(1),
            consumes: false,
        },
        Param {
            name: "right".into(),
            ty: Ty::array_ref(Ty::Int(IntTy::U8), Mutability::Shared),
            span: at(2),
            consumes: false,
        },
    ];
    let keyword = at(10);
    let body = vec![Stmt::Expose {
        kw_span: keyword,
        array: "left".into(),
        array_span: at(11),
        mutable: false,
        ptr: "pointer".into(),
        ptr_span: at(12),
        res: "memory".into(),
        res_span: at(13),
        body: Vec::new(),
    }];
    let plan = BodyPlan::build(
        CallOwner::Function("exposure_source_identity".into()),
        at(100),
        &params,
        &body,
    )
    .expect("the checked exposure has one exact retained source identity");

    let mut renamed = body.dup();
    let Stmt::Expose { array, .. } = &mut renamed[0] else {
        unreachable!()
    };
    *array = "right".into();
    let renamed = plan
        .validate_callable(&params, &renamed)
        .expect_err("a same-typed immutable owner may not reuse the retained exposure");
    assert!(renamed.message.contains("exposure owner"));

    let mut respanned = body.dup();
    let Stmt::Expose { array_span, .. } = &mut respanned[0] else {
        unreachable!()
    };
    *array_span = at(14);
    let respanned = plan
        .validate_callable(&params, &respanned)
        .expect_err("the owner use span is part of the retained exposure identity");
    assert!(respanned.message.contains("exposure owner"));

    let mut changed_mutability = body.dup();
    let Stmt::Expose { mutable, .. } = &mut changed_mutability[0] else {
        unreachable!()
    };
    *mutable = true;
    let changed_mutability = plan
        .validate_callable(&params, &changed_mutability)
        .expect_err("mutability may not be reconstructed independently by a consumer");
    assert!(changed_mutability.message.contains("mutability"));
}

#[test]
fn callable_reconciliation_rejects_loop_condition_respan() {
    let keyword = at(20);
    let condition = at(21);
    let body = vec![Stmt::While {
        cond: Expr {
            kind: ExprKind::BoolLit(true),
            span: condition,
            ty: Some(Ty::Bool),
        },
        invariants: Vec::new(),
        variant: None,
        kw_span: keyword,
        body: Vec::new(),
    }];
    let plan = BodyPlan::build(
        CallOwner::Function("loop_condition_identity".into()),
        at(100),
        &[],
        &body,
    )
    .expect("the loop has one exact retained condition identity");

    let mut respanned = body;
    let Stmt::While { cond, .. } = &mut respanned[0] else {
        unreachable!()
    };
    cond.span = at(22);
    let error = plan
        .validate_body_shape(&respanned)
        .expect_err("a changed condition span may not reuse the retained loop edge");
    assert!(error.message.contains("condition"));
}

#[test]
fn body_plan_orders_nested_return_backedge_and_frame_cleanup() {
    let condition = Expr {
        kind: ExprKind::BoolLit(true),
        span: at(20),
        ty: Some(Ty::Bool),
    };
    let body = vec![
        owned_decl("root", at(1)),
        Stmt::Unsafe {
            kw_span: at(2),
            body: vec![owned_decl("unsafe_local", at(3))],
        },
        Stmt::If {
            cond: condition,
            then_block: vec![
                owned_decl("branch", at(4)),
                Stmt::While {
                    cond: bool_expr(true),
                    invariants: Vec::new(),
                    variant: None,
                    kw_span: at(30),
                    body: vec![
                        owned_decl("iteration", at(5)),
                        Stmt::Return {
                            value: Some(bool_expr(true)),
                            span: at(40),
                        },
                    ],
                },
            ],
            else_block: Some(vec![owned_decl("other", at(6))]),
        },
    ];
    let params = vec![Param {
        name: "argument".into(),
        ty: Ty::array(Ty::Bool),
        span: at(7),
        consumes: false,
    }];
    let plan = BodyPlan::build(
        CallOwner::Function("control_test_routes".into()),
        at(100),
        &params,
        &body,
    )
    .expect("distinct structural anchors form a plan");

    let loop_scope = plan
        .scope_for(ScopeKind::LoopBody, at(30))
        .expect("loop scope");
    let backedge = plan.scope_exit(loop_scope);
    assert_eq!(backedge.kind(), ExitKind::Backedge);
    assert_eq!(backedge.scopes(), &[loop_scope]);
    assert_eq!(drop_names(&plan, &backedge), ["iteration"]);
    assert_eq!(clear_names(&backedge), ["iteration"]);

    let returned = plan
        .explicit_return(at(40), loop_scope)
        .expect("return route");
    assert_eq!(returned.lexical().kind(), ExitKind::Return);
    assert_eq!(
        drop_names(&plan, returned.lexical()),
        ["iteration", "branch", "unsafe_local", "root"]
    );
    assert_eq!(
        clear_names(returned.lexical()),
        ["iteration", "branch", "unsafe_local", "root"]
    );
    assert_eq!(drop_names(&plan, returned.frame()), ["argument"]);
    assert_eq!(clear_names(returned.frame()), ["argument"]);
    let result_slot = returned.result_slot().expect("explicit result slot");
    assert!(result_slot.render().starts_with("$sable$return$40$41$"));
    assert!(
        !returned
            .lexical()
            .clears()
            .iter()
            .any(|place| place == result_slot)
    );
    assert!(plan.implicit_return().result_slot().is_none());

    let unsafe_drop = plan
        .candidate_for_place(&Place::local("unsafe_local"))
        .expect("unsafe local is cleanup-bearing");
    assert_eq!(unsafe_drop.scope(), plan.body_scope());

    let trap = plan.trap_route();
    assert_eq!(trap.kind(), ExitKind::Trap);
    assert!(trap.scopes().is_empty());
    assert!(trap.clears().is_empty());
    assert!(trap.drops().is_empty());
}

#[test]
fn duplicate_structural_scope_keys_fail_closed() {
    let duplicate_anchor = at(10);
    let body = vec![
        Stmt::While {
            cond: bool_expr(true),
            invariants: Vec::new(),
            variant: None,
            kw_span: duplicate_anchor,
            body: Vec::new(),
        },
        Stmt::While {
            cond: bool_expr(false),
            invariants: Vec::new(),
            variant: None,
            kw_span: duplicate_anchor,
            body: Vec::new(),
        },
    ];
    let error = BodyPlan::build(
        CallOwner::Function("control_test_duplicate".into()),
        at(100),
        &[],
        &body,
    )
    .expect_err("duplicate stable keys must not fall back to traversal order");
    assert_eq!(error.span, duplicate_anchor);
    assert!(error.message.contains("duplicate LoopBody scope anchor"));
}

#[test]
fn compiler_temporaries_have_stable_lifetimes_in_the_control_plan() {
    let literal_span = at(10);
    let exposure_span = at(20);
    let body = vec![
        Stmt::Decl {
            ty: Ty::array(Ty::Bool),
            name: "values".into(),
            name_span: at(9),
            init: Some(Expr {
                kind: ExprKind::ArrayLit(vec![bool_expr(true), bool_expr(false)]),
                span: literal_span,
                ty: Some(Ty::array(Ty::Bool)),
            }),
            mutable: true,
        },
        Stmt::Expose {
            kw_span: exposure_span,
            array: "values".into(),
            array_span: at(21),
            mutable: true,
            ptr: "ptr".into(),
            ptr_span: at(22),
            res: "mem".into(),
            res_span: at(23),
            body: Vec::new(),
        },
    ];
    let build = || {
        BodyPlan::build(
            CallOwner::Function("control_test_temporaries".into()),
            at(100),
            &[],
            &body,
        )
        .expect("temporary sites are structurally unique")
    };
    let plan = build();
    let body_exit = plan.scope_exit(plan.body_scope());
    let body_names = clear_names(&body_exit);
    assert!(body_names[0].contains("$sable$bool_element$"));
    assert!(body_names[1].contains("$sable$bool_element$"));
    assert_eq!(body_names[2], "values");

    let exposure = plan
        .scope_for(ScopeKind::Exposure, exposure_span)
        .expect("exposure scope");
    assert_eq!(clear_names(&plan.scope_exit(exposure)), ["mem", "ptr"]);
    let close = plan
        .exposure_close(exposure, exposure_span)
        .expect("exposure close route");
    assert_eq!(close.kind(), ExitKind::ExposureClose);
    let close_names = clear_names(&close);
    assert!(close_names[0].contains("$sable$exposure_byte$"));
    assert!(close_names[1].contains("$sable$exposure_index$"));
    assert!(close_names[2].contains("$sable$exposure_loan$"));

    let rebuilt = build();
    assert_eq!(
        clear_names(&rebuilt.scope_exit(rebuilt.body_scope())),
        body_names
    );
}

#[test]
fn assignment_actions_seal_scope_destination_drop_and_staging() {
    let branch_anchor = at(20);
    let loop_anchor = at(30);
    let assignment_span = at(40);
    let assign = |name: &str| Stmt::Assign {
        name: name.into(),
        name_span: assignment_span,
        value: if name == "owner" {
            fresh_class_expr(at(41))
        } else {
            bool_expr(true)
        },
    };
    let body = vec![
        Stmt::Decl {
            ty: Ty::Class(0),
            name: "owner".into(),
            name_span: at(1),
            init: None,
            mutable: true,
        },
        Stmt::Decl {
            ty: Ty::Bool,
            name: "flag".into(),
            name_span: at(2),
            init: Some(bool_expr(false)),
            mutable: true,
        },
        Stmt::If {
            cond: Expr {
                kind: ExprKind::BoolLit(true),
                span: branch_anchor,
                ty: Some(Ty::Bool),
            },
            then_block: vec![assign("owner")],
            else_block: Some(vec![assign("flag")]),
        },
        Stmt::While {
            cond: bool_expr(false),
            invariants: Vec::new(),
            variant: None,
            kw_span: loop_anchor,
            body: vec![assign("owner")],
        },
    ];
    let build = || {
        BodyPlan::build(
            CallOwner::Function("assignment_actions".into()),
            at(100),
            &[],
            &body,
        )
        .expect("assignment sites have stable structural identities")
    };
    let plan = build();
    assert_eq!(plan.assignments().len(), 3);
    let then_scope = plan
        .scope_for(ScopeKind::BranchArm(BranchArm::Then), branch_anchor)
        .unwrap();
    let else_scope = plan
        .scope_for(ScopeKind::BranchArm(BranchArm::Else), branch_anchor)
        .unwrap();
    let loop_scope = plan.scope_for(ScopeKind::LoopBody, loop_anchor).unwrap();

    let then_action = plan
        .assignment(then_scope, assignment_span, &Place::local("owner"))
        .unwrap();
    assert_eq!(then_action.scope(), then_scope);
    assert_eq!(then_action.ty(), &Ty::Class(0));
    assert_eq!(
        then_action.transfer_key(),
        &ValueTransferKey {
            owner: CallOwner::Function("assignment_actions".into()),
            span: at(41),
            sink: ValueTransferSink::Assignment(Place::local("owner")),
        }
    );
    assert!(then_action.previous().is_some());
    let AssignmentStaging::Temporary(then_temp) = then_action.staging() else {
        panic!("class replacement must stage its RHS")
    };
    assert!(then_temp.render().contains("$sable$assignment$"));

    let else_action = plan
        .assignment(else_scope, assignment_span, &Place::local("flag"))
        .unwrap();
    assert_eq!(else_action.scope(), else_scope);
    assert_eq!(else_action.ty(), &Ty::Bool);
    assert_eq!(else_action.previous(), None);
    assert_eq!(else_action.staging(), &AssignmentStaging::Direct);

    let loop_action = plan
        .assignment(loop_scope, assignment_span, &Place::local("owner"))
        .unwrap();
    assert_eq!(loop_action.previous(), then_action.previous());
    let AssignmentStaging::Temporary(loop_temp) = loop_action.staging() else {
        panic!("loop replacement must stage its RHS")
    };
    assert_ne!(then_temp, loop_temp);

    let rebuilt = build();
    let rebuilt_then = rebuilt
        .scope_for(ScopeKind::BranchArm(BranchArm::Then), branch_anchor)
        .unwrap();
    assert_eq!(
        rebuilt
            .assignment(rebuilt_then, assignment_span, &Place::local("owner"))
            .unwrap()
            .staging(),
        then_action.staging()
    );
}

#[test]
fn assignment_action_keys_and_destinations_fail_closed() {
    let same_span = at(10);
    let declaration = Stmt::Decl {
        ty: Ty::Bool,
        name: "left".into(),
        name_span: at(1),
        init: Some(bool_expr(false)),
        mutable: true,
    };
    let assignment = |name: &str| Stmt::Assign {
        name: name.into(),
        name_span: same_span,
        value: bool_expr(true),
    };
    let duplicate = BodyPlan::build(
        CallOwner::Function("duplicate_assignments".into()),
        at(100),
        &[],
        &[declaration.dup(), assignment("left"), assignment("left")],
    )
    .expect_err("one scope/span pair cannot identify two assignments");
    assert_eq!(duplicate.span, same_span);
    assert!(duplicate.message.contains("duplicate assignment span"));

    let before_declaration = BodyPlan::build(
        CallOwner::Function("assignment_before_binding".into()),
        at(100),
        &[],
        &[assignment("left"), declaration.dup()],
    )
    .expect_err("an assignment cannot borrow a later binding identity");
    assert!(
        before_declaration
            .message
            .contains("no preceding planned binding")
    );

    let sibling = BodyPlan::build(
        CallOwner::Function("sibling_assignment".into()),
        at(100),
        &[],
        &[Stmt::If {
            cond: Expr {
                kind: ExprKind::BoolLit(true),
                span: at(20),
                ty: Some(Ty::Bool),
            },
            then_block: vec![declaration.dup()],
            else_block: Some(vec![assignment("left")]),
        }],
    )
    .expect_err("a sibling branch cannot reuse another arm's binding");
    assert!(sibling.message.contains("outside this scope"));

    let plan = BodyPlan::build(
        CallOwner::Function("tampered_assignment".into()),
        at(100),
        &[],
        &[declaration, assignment("left")],
    )
    .unwrap();
    let error = plan
        .assignment(plan.body_scope(), same_span, &Place::local("right"))
        .expect_err("a changed destination must not reuse the original action");
    assert!(error.message.contains("targets `left`, not `right`"));
}

#[test]
fn trap_sites_have_injective_structural_identity_and_empty_routes() {
    let trap_span = at(10);
    let expression = arithmetic_expr(BinOp::Add, trap_span);
    let duplicate = BodyPlan::build(
        CallOwner::Function("duplicate_traps".into()),
        at(100),
        &[],
        &[
            Stmt::ExprStmt(expression.dup()),
            Stmt::ExprStmt(expression.dup()),
        ],
    )
    .expect_err("cloned trap sites may not receive traversal identities");
    assert_eq!(duplicate.span, trap_span);
    assert!(duplicate.message.contains("duplicate AddOverflow"));

    let branch_anchor = at(20);
    let body = [Stmt::If {
        cond: Expr {
            kind: ExprKind::BoolLit(true),
            span: branch_anchor,
            ty: Some(Ty::Bool),
        },
        then_block: vec![Stmt::ExprStmt(expression.dup())],
        else_block: Some(vec![Stmt::ExprStmt(expression.dup())]),
    }];
    let plan = BodyPlan::build(
        CallOwner::Function("scoped_traps".into()),
        at(101),
        &[],
        &body,
    )
    .expect("the active lexical scope distinguishes sibling sites");
    for arm in [BranchArm::Then, BranchArm::Else] {
        let scope = plan
            .scope_for(ScopeKind::BranchArm(arm), branch_anchor)
            .unwrap();
        let sites = plan.expression_trap_sites(scope, &expression).unwrap();
        assert_eq!(sites.len(), 1);
        assert_eq!(sites[0].scope(), scope);
        assert_eq!(sites[0].span(), trap_span);
        assert_eq!(sites[0].route().kind(), ExitKind::Trap);
        assert!(sites[0].route().scopes().is_empty());
        assert!(sites[0].route().clears().is_empty());
        assert!(sites[0].route().drops().is_empty());
    }
}

#[test]
fn body_reconciliation_rejects_missing_mismatched_and_moved_trap_sites() {
    let trap_span = at(10);
    let original = arithmetic_expr(BinOp::Add, trap_span);
    let direct_body = vec![Stmt::ExprStmt(original.dup())];
    let direct = BodyPlan::build(
        CallOwner::Function("changed_trap".into()),
        at(100),
        &[],
        &direct_body,
    )
    .unwrap();
    let missing = direct
        .validate_body_shape(&[])
        .expect_err("deleting a sealed trap site must fail");
    assert!(missing.message.contains("planned trap site"));

    let mismatched = [Stmt::ExprStmt(arithmetic_expr(BinOp::Sub, trap_span))];
    let mismatch = direct
        .validate_body_shape(&mismatched)
        .expect_err("a different operation may not reuse the old site");
    assert!(mismatch.message.contains("SubOverflow"));

    let branch_anchor = at(30);
    let branch_body = vec![Stmt::If {
        cond: Expr {
            kind: ExprKind::BoolLit(true),
            span: branch_anchor,
            ty: Some(Ty::Bool),
        },
        then_block: vec![Stmt::ExprStmt(original.dup())],
        else_block: Some(Vec::new()),
    }];
    let branch = BodyPlan::build(
        CallOwner::Function("moved_trap".into()),
        at(101),
        &[],
        &branch_body,
    )
    .unwrap();
    let moved = [Stmt::If {
        cond: Expr {
            kind: ExprKind::BoolLit(true),
            span: branch_anchor,
            ty: Some(Ty::Bool),
        },
        then_block: Vec::new(),
        else_block: Some(vec![Stmt::ExprStmt(original)]),
    }];
    let moved = branch
        .validate_body_shape(&moved)
        .expect_err("moving a site to a sibling scope changes its identity");
    assert!(moved.message.contains("active lexical scope"));
}

#[test]
fn callable_reconciliation_covers_scope_reuse_bindings_candidates_and_parameters() {
    let branch_anchor = at(20);
    let branch = Stmt::If {
        cond: Expr {
            kind: ExprKind::BoolLit(true),
            span: branch_anchor,
            ty: Some(Ty::Bool),
        },
        then_block: Vec::new(),
        else_block: None,
    };
    let branch_plan = BodyPlan::build(
        CallOwner::Function("reused_scope".into()),
        at(100),
        &[],
        std::slice::from_ref(&branch),
    )
    .unwrap();
    let duplicate_scope = branch_plan
        .validate_body_shape(&[branch.dup(), branch])
        .expect_err("cloned empty scopes need an injective identity too");
    assert!(
        duplicate_scope
            .message
            .contains("reuse one checked structural identity")
    );

    let declaration = owned_decl("owner", at(40));
    let declaration_plan = BodyPlan::build(
        CallOwner::Function("binding_shape".into()),
        at(101),
        &[],
        std::slice::from_ref(&declaration),
    )
    .unwrap();
    let mut renamed = declaration.dup();
    let Stmt::Decl { name, .. } = &mut renamed else {
        unreachable!()
    };
    *name = "renamed".into();
    assert!(
        declaration_plan.validate_body_shape(&[renamed]).is_err(),
        "an otherwise-unused source binding cannot be renamed under a stale plan"
    );
    assert!(
        declaration_plan.validate_body_shape(&[]).is_err(),
        "deleting a cleanup-bearing declaration cannot leave an unvisited DropId"
    );

    let params = [Param {
        name: "input".into(),
        ty: Ty::array(Ty::Bool),
        span: at(50),
        consumes: false,
    }];
    let parameter_plan = BodyPlan::build(
        CallOwner::Function("parameter_shape".into()),
        at(102),
        &params,
        &[],
    )
    .unwrap();
    let mut changed_name = params.clone();
    changed_name[0].name = "other".into();
    assert!(
        parameter_plan
            .validate_callable(&changed_name, &[])
            .is_err()
    );
    let mut changed_type = params.clone();
    changed_type[0].ty = Ty::Bool;
    assert!(
        parameter_plan
            .validate_callable(&changed_type, &[])
            .is_err()
    );
}

#[test]
fn control_program_indexes_every_executable_or_verified_body_by_typed_owner() {
    let mut source = program();
    source.fns.push(function("free", at(100), "free_owner"));
    source
        .fns
        .push(function("test_dynamic", at(200), "test_owner"));
    let mut template = function("template", at(300), "template_owner");
    template.type_params.push("T".into());
    source.fn_templates.push(template);
    source.classes.push(class("Concrete", at(400), "concrete"));
    let mut template_class = class("Generic", at(500), "generic");
    template_class.type_params.push("T".into());
    source.class_templates.push(template_class);

    let control = ControlProgram::build(&source).expect("typed bodies form one table");
    assert!(!control.is_empty());
    assert_eq!(control.len(), 9);

    let expected = [
        CallOwner::Function("free".into()),
        CallOwner::Function("test_dynamic".into()),
        CallOwner::Function("template".into()),
        CallOwner::Constructor {
            class: "Concrete".into(),
            init: "same".into(),
        },
        CallOwner::Method {
            class: "Concrete".into(),
            method: "same".into(),
        },
        CallOwner::Deinitializer {
            class: "Concrete".into(),
        },
        CallOwner::Constructor {
            class: "Generic".into(),
            init: "same".into(),
        },
        CallOwner::Method {
            class: "Generic".into(),
            method: "same".into(),
        },
        CallOwner::Deinitializer {
            class: "Generic".into(),
        },
    ];
    assert_eq!(
        control.iter().iter().map(ControlBody::owner).collect::<Vec<_>>(),
        expected.iter().collect::<Vec<_>>()
    );

    let constructor = control
        .body(&expected[3], at(900))
        .expect("constructor has an exact typed lookup");
    let method = control
        .body(&expected[4], at(901))
        .expect("same-spelled method remains distinct");
    assert_eq!(constructor.owner(), constructor.plan().owner());
    assert_eq!(method.owner(), method.plan().owner());
    assert_eq!(constructor.declaration_span(), at(410));
    assert_eq!(method.declaration_span(), at(420));
    assert!(
        constructor
            .plan()
            .candidate_for_place(&Place::local("concrete_init_owner"))
            .is_some()
    );
    assert!(
        constructor
            .plan()
            .candidate_for_place(&Place::local("concrete_method_owner"))
            .is_none()
    );
    assert!(
        method
            .plan()
            .candidate_for_place(&Place::local("concrete_method_owner"))
            .is_some()
    );

    let missing_span = at(999);
    let error = control
        .body(&CallOwner::Function("absent".into()), missing_span)
        .expect_err("missing bodies may not fall back to rebuilding a plan");
    assert_eq!(error.span, missing_span);
    assert!(error.message.contains("function `absent`"));
}

#[test]
fn value_drop_actions_seal_only_current_recursive_cleanup_shapes() {
    let span = at(390);

    let class_ty = Ty::Class(2);
    let class = ValueDropAction::build(&class_ty, span)
        .unwrap()
        .expect("class owns one concrete destruction recipe");
    assert_eq!(class.ty(), &class_ty);
    let ValueDropRecipe::DropClass(class_drop) = class.recipe() else {
        panic!("class action must terminate in a class recipe")
    };
    assert_eq!(class_drop.class(), 2);
    assert!(class_drop.terminal_trap_route().is_terminal_trap());

    let array_ty = Ty::array(Ty::Bool);
    let array = ValueDropAction::build(&array_ty, span)
        .unwrap()
        .expect("current arrays release one non-affine buffer");
    assert!(matches!(
        array.recipe(),
        ValueDropRecipe::ReleaseArray { element: Ty::Bool }
    ));

    let option_array_ty = Ty::option(array_ty.clone());
    let option_array = ValueDropAction::build(&option_array_ty, span)
        .unwrap()
        .expect("an admitted owning option seals its present payload");
    let ValueDropRecipe::DropPresent(payload) = option_array.recipe() else {
        panic!("owning option must retain a present-only recipe")
    };
    assert_eq!(payload.ty(), &array_ty);
    assert!(matches!(
        payload.recipe(),
        ValueDropRecipe::ReleaseArray { element: Ty::Bool }
    ));

    let option_class_ty = Ty::option(Ty::Class(2));
    let option_class = ValueDropAction::build(&option_class_ty, span)
        .unwrap()
        .expect("an admitted class option seals its present class recipe");
    let ValueDropRecipe::DropPresent(payload) = option_class.recipe() else {
        panic!("owning option must retain a present-only recipe")
    };
    assert!(matches!(
        payload.recipe(),
        ValueDropRecipe::DropClass(action) if action.class() == 2
    ));

    for non_cleanup in [
        Ty::Bool,
        Ty::option(Ty::Bool),
        Ty::Res(ResKind::RawSpan),
    ] {
        assert!(
            ValueDropAction::build(&non_cleanup, span)
                .unwrap()
                .is_none()
        );
    }

    for unsupported in [
        Ty::array(Ty::Class(2)),
        Ty::option(Ty::option(Ty::Class(2))),
        Ty::option(Ty::array(Ty::Int(IntTy::U64))),
        Ty::option(Ty::Res(ResKind::RawSpan)),
    ] {
        let error = ValueDropAction::build(&unsupported, span)
            .expect_err("unsealed owner nesting must fail before it acquires cleanup");
        assert_eq!(error.span, span);
        assert!(
            error.message.contains("occupied-slot")
                || error.message.contains("one-level cleanup family"),
            "unexpected refusal for `{}`: {}",
            unsupported.name(),
            error.message
        );
    }
}

#[test]
fn class_drop_fields_carry_recursive_actions_but_resources_remain_must_consume() {
    let mut owner = class("Owner", at(395), "owner");
    owner.fields = vec![
        Field {
            name: "child".into(),
            ty: Ty::Class(0),
            span: at(396),
            must_consume: false,
        },
        Field {
            name: "bytes".into(),
            ty: Ty::array(Ty::Bool),
            span: at(397),
            must_consume: false,
        },
        Field {
            name: "authority".into(),
            ty: Ty::Res(ResKind::RawSpan),
            span: at(398),
            must_consume: true,
        },
    ];
    let plan = ClassDropPlan::build(1, &owner).expect("current field shapes seal");
    let fields = plan
        .phases()
        .iter()
        .filter_map(|phase| match phase {
            ClassDropPhase::DropField(field) => Some(field),
            ClassDropPhase::CheckInvariant | ClassDropPhase::RunDeinitializer(_) => None,
        })
        .collect::<Vec<_>>();
    assert_eq!(
        fields.iter().map(|field| field.name()).collect::<Vec<_>>(),
        ["authority", "bytes", "child"]
    );
    assert!(fields[0].must_consume());
    assert!(fields[0].drop_action().is_none());
    assert!(matches!(
        fields[1].drop_action().map(ValueDropAction::recipe),
        Some(ValueDropRecipe::ReleaseArray { element: Ty::Bool })
    ));
    assert!(matches!(
        fields[2].drop_action().map(ValueDropAction::recipe),
        Some(ValueDropRecipe::DropClass(action)) if action.class() == 0
    ));

    owner.fields[1].ty = Ty::array(Ty::Class(0));
    let error = ClassDropPlan::build(1, &owner)
        .expect_err("owner arrays need occupied-slot semantics before field cleanup");
    assert_eq!(error.span, at(397));
    assert!(error.message.contains("occupied-slot"));
}

#[test]
fn concrete_class_drop_plan_seals_exact_identity_order_and_no_unwind() {
    let mut source = program();
    let mut concrete = class("Owner", at(400), "owner");
    concrete.fields = vec![
        Field {
            name: "first".into(),
            ty: Ty::Int(IntTy::U64),
            span: at(401),
            must_consume: false,
        },
        Field {
            name: "second".into(),
            ty: Ty::Bool,
            span: at(402),
            must_consume: false,
        },
        Field {
            name: "third".into(),
            ty: Ty::array(Ty::Bool),
            span: at(403),
            must_consume: false,
        },
    ];
    concrete.invariants = vec![Clause {
        kind: ClauseKind::Invariant,
        label: Some("owner_live".into()),
        fact: false,
        unfold: false,
        text: "true".into(),
        span: at(404),
        line_span: at(405),
    }];
    concrete.deinit = Some(Vec::new());
    source.classes.push(concrete.dup());

    let control = ControlProgram::build(&source).expect("concrete class has one drop plan");
    let plan = control
        .class_drop(0, &source.classes[0])
        .expect("exact concrete declaration resolves its drop plan");
    assert_eq!(plan.class(), 0);
    assert_eq!(plan.class_name(), "Owner");
    assert_eq!(control.class_drops().len(), 1);
    assert_eq!(plan.terminal_trap_route().kind(), ExitKind::Trap);
    assert!(plan.terminal_trap_route().scopes().is_empty());
    assert!(plan.terminal_trap_route().clears().is_empty());
    assert!(plan.terminal_trap_route().drops().is_empty());

    assert!(matches!(plan.phases()[0], ClassDropPhase::CheckInvariant));
    assert!(matches!(
        &plan.phases()[1],
        ClassDropPhase::RunDeinitializer(CallOwner::Deinitializer { class })
            if class == "Owner"
    ));
    let fields = plan.phases()[2..]
        .iter()
        .map(|phase| match phase {
            ClassDropPhase::DropField(field) => {
                (field.index(), field.name(), field.ty().clone())
            }
            _ => panic!("only field phases follow the deinitializer"),
        })
        .collect::<Vec<_>>();
    assert_eq!(
        fields,
        vec![
            (2, "third", Ty::array(Ty::Bool)),
            (1, "second", Ty::Bool),
            (0, "first", Ty::Int(IntTy::U64)),
        ]
    );
    let ClassDropPhase::DropField(array_field) = &plan.phases()[2] else {
        unreachable!()
    };
    assert!(matches!(
        array_field.drop_action().map(ValueDropAction::recipe),
        Some(ValueDropRecipe::ReleaseArray { element: Ty::Bool })
    ));
    for phase in &plan.phases()[3..] {
        let ClassDropPhase::DropField(field) = phase else {
            unreachable!()
        };
        assert!(field.drop_action().is_none());
    }

    let mut changed_field_action = plan.copy();
    let ClassDropPhase::DropField(field) = &mut changed_field_action.phases[2] else {
        unreachable!()
    };
    let Some(action) = &mut field.drop_action else {
        unreachable!()
    };
    let ValueDropRecipe::ReleaseArray { element } = &mut action.recipe else {
        unreachable!()
    };
    *element = Ty::Int(IntTy::U8);
    assert!(changed_field_action.validate(0, &concrete).is_err());

    let mut reordered = concrete.dup();
    reordered.fields.swap(0, 1);
    let mut changed_contract = concrete.dup();
    changed_contract.invariants[0].text = "false".into();
    let mut moved_field = concrete.dup();
    moved_field.fields[0].span = at(999);
    let mut removed_deinitializer = concrete;
    removed_deinitializer.deinit = None;
    for changed in [
        reordered,
        changed_contract,
        moved_field,
        removed_deinitializer,
    ] {
        let error = control
            .class_drop(0, &changed)
            .expect_err("post-check class-drop shape mutation must fail closed");
        assert!(error.message.contains("no longer matches its declaration"));
    }
}

#[test]
fn field_replacement_and_discarded_class_actions_seal_exact_order_and_links() {
    let owner = CallOwner::Function("cleanup_actions".into());
    let body = cleanup_action_body();
    let plan = BodyPlan::build(owner.copy(), at(1), &[], &body)
        .expect("checked cleanup sites have retained actions");

    let class_assignment = plan
        .field_assignment(
            plan.body_scope(),
            at(10),
            &Place::field("self", "child"),
            match &body[0] {
                Stmt::FieldAssign { value, .. } => value,
                _ => unreachable!(),
            },
        )
        .expect("class field action exact-lookups by destination and RHS");
    assert_eq!(class_assignment.scope(), plan.body_scope());
    assert_eq!(class_assignment.ty(), &Ty::Class(0));
    assert!(class_assignment.drop_if_present());
    assert_eq!(
        class_assignment.transfer_key(),
        &ValueTransferKey {
            owner: owner.copy(),
            span: at(11),
            sink: ValueTransferSink::FieldAssignment(Place::field("self", "child")),
        }
    );
    assert!(matches!(
        class_assignment.staging(),
        AssignmentStaging::Temporary(place)
            if place == plan
                .compiler_temp(
                    plan.body_scope(),
                    at(10),
                    CompilerTempKind::FieldAssignmentValue,
                )
                .unwrap()
    ));
    let Some(class_action) = class_assignment.drop_action() else {
        unreachable!()
    };
    let ValueDropRecipe::DropClass(class_drop) = class_action.recipe() else {
        unreachable!()
    };
    assert_eq!(class_drop.class(), 0);
    assert!(class_drop.terminal_trap_route().is_terminal_trap());

    let scalar_assignment = plan
        .field_assignment(
            plan.body_scope(),
            at(20),
            &Place::field("self", "count"),
            match &body[1] {
                Stmt::FieldAssign { value, .. } => value,
                _ => unreachable!(),
            },
        )
        .expect("non-cleanup field installs use the same typed action");
    assert!(!scalar_assignment.drop_if_present());
    assert_eq!(scalar_assignment.staging(), &AssignmentStaging::Direct);
    assert!(scalar_assignment.drop_action().is_none());

    let discarded = plan
        .temporary_drop(
            plan.body_scope(),
            match &body[2] {
                Stmt::ExprStmt(expression) => expression,
                _ => unreachable!(),
            },
        )
        .expect("fresh class result has one statement-end drop action");
    assert_eq!(discarded.scope(), plan.body_scope());
    assert_eq!(discarded.ty(), &Ty::Class(0));
    assert!(matches!(
        discarded.drop_action().recipe(),
        ValueDropRecipe::DropClass(class) if class.class() == 0
    ));
    assert_eq!(
        discarded.transfer_key(),
        &ValueTransferKey {
            owner,
            span: at(30),
            sink: ValueTransferSink::DiscardTemporary,
        }
    );
    assert_eq!(
        discarded.temporary(),
        plan.compiler_temp(
            plan.body_scope(),
            at(30),
            CompilerTempKind::DiscardedClassValue,
        )
        .unwrap()
    );
}

#[test]
fn cleanup_action_reconciliation_rejects_deletion_destination_type_and_span_tamper() {
    let body = cleanup_action_body();
    let plan = BodyPlan::build(
        CallOwner::Function("cleanup_tamper".into()),
        at(1),
        &[],
        &body,
    )
    .expect("baseline plan");

    let mut deleted_field = plan.copy();
    deleted_field.field_assignments.clear();
    assert!(deleted_field.validate_body_shape(&body).is_err());
    let mut deleted_temporary = plan.copy();
    deleted_temporary.temporary_drop_ids.clear();
    assert!(deleted_temporary.validate_body_shape(&body).is_err());

    let mut changed_destination = body.dup();
    let Stmt::FieldAssign { field, .. } = &mut changed_destination[0] else {
        unreachable!()
    };
    *field = "other".into();
    assert!(plan.validate_body_shape(&changed_destination).is_err());

    let mut changed_type = body.dup();
    let Stmt::FieldAssign { value, .. } = &mut changed_type[0] else {
        unreachable!()
    };
    value.ty = Some(Ty::Class(1));
    assert!(plan.validate_body_shape(&changed_type).is_err());

    let mut changed_field_span = body.dup();
    let Stmt::FieldAssign { field_span, .. } = &mut changed_field_span[0] else {
        unreachable!()
    };
    *field_span = at(99);
    assert!(plan.validate_body_shape(&changed_field_span).is_err());

    let mut changed_value_span = body.dup();
    let Stmt::FieldAssign { value, .. } = &mut changed_value_span[0] else {
        unreachable!()
    };
    value.span = at(98);
    assert!(plan.validate_body_shape(&changed_value_span).is_err());

    let mut changed_discard_span = body.dup();
    let Stmt::ExprStmt(expression) = &mut changed_discard_span[2] else {
        unreachable!()
    };
    expression.span = at(97);
    assert!(plan.validate_body_shape(&changed_discard_span).is_err());

    let mut forged_destination = plan.copy();
    forged_destination.field_assignments[0].destination = Place::field("self", "other");
    assert!(forged_destination.validate_body_shape(&body).is_err());
    let mut forged_class = plan.copy();
    let ValueDropRecipe::DropClass(class) =
        &mut forged_class.temporary_drops[0].drop_action.recipe
    else {
        unreachable!("discarded class result retains a class recipe")
    };
    class.class = 1;
    assert!(forged_class.validate_body_shape(&body).is_err());
}

#[test]
fn cleanup_action_class_links_resolve_only_the_exact_concrete_drop_recipe() {
    let mut source = program();
    let mut child = class("Child", at(100), "child");
    child.inits.clear();
    child.methods.clear();
    child.deinit = None;
    source.classes.push(child);
    let mut subject = function("cleanup_links", at(200), "unused");
    subject.body = cleanup_action_body();
    source.fns.push(subject);

    let control = ControlProgram::build(&source).expect("all cleanup links resolve at seal");
    let body = control
        .body(&CallOwner::Function("cleanup_links".into()), at(200))
        .unwrap();
    let action = body.plan().temporary_drops().first().unwrap();
    let ValueDropRecipe::DropClass(class_action) = action.drop_action().recipe() else {
        unreachable!()
    };
    let drop = control
        .class_drop_for_action(class_action, &source.classes, action.span())
        .expect("action links the exact concrete class recipe");
    assert_eq!(drop.class(), 0);

    let mut wrong_class = class_action.copy();
    wrong_class.class = 1;
    assert!(
        control
            .class_drop_for_action(&wrong_class, &source.classes, action.span())
            .is_err()
    );
    let mut unwind = class_action.copy();
    unwind.terminal_trap = ExitRoute {
        kind: ExitKind::Return,
        scopes: vec![body.plan().body_scope()],
        clears: Vec::new(),
        drops: Vec::new(),
    };
    assert!(
        control
            .class_drop_for_action(&unwind, &source.classes, action.span())
            .is_err()
    );

    let option_ty = Ty::option(Ty::Class(0));
    let option_action = ValueDropAction::build(&option_ty, action.span())
        .unwrap()
        .expect("class option has one recursive action");
    control
        .validate_value_drop_action(&option_action, &source.classes, action.span())
        .expect("the exact nested class leaf resolves through the same table");

    let mut wrong_payload_ty = option_action.copy();
    let ValueDropRecipe::DropPresent(payload) = &mut wrong_payload_ty.recipe else {
        unreachable!()
    };
    payload.ty = Ty::Class(1);
    assert!(
        control
            .validate_value_drop_action(&wrong_payload_ty, &source.classes, action.span())
            .is_err()
    );

    let mut wrong_array_element =
        ValueDropAction::build(&Ty::option(Ty::array(Ty::Bool)), action.span())
            .unwrap()
            .unwrap();
    let ValueDropRecipe::DropPresent(payload) = &mut wrong_array_element.recipe else {
        unreachable!()
    };
    let ValueDropRecipe::ReleaseArray { element } = &mut payload.recipe else {
        unreachable!()
    };
    *element = Ty::Int(IntTy::U8);
    assert!(
        control
            .validate_value_drop_action(&wrong_array_element, &source.classes, action.span())
            .is_err()
    );
}

#[test]
fn control_program_rejects_duplicate_semantic_owners_before_planning_them() {
    let mut source = program();
    source.fns.push(function("same", at(100), "concrete_owner"));
    // A forged retained template with the same semantic function identity
    // must not replace the executable entry or receive a parallel plan.
    // Its duplicate local would itself be malformed if planning ran first,
    // which pins duplicate-owner refusal precedence too.
    let mut duplicate = function("same", at(200), "duplicate");
    duplicate.body.push(owned_decl("duplicate", at(202)));
    source.fn_templates.push(duplicate);

    let error = ControlProgram::build(&source)
        .expect_err("one semantic callable identity has exactly one body plan");
    assert_eq!(error.span, at(200));
    assert!(
        error
            .message
            .contains("duplicate control body identity for function `same`")
    );
}
