//! Admission to the interpreter: which types, expressions and statements it executes.
//!
//! The gates serve every caller, whether or not the program was type-checked before. Each refusal
//! names its rule.
use vstd::prelude::*;

use crate::ast::{
    ty_name, BinOp, ClassDecl, Expr, ExprKind, FnDecl, IntTy, PayloadFamily, Program, RecordDecl,
    ResKind, SlotOp, Stmt, Ty, UnOp,
};
use crate::bindings::{bind, find, put, value_of, BindV, Binding};
use crate::repr::{copy_vec, group_views, views, Repr};
use crate::span::Span;
use crate::text::{cat3, cat5, cat7, owned};

verus! {

broadcast use group_views;

/// A local that is in scope.
#[derive(Debug)]
pub struct InterpLocal {
    pub ty: Ty,
    pub mutable: bool,
}

impl View for InterpLocal {
    type V = InterpLocal;

    open spec fn view(&self) -> InterpLocal {
        *self
    }
}

impl Repr for InterpLocal {
    fn copy(&self) -> (r: Self) {
        InterpLocal { ty: self.ty.clone(), mutable: self.mutable }
    }

    fn same(&self, other: &Self) -> (r: bool) {
        self.ty.same_ty(&other.ty) && self.mutable == other.mutable
    }
}

pub type InterpLocals = Vec<Binding<InterpLocal>>;

pub type LocalsV = Seq<BindV<InterpLocal>>;

/// What a gate says: nothing, or the text of its refusal.
pub type GateV = Result<(), Seq<char>>;

pub open spec fn refused(text: Seq<char>) -> GateV {
    Err(text)
}

/// The first refusal of two gates in order.
pub open spec fn both(a: GateV, b: GateV) -> GateV {
    match a {
        Err(e) => Err(e),
        Ok(_) => b,
    }
}

/// A computed gate stands for a stated one.
pub open spec fn gate(r: Result<(), String>, s: GateV) -> bool {
    match s {
        Ok(_) => r is Ok,
        Err(e) => r matches Err(x) && x@ == e,
    }
}

pub open spec fn gate_value<T>(r: Result<T, String>, s: Result<T, Seq<char>>) -> bool {
    match s {
        Ok(v) => r == Ok::<T, String>(v),
        Err(e) => r matches Err(x) && x@ == e,
    }
}

pub open spec fn local_ty(locals: LocalsV, name: Seq<char>) -> Option<Ty> {
    match value_of(locals, name) {
        Some(local) => Some(local.ty),
        None => None,
    }
}

pub fn interp_local_ty(locals: &InterpLocals, name: &str) -> (r: Option<Ty>)
    ensures
        r == local_ty(views(locals@), name@),
{
    match find(locals, name) {
        Some(local) => Some(local.ty.clone()),
        None => None,
    }
}

/// A machine integer type that is no parameter.
pub open spec fn concrete_int(ty: Ty) -> bool {
    ty matches Ty::Int(i) && !(i is TParam)
}

fn is_concrete_int(ty: &Ty) -> (r: bool)
    ensures
        r == concrete_int(*ty),
{
    match ty {
        Ty::Int(IntTy::TParam(_)) => false,
        Ty::Int(_) => true,
        _ => false,
    }
}

pub open spec fn bool_array() -> Ty {
    Ty::Array(Box::new(Ty::Bool))
}

pub open spec fn u64_ty() -> Ty {
    Ty::Int(IntTy::U64)
}

// ------------------------------------------------------------------------------------------
// Fresh names
// ------------------------------------------------------------------------------------------

pub open spec fn fresh_bindings(names: Seq<Seq<char>>, i: nat, locals: LocalsV) -> GateV
    decreases names.len() - i,
{
    if i >= names.len() {
        Ok(())
    } else if value_of(locals, names[i as int]) is Some || names.take(i as int).contains(
        names[i as int],
    ) {
        refused(
            "interp.duplicate_local: generated binding `"@ + names[i as int]
                + "` would replace an active or sibling local"@,
        )
    } else {
        fresh_bindings(names, i + 1, locals)
    }
}

fn duplicate_binding(name: &str) -> (r: Result<(), String>)
    ensures
        gate(
            r,
            refused(
                "interp.duplicate_local: generated binding `"@ + name@
                    + "` would replace an active or sibling local"@,
            ),
        ),
{
    Err(
        cat3(
            "interp.duplicate_local: generated binding `",
            name,
            "` would replace an active or sibling local",
        ),
    )
}

/// Two names that are new and differ.
pub open spec fn fresh_two(a: Seq<char>, b: Seq<char>, locals: LocalsV) -> GateV {
    fresh_bindings(seq![a, b], 0, locals)
}

/// Three names that are new and differ.
pub open spec fn fresh_three(a: Seq<char>, b: Seq<char>, c: Seq<char>, locals: LocalsV) -> GateV {
    fresh_bindings(seq![a, b, c], 0, locals)
}

pub fn require_fresh_interp_bindings(names: &Vec<String>, locals: &InterpLocals) -> (r: Result<
    (),
    String,
>)
    ensures
        gate(r, fresh_bindings(texts(names@), 0, views(locals@))),
{
    let ghost all = texts(names@);
    let n: usize = names.len();
    let mut i: usize = 0;
    while i < n
        invariant
            n == names@.len(),
            i <= n,
            all == texts(names@),
            fresh_bindings(all, 0, views(locals@)) == fresh_bindings(all, i as nat, views(locals@)),
        decreases n - i,
    {
        let name = &names[i];
        assert(all[i as int] == name@);
        if find(locals, name.as_str()).is_some() {
            return duplicate_binding(name.as_str());
        }
        let mut j: usize = 0;
        while j < i
            invariant
                n == names@.len(),
                j <= i < n,
                all == texts(names@),
                name@ == all[i as int],
                fresh_bindings(all, 0, views(locals@)) == fresh_bindings(
                    all,
                    i as nat,
                    views(locals@),
                ),
                forall|k: int| 0 <= k < j ==> #[trigger] all[k] != name@,
            decreases i - j,
        {
            assert(all[j as int] == names@[j as int]@);
            if names[j] == *name {
                assert(all.take(i as int)[j as int] == name@);
                return duplicate_binding(name.as_str());
            }
            j = j + 1;
        }
        assert(!all.take(i as int).contains(name@)) by {
            if all.take(i as int).contains(name@) {
                let k = choose|k: int|
                    0 <= k < all.take(i as int).len() && all.take(i as int)[k] == name@;
                assert(all[k] == name@);
            }
        }
        i = i + 1;
    }
    Ok(())
}

/// The views of a list of texts.
pub open spec fn texts(s: Seq<String>) -> Seq<Seq<char>> {
    Seq::new(s.len(), |i: int| s[i]@)
}

// ------------------------------------------------------------------------------------------
// Types
// ------------------------------------------------------------------------------------------

/// Which array payloads are executed.
pub open spec fn array_payload_gate(payload: Ty, context: Seq<char>) -> GateV {
    match payload.family() {
        PayloadFamily::Value | PayloadFamily::Record => Ok(()),
        _ => refused(
            "interp.aggregate_payload_unsupported: "@ + context + " has array payload `"@ + ty_name(
                payload,
            )
                + "`; the interpreter currently executes only concrete integer and Boolean payloads"@,
        ),
    }
}

pub fn validate_interp_array_payload(payload: &Ty, context: &str) -> (r: Result<(), String>)
    ensures
        gate(r, array_payload_gate(*payload, context@)),
{
    match payload.payload_family() {
        PayloadFamily::Value | PayloadFamily::Record => Ok(()),
        _ => Err(
            cat5(
                "interp.aggregate_payload_unsupported: ",
                context,
                " has array payload `",
                payload.name().as_str(),
                "`; the interpreter currently executes only concrete integer and Boolean payloads",
            ),
        ),
    }
}

/// Which payloads of copyable options are executed.
pub open spec fn option_payload_gate(payload: Ty, context: Seq<char>) -> GateV {
    match payload.family() {
        PayloadFamily::Value | PayloadFamily::OptionOfValue => Ok(()),
        _ => refused(
            "interp.aggregate_payload_unsupported: "@ + context + " has option payload `"@
                + ty_name(payload)
                + "`; the interpreter currently executes only concrete integer and Boolean option payloads"@,
        ),
    }
}

pub fn validate_interp_option_payload(payload: &Ty, context: &str) -> (r: Result<(), String>)
    ensures
        gate(r, option_payload_gate(*payload, context@)),
{
    match payload.payload_family() {
        PayloadFamily::Value | PayloadFamily::OptionOfValue => Ok(()),
        _ => Err(
            cat5(
                "interp.aggregate_payload_unsupported: ",
                context,
                " has option payload `",
                payload.name().as_str(),
                "`; the interpreter currently executes only concrete integer and Boolean option payloads",
            ),
        ),
    }
}

/// The payload rules of a type's own containers.
pub open spec fn container_gate(ty: Ty, context: Seq<char>) -> GateV {
    match ty {
        Ty::Array(payload) => array_payload_gate(*payload, context),
        Ty::Slots(_) => refused(
            "interp.slots_unsupported: "@ + context
                + " uses owner slots, which have no interpreter value or lifecycle semantics yet"@,
        ),
        Ty::Option(payload) => option_payload_gate(*payload, context),
        Ty::Param(_) | Ty::Int(IntTy::TParam(_)) | Ty::Raw(IntTy::TParam(_)) => refused(
            "interp.type_parameter_unsupported: "@ + context
                + " contains an unresolved type parameter"@,
        ),
        _ => Ok(()),
    }
}

pub fn validate_interp_container_payloads(ty: &Ty, context: &str) -> (r: Result<(), String>)
    ensures
        gate(r, container_gate(*ty, context@)),
{
    match ty {
        Ty::Array(payload) => validate_interp_array_payload(payload, context),
        Ty::Slots(_) => Err(
            cat3(
                "interp.slots_unsupported: ",
                context,
                " uses owner slots, which have no interpreter value or lifecycle semantics yet",
            ),
        ),
        Ty::Option(payload) => validate_interp_option_payload(payload, context),
        Ty::Param(_) | Ty::Int(IntTy::TParam(_)) | Ty::Raw(IntTy::TParam(_)) => Err(
            cat3(
                "interp.type_parameter_unsupported: ",
                context,
                " contains an unresolved type parameter",
            ),
        ),
        _ => Ok(()),
    }
}

/// Which types are executed. An option that owns its payload has an allow-list of its own.
pub open spec fn ty_gate(ty: Ty, context: Seq<char>) -> GateV {
    match ty.affine_payload() {
        Some(payload) => if payload == bool_array() || payload is Class {
            Ok(())
        } else {
            refused(
                "interp.affine_option_payload_unsupported: "@ + context + " has type `"@ + ty_name(
                    ty,
                ) + "`; the supported affine options are `option<[bool]>` and `option<class>`"@,
            )
        },
        None => container_gate(ty.spec_referent(), context),
    }
}

pub fn validate_interp_ty(ty: &Ty, context: &str) -> (r: Result<(), String>)
    ensures
        gate(r, ty_gate(*ty, context@)),
{
    match ty.as_affine_option_payload() {
        Some(payload) => {
            if payload.is_owned_array_of(&Ty::Bool) || matches!(payload, Ty::Class(_)) {
                return Ok(());
            }
            Err(
                cat5(
                    "interp.affine_option_payload_unsupported: ",
                    context,
                    " has type `",
                    ty.name().as_str(),
                    "`; the supported affine options are `option<[bool]>` and `option<class>`",
                ),
            )
        },
        None => validate_interp_container_payloads(ty.referent(), context),
    }
}

/// Which types are returned: no borrow, whose storage the callee's frame stops keeping, and no
/// owning option.
pub open spec fn return_ty_gate(ty: Ty, context: Seq<char>) -> GateV {
    if ty is Borrow {
        refused(
            "interp.borrow_return_unsupported: "@ + context
                + " is a borrow; a returned borrow would name storage the callee's frame stops keeping"@,
        )
    } else if ty.affine_option() {
        refused(
            "interp.affine_option_position_unsupported: "@ + context
                + " is ownership-bearing; affine options are supported only as explicit locals"@,
        )
    } else {
        ty_gate(ty, context)
    }
}

pub fn validate_interp_return_ty(ty: &Ty, context: &str) -> (r: Result<(), String>)
    ensures
        gate(r, return_ty_gate(*ty, context@)),
{
    if matches!(ty, Ty::Borrow(..)) {
        return Err(
            cat3(
                "interp.borrow_return_unsupported: ",
                context,
                " is a borrow; a returned borrow would name storage the callee's frame stops keeping",
            ),
        );
    }
    if ty.is_affine_option() {
        return Err(
            cat3(
                "interp.affine_option_position_unsupported: ",
                context,
                " is ownership-bearing; affine options are supported only as explicit locals",
            ),
        );
    }
    validate_interp_ty(ty, context)
}

/// Which types cross a call as arguments.
pub open spec fn param_ty_gate(ty: Ty, context: Seq<char>) -> GateV {
    if ty.affine_option() {
        refused(
            "interp.affine_option_position_unsupported: "@ + context
                + " is ownership-bearing; `option<[bool]>` is supported only as an explicit local"@,
        )
    } else {
        ty_gate(ty, context)
    }
}

pub fn validate_interp_param_ty(ty: &Ty, context: &str) -> (r: Result<(), String>)
    ensures
        gate(r, param_ty_gate(*ty, context@)),
{
    if ty.is_affine_option() {
        return Err(
            cat3(
                "interp.affine_option_position_unsupported: ",
                context,
                " is ownership-bearing; `option<[bool]>` is supported only as an explicit local",
            ),
        );
    }
    validate_interp_ty(ty, context)
}

/// Which types a class field stores: what a parameter binds, and an owned Boolean array.
pub open spec fn class_field_ty_gate(ty: Ty, context: Seq<char>) -> GateV {
    if ty == bool_array() {
        Ok(())
    } else {
        param_ty_gate(ty, context)
    }
}

pub fn validate_interp_class_field_ty(ty: &Ty, context: &str) -> (r: Result<(), String>)
    ensures
        gate(r, class_field_ty_gate(*ty, context@)),
{
    if ty.is_owned_array_of(&Ty::Bool) {
        return Ok(());
    }
    validate_interp_param_ty(ty, context)
}

/// Which types a record field stores. A record is a byte layout, and a copyable option is not
/// given one.
pub open spec fn field_ty_gate(ty: Ty, context: Seq<char>) -> GateV {
    if ty is Option && !ty.affine_option() {
        refused(
            "interp.option_position_unsupported: "@ + context
                + " is option-valued; ordinary options are supported as parameters, returns, locals, and class fields, not record fields"@,
        )
    } else {
        param_ty_gate(ty, context)
    }
}

pub fn validate_interp_field_ty(ty: &Ty, context: &str) -> (r: Result<(), String>)
    ensures
        gate(r, field_ty_gate(*ty, context@)),
{
    if matches!(ty, Ty::Option(_)) && !ty.is_affine_option() {
        return Err(
            cat3(
                "interp.option_position_unsupported: ",
                context,
                " is option-valued; ordinary options are supported as parameters, returns, locals, and class fields, not record fields",
            ),
        );
    }
    validate_interp_param_ty(ty, context)
}

/// The type of what an option holds when it is present.
pub open spec fn option_value(option: Ty) -> Option<Ty> {
    match option {
        Ty::Option(payload) => if option_payload_gate(*payload, "option value"@) is Ok {
            Some(*payload)
        } else {
            None
        },
        Ty::OptionRaw(record) => Some(Ty::RawRecord(record)),
        _ => None,
    }
}

pub fn option_value_ty(option: &Ty) -> (r: Option<Ty>)
    ensures
        r == option_value(*option),
{
    match option {
        Ty::Option(payload) => match validate_interp_option_payload(payload, "option value") {
            Ok(_) => Some((&**payload).clone()),
            Err(_) => None,
        },
        Ty::OptionRaw(record) => Some(Ty::RawRecord(*record)),
        _ => None,
    }
}

// ------------------------------------------------------------------------------------------
// Positions of Boolean arrays
// ------------------------------------------------------------------------------------------

pub open spec fn receiver_gate(name: Seq<char>, locals: LocalsV, context: Seq<char>) -> GateV {
    match local_ty(locals, name) {
        Some(ty) => if ty.affine_option() {
            refused(
                "interp.affine_option_position_unsupported: "@ + context + " `"@ + name
                    + "` is an affine option, not an object"@,
            )
        } else if ty.array_of(Ty::Bool) {
            refused(
                "interp.array_position_unsupported: "@ + context + " `"@ + name
                    + "` is a Boolean array, not an object"@,
            )
        } else {
            Ok(())
        },
        None => Ok(()),
    }
}

pub fn reject_bool_array_named_receiver(name: &str, locals: &InterpLocals, context: &str) -> (r:
    Result<(), String>)
    ensures
        gate(r, receiver_gate(name@, views(locals@), context@)),
{
    match interp_local_ty(locals, name) {
        Some(ty) => {
            if ty.is_affine_option() {
                return Err(
                    cat5(
                        "interp.affine_option_position_unsupported: ",
                        context,
                        " `",
                        name,
                        "` is an affine option, not an object",
                    ),
                );
            }
            if ty.is_array_of(&Ty::Bool) {
                return Err(
                    cat5(
                        "interp.array_position_unsupported: ",
                        context,
                        " `",
                        name,
                        "` is a Boolean array, not an object",
                    ),
                );
            }
            Ok(())
        },
        None => Ok(()),
    }
}

pub open spec fn cached_name(ty: Option<Ty>) -> Seq<char> {
    match ty {
        Some(ty) => ty_name(ty),
        None => "<missing>"@,
    }
}

/// The refusal where an expression is not annotated as it must be.
pub open spec fn cached_gate(found: Option<Ty>, expected: Ty, context: Seq<char>) -> GateV {
    if found == Some(expected) {
        Ok(())
    } else {
        refused(
            "interp.expression_type: "@ + context + " must have type `"@ + ty_name(expected)
                + "`, found `"@ + cached_name(found) + "`"@,
        )
    }
}

pub fn require_cached_type(expr: &Expr, expected: &Ty, context: &str) -> (r: Result<(), String>)
    ensures
        gate(r, cached_gate(expr.ty, *expected, context@)),
{
    let found = match &expr.ty {
        Some(ty) => {
            if ty.same_ty(expected) {
                return Ok(());
            }
            ty.name()
        },
        None => owned("<missing>"),
    };
    Err(
        cat7(
            "interp.expression_type: ",
            context,
            " must have type `",
            expected.name().as_str(),
            "`, found `",
            found.as_str(),
            "`",
        ),
    )
}

/// Whether an expression hands over an owned Boolean array. A named local is judged by its
/// declaration, whatever its annotation says.
pub open spec fn transports_bool_array(e: Expr, locals: LocalsV) -> bool {
    match e.kind {
        ExprKind::Var(name) => local_ty(locals, name@) == Some(bool_array()),
        _ => e.ty == Some(bool_array()),
    }
}

pub open spec fn owned_transport_gate(e: Expr, locals: LocalsV, context: Seq<char>) -> GateV {
    if transports_bool_array(e, locals) {
        refused(
            "interp.array_position_unsupported: "@ + context
                + " transports an owned Boolean array; an owned Boolean array is a local value"@,
        )
    } else {
        Ok(())
    }
}

/// Refuses an owned Boolean array where a second place would claim its storage. A borrow only
/// names that storage and passes.
pub fn reject_owned_bool_array_transport(expr: &Expr, locals: &InterpLocals, context: &str) -> (r:
    Result<(), String>)
    ensures
        gate(r, owned_transport_gate(*expr, views(locals@), context@)),
{
    let transports = match &expr.kind {
        ExprKind::Var(name) => match interp_local_ty(locals, name.as_str()) {
            Some(ty) => ty.is_owned_array_of(&Ty::Bool),
            None => false,
        },
        _ => match &expr.ty {
            Some(ty) => ty.is_owned_array_of(&Ty::Bool),
            None => false,
        },
    };
    if transports {
        return Err(
            cat3(
                "interp.array_position_unsupported: ",
                context,
                " transports an owned Boolean array; an owned Boolean array is a local value",
            ),
        );
    }
    Ok(())
}

pub open spec fn annotated_bool_array(ty: Option<Ty>) -> bool {
    ty matches Some(t) && t.array_of(Ty::Bool)
}

fn is_annotated_bool_array(ty: &Option<Ty>) -> (r: bool)
    ensures
        r == annotated_bool_array(*ty),
{
    match ty {
        Some(t) => t.is_array_of(&Ty::Bool),
        None => false,
    }
}

pub open spec fn transport_gate(e: Expr, locals: LocalsV, context: Seq<char>) -> GateV {
    if annotated_bool_array(e.ty) || (e.kind matches ExprKind::Var(name) && annotated_bool_array(
        local_ty(locals, name@),
    )) {
        refused(
            "interp.array_position_unsupported: "@ + context + " cannot receive a Boolean array"@,
        )
    } else {
        Ok(())
    }
}

/// As [`reject_owned_bool_array_transport`], for operands that may lack an annotation.
pub fn reject_bool_array_transport_if_present(
    expr: &Expr,
    locals: &InterpLocals,
    context: &str,
) -> (r: Result<(), String>)
    ensures
        gate(r, transport_gate(*expr, views(locals@), context@)),
{
    let named = match &expr.kind {
        ExprKind::Var(name) => is_annotated_bool_array(&interp_local_ty(locals, name.as_str())),
        _ => false,
    };
    if is_annotated_bool_array(&expr.ty) || named {
        return Err(
            cat3(
                "interp.array_position_unsupported: ",
                context,
                " cannot receive a Boolean array",
            ),
        );
    }
    Ok(())
}

pub open spec fn result_gate(e: Expr, context: Seq<char>) -> GateV {
    if annotated_bool_array(e.ty) {
        refused(
            "interp.array_position_unsupported: "@ + context
                + " is a Boolean array; only owned literal/allocation results are permitted"@,
        )
    } else {
        Ok(())
    }
}

pub fn reject_bool_array_result(expr: &Expr, context: &str) -> (r: Result<(), String>)
    ensures
        gate(r, result_gate(*expr, context@)),
{
    if is_annotated_bool_array(&expr.ty) {
        return Err(
            cat3(
                "interp.array_position_unsupported: ",
                context,
                " is a Boolean array; only owned literal/allocation results are permitted",
            ),
        );
    }
    Ok(())
}

// ------------------------------------------------------------------------------------------
// Expressions
// ------------------------------------------------------------------------------------------

pub open spec fn annotation(e: Expr, missing: Seq<char>) -> Result<Ty, Seq<char>> {
    match e.ty {
        Some(ty) => Ok(ty),
        None => Err(missing),
    }
}

fn annotation_or(expr: &Expr, missing: &str) -> (r: Result<Ty, String>)
    ensures
        gate_value(r, annotation(*expr, missing@)),
{
    match &expr.ty {
        Some(ty) => Ok(ty.clone()),
        None => Err(owned(missing)),
    }
}

/// The type that an expression has by its own form, in place of its annotation where the two
/// could disagree.
pub open spec fn semantic_ty(e: Expr, locals: LocalsV) -> Result<Ty, Seq<char>> {
    match e.kind {
        ExprKind::BoolLit(_) => Ok(Ty::Bool),
        ExprKind::IntLit(_) => match e.ty {
            Some(ty) if concrete_int(ty) => Ok(ty),
            _ => Err("interp.literal_type: integer literal lacks a concrete integer type"@),
        },
        ExprKind::Var(name) => match local_ty(locals, name@) {
            Some(ty) => Ok(ty),
            None => Err(
                "interp.unknown_local: expression names unknown local `"@ + name@ + "`"@,
            ),
        },
        ExprKind::Index { array, .. } => match local_ty(locals, array@) {
            Some(found) if found.spec_as_array() is Some => {
                let payload = found.spec_as_array()->Some_0.0;
                match array_payload_gate(payload, "indexed local `"@ + array@ + "`"@) {
                    Err(e) => Err(e),
                    Ok(_) => Ok(payload),
                }
            },
            _ => Err("interp.not_array: indexed local `"@ + array@ + "` is not an array"@),
        },
        ExprKind::Len { .. } => Ok(u64_ty()),
        ExprKind::AllocArray { elem, .. } => Ok(Ty::Array(Box::new(elem))),
        ExprKind::ArrayLit(_) => annotation(
            e,
            "interp.array_literal_type: missing array literal type"@,
        ),
        ExprKind::Unary { op, .. } => match op {
            UnOp::Not => Ok(Ty::Bool),
            UnOp::Neg => annotation(e, "interp.expression_type: missing negation type"@),
        },
        ExprKind::Widen { target, .. } => Ok(Ty::Int(target)),
        ExprKind::Narrow { target, .. } => Ok(Ty::Int(target)),
        ExprKind::Binary { op, .. } if op is And || op is Or || op.comparison() => Ok(Ty::Bool),
        _ => annotation(e, "interp.expression_type: expression has no cached type"@),
    }
}

pub fn semantic_interp_ty(expr: &Expr, locals: &InterpLocals) -> (r: Result<Ty, String>)
    ensures
        gate_value(r, semantic_ty(*expr, views(locals@))),
{
    match &expr.kind {
        ExprKind::BoolLit(_) => Ok(Ty::Bool),
        ExprKind::IntLit(_) => {
            match &expr.ty {
                Some(ty) => {
                    if is_concrete_int(ty) {
                        return Ok(ty.clone());
                    }
                },
                None => {},
            }
            Err(owned("interp.literal_type: integer literal lacks a concrete integer type"))
        },
        ExprKind::Var(name) => match interp_local_ty(locals, name.as_str()) {
            Some(ty) => Ok(ty),
            None => Err(
                cat3(
                    "interp.unknown_local: expression names unknown local `",
                    name.as_str(),
                    "`",
                ),
            ),
        },
        ExprKind::Index { array, .. } => {
            match interp_local_ty(locals, array.as_str()) {
                Some(found) => {
                    match found.as_array() {
                        Some((payload, _)) => {
                            match validate_interp_array_payload(
                                &payload,
                                cat3("indexed local `", array.as_str(), "`").as_str(),
                            ) {
                                Err(e) => {
                                    return Err(e);
                                },
                                Ok(_) => {
                                    return Ok(payload);
                                },
                            }
                        },
                        None => {},
                    }
                },
                None => {},
            }
            Err(
                cat3(
                    "interp.not_array: indexed local `",
                    array.as_str(),
                    "` is not an array",
                ),
            )
        },
        ExprKind::Len { .. } => Ok(Ty::Int(IntTy::U64)),
        ExprKind::AllocArray { elem, .. } => Ok(Ty::Array(Box::new(elem.clone()))),
        ExprKind::ArrayLit(_) => annotation_or(
            expr,
            "interp.array_literal_type: missing array literal type",
        ),
        ExprKind::Unary { op, .. } => match op {
            UnOp::Not => Ok(Ty::Bool),
            UnOp::Neg => annotation_or(expr, "interp.expression_type: missing negation type"),
        },
        ExprKind::Widen { target, .. } => Ok(Ty::Int(*target)),
        ExprKind::Narrow { target, .. } => Ok(Ty::Int(*target)),
        ExprKind::Binary { op, .. } => {
            if matches!(op, BinOp::And | BinOp::Or) || op.is_comparison() {
                return Ok(Ty::Bool);
            }
            annotation_or(expr, "interp.expression_type: expression has no cached type")
        },
        _ => annotation_or(expr, "interp.expression_type: expression has no cached type"),
    }
}

/// An owner comes from a place that the destruction rules know: a literal, an allocation, a
/// take, a local, or a call that hands it over.
pub open spec fn produces_owner(e: Expr) -> bool {
    e.kind is ArrayLit || e.kind is AllocArray || e.kind is OptTake || e.kind is Var
        || e.kind is Call
}

/// As [`produces_owner`], where a local would leave two owners of one value.
pub open spec fn hands_over_owner(e: Expr) -> bool {
    e.kind is ArrayLit || e.kind is AllocArray || e.kind is OptTake || e.kind is Call
}

pub open spec fn sink_gate(expected: Ty, e: Expr, locals: LocalsV, context: Seq<char>) -> GateV
    decreases e, 2nat,
{
    match expr_gate(e, locals) {
        Err(t) => Err(t),
        Ok(_) => match semantic_ty(e, locals) {
            Err(t) => Err(t),
            Ok(actual) => if actual != expected {
                refused(
                    "interp.expression_type: "@ + context + " expects `"@ + ty_name(expected)
                        + "`, found `"@ + ty_name(actual) + "`"@,
                )
            } else if expected == bool_array() && !hands_over_owner(e) {
                refused(
                    "interp.array_position_unsupported: "@ + context
                        + " receives an owned Boolean array through an unsupported transport; only owned literals, allocations, and handed-over call results are executable"@,
                )
            } else {
                Ok(())
            },
        },
    }
}

/// The arguments from `i` on, none of which hands over an owned Boolean array where `context`
/// names a position that could not keep it.
pub open spec fn args_gate(args: Seq<Expr>, i: nat, locals: LocalsV, context: Option<Seq<char>>) -> GateV
    decreases args, args.len() - i,
{
    if i >= args.len() {
        Ok(())
    } else {
        both(
            expr_gate(args[i as int], locals),
            both(
                match context {
                    Some(c) => owned_transport_gate(args[i as int], locals, c),
                    None => Ok(()),
                },
                args_gate(args, i + 1, locals, context),
            ),
        )
    }
}

pub open spec fn elements_gate(payload: Ty, elements: Seq<Expr>, i: nat, locals: LocalsV) -> GateV
    decreases elements, elements.len() - i,
{
    if i >= elements.len() {
        Ok(())
    } else {
        both(
            sink_gate(payload, elements[i as int], locals, "array literal element"@),
            elements_gate(payload, elements, i + 1, locals),
        )
    }
}

/// Whether one expression, and everything inside it, may run.
pub open spec fn expr_gate(e: Expr, locals: LocalsV) -> GateV
    decreases e, 1nat,
{
    match e.kind {
        ExprKind::SlotOp { op, .. } => refused(
            "interp.slots_unsupported: `"@ + op.spec_name()
                + "` has no interpreter semantics yet"@,
        ),
        _ => both(
            match e.ty {
                Some(ty) => ty_gate(ty, "expression annotation"@),
                None => Ok(()),
            },
            if e.ty == Some(bool_array()) && !produces_owner(e) {
                refused(
                    "interp.array_position_unsupported: only owned Boolean array literals, allocations, and their local places are executable"@,
                )
            } else {
                kind_gate(e, locals)
            },
        ),
    }
}

/// Whether an expression may run, by its form.
pub open spec fn kind_gate(e: Expr, locals: LocalsV) -> GateV
    decreases e, 0nat,
{
    match e.kind {
        ExprKind::SlotOp { .. } => Ok(()),
        ExprKind::Index { array, index, .. } => match local_ty(locals, array@) {
            None => refused("interp.unknown_local: index names unknown array `"@ + array@ + "`"@),
            Some(ty) => match ty.spec_as_array() {
                None => refused(
                    "interp.not_array: indexed local `"@ + array@ + "` is not an array"@,
                ),
                Some((payload, _)) => both(
                    sink_gate(u64_ty(), *index, locals, "array index"@),
                    both(
                        array_payload_gate(payload, "indexed array `"@ + array@ + "`"@),
                        cached_gate(e.ty, payload, "array index result"@),
                    ),
                ),
            },
        },
        ExprKind::AllocArray { elem, len, init } => both(
            array_payload_gate(elem, "alloc_array"@),
            both(
                cached_gate(e.ty, Ty::Array(Box::new(elem)), "alloc_array result"@),
                both(
                    sink_gate(u64_ty(), *len, locals, "alloc_array length"@),
                    sink_gate(elem, *init, locals, "alloc_array initializer"@),
                ),
            ),
        ),
        ExprKind::Widen { target, arg } => conversion_gate(e, target, *arg, locals),
        ExprKind::Narrow { target, arg } => conversion_gate(e, target, *arg, locals),
        ExprKind::Call { type_args, args, .. } => if type_args@.len() != 0 {
            refused(
                "interp.type_parameter_unsupported: generic type arguments escaped monomorphization"@,
            )
        } else {
            args_gate(args@, 0, locals, None)
        },
        ExprKind::CtorCall { type_args, args, .. } => if type_args@.len() != 0 {
            refused(
                "interp.type_parameter_unsupported: generic type arguments escaped monomorphization"@,
            )
        } else {
            args_gate(args@, 0, locals, Some("call argument"@))
        },
        ExprKind::Unary { op, operand } => match op {
            UnOp::Not => both(
                sink_gate(Ty::Bool, *operand, locals, "Boolean negation operand"@),
                cached_gate(e.ty, Ty::Bool, "Boolean negation result"@),
            ),
            UnOp::Neg => both(
                expr_gate(*operand, locals),
                match semantic_ty(*operand, locals) {
                    Err(t) => Err(t),
                    Ok(ty) => if !concrete_int(ty) {
                        refused(
                            "interp.expression_type: negation operand must be a concrete integer"@,
                        )
                    } else {
                        cached_gate(e.ty, ty, "integer negation result"@)
                    },
                },
            ),
        },
        ExprKind::IsSome { operand } => match semantic_ty(*operand, locals) {
            Err(t) => Err(t),
            Ok(ty) => both(
                if ty.affine_option() {
                    match operand.kind {
                        ExprKind::Var(name) => match local_ty(locals, name@) {
                            Some(l) if l.affine_option() => Ok(()),
                            _ => refused(
                                "interp.affine_option_payload_unsupported: `"@ + name@
                                    + "` is not an executable owning-option local"@,
                            ),
                        },
                        _ => refused(
                            "interp.affine_option_temporary: `.is_some` on an affine option requires a named local"@,
                        ),
                    }
                } else {
                    expr_gate(*operand, locals)
                },
                if !(ty is Option) && !(ty is OptionRaw) {
                    refused(
                        "interp.option_operand: `.is_some` needs an option, found `"@ + ty_name(ty)
                            + "`"@,
                    )
                } else {
                    cached_gate(e.ty, Ty::Bool, "`.is_some` result"@)
                },
            ),
        },
        ExprKind::OptValue { operand } => match semantic_ty(*operand, locals) {
            Err(t) => Err(t),
            Ok(ty) => if ty.affine_option() {
                refused(
                    "interp.affine_option_value_unsupported: an owning option has no copying `.value`; use `.take`"@,
                )
            } else {
                both(
                    expr_gate(*operand, locals),
                    match option_value(ty) {
                        None => refused(
                            "interp.option_operand: `.value` needs an option, found `"@ + ty_name(
                                ty,
                            ) + "`"@,
                        ),
                        Some(result) => cached_gate(e.ty, result, "`.value` result"@),
                    },
                )
            },
        },
        ExprKind::SomeE(operand) => if e.ty matches Some(ty) && ty.affine_option() {
            refused(
                "interp.affine_option_temporary: affine `some(...)` is valid only as an explicit local initializer"@,
            )
        } else {
            both(
                expr_gate(*operand, locals),
                owned_transport_gate(*operand, locals, "option payload"@),
            )
        },
        ExprKind::OptTake { option, .. } => match value_of(locals, option@) {
            None => refused(
                "interp.unknown_local: `.take` names unknown local `"@ + option@ + "`"@,
            ),
            Some(local) => match local.ty.affine_payload() {
                None => refused(
                    "interp.option_operand: `.take` needs an owning option, found `"@ + ty_name(
                        local.ty,
                    ) + "`"@,
                ),
                Some(payload) => if !local.mutable {
                    refused(
                        "interp.affine_option_immutable: `.take` needs mutable local `"@ + option@
                            + "`"@,
                    )
                } else {
                    cached_gate(e.ty, payload, "affine option take result"@)
                },
            },
        },
        ExprKind::Binary { op, lhs, rhs, .. } => if op is And || op is Or {
            both(
                sink_gate(Ty::Bool, *lhs, locals, "Boolean left operand"@),
                both(
                    sink_gate(Ty::Bool, *rhs, locals, "Boolean right operand"@),
                    cached_gate(e.ty, Ty::Bool, "Boolean operator result"@),
                ),
            )
        } else {
            both(
                expr_gate(*lhs, locals),
                both(
                    expr_gate(*rhs, locals),
                    match semantic_ty(*lhs, locals) {
                        Err(t) => Err(t),
                        Ok(left) => match semantic_ty(*rhs, locals) {
                            Err(t) => Err(t),
                            Ok(right) => if left != right || !concrete_int(left) {
                                refused(
                                    "interp.expression_type: integer operator operands must have one concrete integer type"@,
                                )
                            } else {
                                cached_gate(
                                    e.ty,
                                    if op.comparison() {
                                        Ty::Bool
                                    } else {
                                        left
                                    },
                                    "integer operator result"@,
                                )
                            },
                        },
                    },
                ),
            )
        },
        ExprKind::RawOp { args, .. } => operation_gate(e, args@, locals),
        ExprKind::DeviceOp { args, .. } => operation_gate(e, args@, locals),
        ExprKind::ResOp { args, .. } => operation_gate(e, args@, locals),
        ExprKind::TraitCall { args, .. } => operation_gate(e, args@, locals),
        ExprKind::RecordLit { args, .. } => operation_gate(e, args@, locals),
        ExprKind::MethodCall { recv, args, .. } => both(
            receiver_gate(recv@, locals, "method receiver"@),
            both(
                args_gate(args@, 0, locals, Some("method argument"@)),
                result_gate(e, "method result"@),
            ),
        ),
        ExprKind::ArrayLit(elements) => match e.ty {
            Some(Ty::Array(payload)) => both(
                array_payload_gate(*payload, "array literal"@),
                elements_gate(*payload, elements@, 0, locals),
            ),
            _ => refused(
                "interp.array_literal_type: array literal must have an owned array annotation"@,
            ),
        },
        ExprKind::SelfFieldIndex { index, .. } => both(
            sink_gate(u64_ty(), *index, locals, "self field array index"@),
            result_gate(e, "array field index result"@),
        ),
        ExprKind::ClassFieldIndex { obj, index, .. } => both(
            receiver_gate(obj@, locals, "class-field index receiver"@),
            both(
                sink_gate(u64_ty(), *index, locals, "class field array index"@),
                result_gate(e, "array field index result"@),
            ),
        ),
        ExprKind::IntLit(_) => match e.ty {
            Some(ty) if concrete_int(ty) => Ok(()),
            _ => refused("interp.literal_type: integer literal lacks a concrete integer type"@),
        },
        ExprKind::BoolLit(_) => cached_gate(e.ty, Ty::Bool, "Boolean literal"@),
        ExprKind::Var(name) => match local_ty(locals, name@) {
            None => refused(
                "interp.unknown_local: expression names unknown local `"@ + name@ + "`"@,
            ),
            Some(ty) => if ty.affine_option() {
                refused(
                    "interp.affine_option_transport_unsupported: affine option local `"@ + name@
                        + "` cannot be copied or moved as an expression"@,
                )
            } else {
                match e.ty {
                    Some(cached) if cached != ty && !(ty is Res) => refused(
                        "interp.expression_type: local `"@ + name@ + "` has type `"@ + ty_name(ty)
                            + "` but its expression is annotated `"@ + ty_name(cached) + "`"@,
                    ),
                    _ => Ok(()),
                }
            },
        },
        ExprKind::Len { array } => match local_ty(locals, array@) {
            Some(ty) if ty.spec_as_array() is Some => cached_gate(e.ty, u64_ty(), "array length"@),
            _ => refused(
                "interp.unknown_local: length names unknown or non-array local `"@ + array@ + "`"@,
            ),
        },
        ExprKind::NoneE => if e.ty matches Some(ty) && ty.affine_option() {
            refused(
                "interp.affine_option_temporary: affine `none` is valid only as an explicit local initializer"@,
            )
        } else {
            Ok(())
        },
        ExprKind::SelfField { .. } => result_gate(e, "field access"@),
        ExprKind::SelfFieldLen { .. } => result_gate(e, "field access"@),
        ExprKind::ClassField { obj, .. } => field_read_gate(e, obj@, locals),
        ExprKind::RecordField { obj, .. } => field_read_gate(e, obj@, locals),
        ExprKind::ClassFieldLen { obj, .. } => field_read_gate(e, obj@, locals),
        ExprKind::Borrow { array, .. } => match local_ty(locals, array@) {
            Some(ty) if ty.affine_option() => refused(
                "interp.affine_option_position_unsupported: affine option `"@ + array@
                    + "` cannot be borrowed"@,
            ),
            _ => Ok(()),
        },
    }
}

pub open spec fn field_read_gate(e: Expr, obj: Seq<char>, locals: LocalsV) -> GateV {
    both(receiver_gate(obj, locals, "field receiver"@), result_gate(e, "field access"@))
}

pub open spec fn operation_gate(e: Expr, args: Seq<Expr>, locals: LocalsV) -> GateV
    decreases args, args.len() + 1,
{
    both(
        args_gate(args, 0, locals, Some("operation argument"@)),
        result_gate(e, "operation result"@),
    )
}

pub open spec fn conversion_gate(e: Expr, target: IntTy, arg: Expr, locals: LocalsV) -> GateV
    decreases arg, 2nat,
{
    if target is TParam {
        refused(
            "interp.type_parameter_unsupported: conversion target contains an unresolved type parameter"@,
        )
    } else {
        both(
            expr_gate(arg, locals),
            match semantic_ty(arg, locals) {
                Err(t) => Err(t),
                Ok(ty) => if !concrete_int(ty) {
                    refused(
                        "interp.expression_type: integer conversion operand must have a concrete integer type"@,
                    )
                } else {
                    cached_gate(e.ty, Ty::Int(target), "integer conversion result"@)
                },
            },
        )
    }
}


pub fn validate_interp_sink(expected: &Ty, expr: &Expr, locals: &InterpLocals, context: &str) -> (r:
    Result<(), String>)
    ensures
        gate(r, sink_gate(*expected, *expr, views(locals@), context@)),
    decreases expr, 3nat,
{
    match validate_interp_expr(expr, locals) {
        Err(t) => {
            return Err(t);
        },
        Ok(_) => {},
    }
    let actual = match semantic_interp_ty(expr, locals) {
        Err(t) => {
            return Err(t);
        },
        Ok(actual) => actual,
    };
    if !actual.same_ty(expected) {
        return Err(
            cat7(
                "interp.expression_type: ",
                context,
                " expects `",
                expected.name().as_str(),
                "`, found `",
                actual.name().as_str(),
                "`",
            ),
        );
    }
    if expected.is_owned_array_of(&Ty::Bool) && !matches!(
        &expr.kind,
        ExprKind::ArrayLit(_) | ExprKind::AllocArray { .. } | ExprKind::OptTake { .. }
            | ExprKind::Call { .. }
    ) {
        return Err(
            cat3(
                "interp.array_position_unsupported: ",
                context,
                " receives an owned Boolean array through an unsupported transport; only owned literals, allocations, and handed-over call results are executable",
            ),
        );
    }
    Ok(())
}

fn validate_args(args: &[Expr], locals: &InterpLocals, context: Option<&str>) -> (r: Result<
    (),
    String,
>)
    ensures
        gate(
            r,
            args_gate(
                args@,
                0,
                views(locals@),
                match context {
                    Some(c) => Some(c@),
                    None => None,
                },
            ),
        ),
    decreases args@, args@.len() + 1,
{
    let ghost named = match context {
        Some(c) => Some(c@),
        None => None,
    };
    let n: usize = args.len();
    let mut i: usize = 0;
    while i < n
        invariant
            n == args@.len(),
            i <= n,
            named == (match context {
                Some(c) => Some(c@),
                None => None,
            }),
            args_gate(args@, 0, views(locals@), named) == args_gate(
                args@,
                i as nat,
                views(locals@),
                named,
            ),
        decreases n - i,
    {
        match validate_interp_expr(&args[i], locals) {
            Err(t) => {
                return Err(t);
            },
            Ok(_) => {},
        }
        match context {
            Some(c) => {
                match reject_owned_bool_array_transport(&args[i], locals, c) {
                    Err(t) => {
                        return Err(t);
                    },
                    Ok(_) => {},
                }
            },
            None => {},
        }
        i = i + 1;
    }
    Ok(())
}

fn validate_elements(payload: &Ty, elements: &[Expr], locals: &InterpLocals) -> (r: Result<
    (),
    String,
>)
    ensures
        gate(r, elements_gate(*payload, elements@, 0, views(locals@))),
    decreases elements@, elements@.len() + 1,
{
    let n: usize = elements.len();
    let mut i: usize = 0;
    while i < n
        invariant
            n == elements@.len(),
            i <= n,
            elements_gate(*payload, elements@, 0, views(locals@)) == elements_gate(
                *payload,
                elements@,
                i as nat,
                views(locals@),
            ),
        decreases n - i,
    {
        match validate_interp_sink(payload, &elements[i], locals, "array literal element") {
            Err(t) => {
                return Err(t);
            },
            Ok(_) => {},
        }
        i = i + 1;
    }
    Ok(())
}

fn validate_operation(expr: &Expr, args: &[Expr], locals: &InterpLocals) -> (r: Result<(), String>)
    ensures
        gate(r, operation_gate(*expr, args@, views(locals@))),
    decreases args@, args@.len() + 2,
{
    match validate_args(args, locals, Some("operation argument")) {
        Err(t) => {
            return Err(t);
        },
        Ok(_) => {},
    }
    reject_bool_array_result(expr, "operation result")
}

fn validate_conversion(expr: &Expr, target: IntTy, arg: &Expr, locals: &InterpLocals) -> (r: Result<
    (),
    String,
>)
    ensures
        gate(r, conversion_gate(*expr, target, *arg, views(locals@))),
    decreases arg, 4nat,
{
    if matches!(target, IntTy::TParam(_)) {
        return Err(
            owned(
                "interp.type_parameter_unsupported: conversion target contains an unresolved type parameter",
            ),
        );
    }
    match validate_interp_expr(arg, locals) {
        Err(t) => {
            return Err(t);
        },
        Ok(_) => {},
    }
    let ty = match semantic_interp_ty(arg, locals) {
        Err(t) => {
            return Err(t);
        },
        Ok(ty) => ty,
    };
    if !is_concrete_int(&ty) {
        return Err(
            owned(
                "interp.expression_type: integer conversion operand must have a concrete integer type",
            ),
        );
    }
    require_cached_type(expr, &Ty::Int(target), "integer conversion result")
}

fn validate_field_read(expr: &Expr, obj: &str, locals: &InterpLocals) -> (r: Result<(), String>)
    ensures
        gate(r, field_read_gate(*expr, obj@, views(locals@))),
{
    match reject_bool_array_named_receiver(obj, locals, "field receiver") {
        Err(t) => {
            return Err(t);
        },
        Ok(_) => {},
    }
    reject_bool_array_result(expr, "field access")
}

pub fn validate_interp_expr(expr: &Expr, locals: &InterpLocals) -> (r: Result<(), String>)
    ensures
        gate(r, expr_gate(*expr, views(locals@))),
    decreases expr, 2nat,
{
    match &expr.kind {
        ExprKind::SlotOp { op, .. } => {
            return Err(
                cat3(
                    "interp.slots_unsupported: `",
                    op.name().as_str(),
                    "` has no interpreter semantics yet",
                ),
            );
        },
        _ => {},
    }
    match &expr.ty {
        Some(ty) => {
            match validate_interp_ty(ty, "expression annotation") {
                Err(t) => {
                    return Err(t);
                },
                Ok(_) => {},
            }
            if ty.is_owned_array_of(&Ty::Bool) && !matches!(
                &expr.kind,
                ExprKind::ArrayLit(_) | ExprKind::AllocArray { .. } | ExprKind::OptTake { .. }
                    | ExprKind::Var(_) | ExprKind::Call { .. }
            ) {
                return Err(
                    owned(
                        "interp.array_position_unsupported: only owned Boolean array literals, allocations, and their local places are executable",
                    ),
                );
            }
        },
        None => {},
    }
    validate_kind(expr, locals)
}

fn validate_is_some(expr: &Expr, operand: &Expr, locals: &InterpLocals) -> (r: Result<(), String>)
    requires
        expr.kind matches ExprKind::IsSome { operand: o } && *o == *operand,
    ensures
        gate(r, kind_gate(*expr, views(locals@))),
    decreases operand, 4nat,
{
    let ty = match semantic_interp_ty(operand, locals) {
        Err(t) => {
            return Err(t);
        },
        Ok(ty) => ty,
    };
    if ty.is_affine_option() {
        match &operand.kind {
            ExprKind::Var(name) => {
                let found = match interp_local_ty(locals, name.as_str()) {
                    Some(l) => l.is_affine_option(),
                    None => false,
                };
                if !found {
                    return Err(
                        cat3(
                            "interp.affine_option_payload_unsupported: `",
                            name.as_str(),
                            "` is not an executable owning-option local",
                        ),
                    );
                }
            },
            _ => {
                return Err(
                    owned(
                        "interp.affine_option_temporary: `.is_some` on an affine option requires a named local",
                    ),
                );
            },
        }
    } else {
        match validate_interp_expr(operand, locals) {
            Err(t) => {
                return Err(t);
            },
            Ok(_) => {},
        }
    }
    if !matches!(ty, Ty::Option(_) | Ty::OptionRaw(_)) {
        return Err(
            cat3(
                "interp.option_operand: `.is_some` needs an option, found `",
                ty.name().as_str(),
                "`",
            ),
        );
    }
    require_cached_type(expr, &Ty::Bool, "`.is_some` result")
}

fn validate_opt_value(expr: &Expr, operand: &Expr, locals: &InterpLocals) -> (r: Result<(), String>)
    requires
        expr.kind matches ExprKind::OptValue { operand: o } && *o == *operand,
    ensures
        gate(r, kind_gate(*expr, views(locals@))),
    decreases operand, 4nat,
{
    let ty = match semantic_interp_ty(operand, locals) {
        Err(t) => {
            return Err(t);
        },
        Ok(ty) => ty,
    };
    if ty.is_affine_option() {
        return Err(
            owned(
                "interp.affine_option_value_unsupported: an owning option has no copying `.value`; use `.take`",
            ),
        );
    }
    match validate_interp_expr(operand, locals) {
        Err(t) => {
            return Err(t);
        },
        Ok(_) => {},
    }
    match option_value_ty(&ty) {
        None => Err(
            cat3(
                "interp.option_operand: `.value` needs an option, found `",
                ty.name().as_str(),
                "`",
            ),
        ),
        Some(result) => require_cached_type(expr, &result, "`.value` result"),
    }
}

fn validate_opt_take(expr: &Expr, option: &str, locals: &InterpLocals) -> (r: Result<(), String>)
    requires
        expr.kind matches ExprKind::OptTake { option: o, .. } && o@ == option@,
    ensures
        gate(r, kind_gate(*expr, views(locals@))),
{
    match find(locals, option) {
        None => Err(
            cat3("interp.unknown_local: `.take` names unknown local `", option, "`"),
        ),
        Some(local) => match local.ty.as_affine_option_payload() {
            None => Err(
                cat3(
                    "interp.option_operand: `.take` needs an owning option, found `",
                    local.ty.name().as_str(),
                    "`",
                ),
            ),
            Some(payload) => {
                if !local.mutable {
                    return Err(
                        cat3(
                            "interp.affine_option_immutable: `.take` needs mutable local `",
                            option,
                            "`",
                        ),
                    );
                }
                require_cached_type(expr, &payload, "affine option take result")
            },
        },
    }
}

fn validate_binary(expr: &Expr, op: BinOp, lhs: &Expr, rhs: &Expr, locals: &InterpLocals) -> (r:
    Result<(), String>)
    requires
        expr.kind matches ExprKind::Binary { op: o, lhs: l, rhs: h, .. } && o == op && *l == *lhs
            && *h == *rhs,
    ensures
        gate(r, kind_gate(*expr, views(locals@))),
    decreases expr, 0nat,
{
    if matches!(op, BinOp::And | BinOp::Or) {
        match validate_interp_sink(&Ty::Bool, lhs, locals, "Boolean left operand") {
            Err(t) => {
                return Err(t);
            },
            Ok(_) => {},
        }
        match validate_interp_sink(&Ty::Bool, rhs, locals, "Boolean right operand") {
            Err(t) => {
                return Err(t);
            },
            Ok(_) => {},
        }
        return require_cached_type(expr, &Ty::Bool, "Boolean operator result");
    }
    match validate_interp_expr(lhs, locals) {
        Err(t) => {
            return Err(t);
        },
        Ok(_) => {},
    }
    match validate_interp_expr(rhs, locals) {
        Err(t) => {
            return Err(t);
        },
        Ok(_) => {},
    }
    let left = match semantic_interp_ty(lhs, locals) {
        Err(t) => {
            return Err(t);
        },
        Ok(ty) => ty,
    };
    let right = match semantic_interp_ty(rhs, locals) {
        Err(t) => {
            return Err(t);
        },
        Ok(ty) => ty,
    };
    if !left.same_ty(&right) || !is_concrete_int(&left) {
        return Err(
            owned(
                "interp.expression_type: integer operator operands must have one concrete integer type",
            ),
        );
    }
    if op.is_comparison() {
        require_cached_type(expr, &Ty::Bool, "integer operator result")
    } else {
        require_cached_type(expr, &left, "integer operator result")
    }
}

fn validate_var(expr: &Expr, name: &str, locals: &InterpLocals) -> (r: Result<(), String>)
    requires
        expr.kind matches ExprKind::Var(n) && n@ == name@,
    ensures
        gate(r, kind_gate(*expr, views(locals@))),
{
    match interp_local_ty(locals, name) {
        None => Err(
            cat3("interp.unknown_local: expression names unknown local `", name, "`"),
        ),
        Some(ty) => {
            if ty.is_affine_option() {
                return Err(
                    cat3(
                        "interp.affine_option_transport_unsupported: affine option local `",
                        name,
                        "` cannot be copied or moved as an expression",
                    ),
                );
            }
            match &expr.ty {
                Some(cached) => {
                    if !cached.same_ty(&ty) && !ty.is_resource() {
                        return Err(
                            cat7(
                                "interp.expression_type: local `",
                                name,
                                "` has type `",
                                ty.name().as_str(),
                                "` but its expression is annotated `",
                                cached.name().as_str(),
                                "`",
                            ),
                        );
                    }
                },
                None => {},
            }
            Ok(())
        },
    }
}

fn validate_index(expr: &Expr, array: &str, index: &Expr, locals: &InterpLocals) -> (r: Result<
    (),
    String,
>)
    requires
        expr.kind matches ExprKind::Index { array: a, index: i, .. } && a@ == array@ && *i
            == *index,
    ensures
        gate(r, kind_gate(*expr, views(locals@))),
    decreases expr, 0nat,
{
    let array_ty = match interp_local_ty(locals, array) {
        None => {
            return Err(
                cat3("interp.unknown_local: index names unknown array `", array, "`"),
            );
        },
        Some(ty) => ty,
    };
    let payload = match array_ty.as_array() {
        None => {
            return Err(
                cat3("interp.not_array: indexed local `", array, "` is not an array"),
            );
        },
        Some((payload, _)) => payload,
    };
    match validate_interp_sink(&Ty::Int(IntTy::U64), index, locals, "array index") {
        Err(t) => {
            return Err(t);
        },
        Ok(_) => {},
    }
    match validate_interp_array_payload(&payload, cat3("indexed array `", array, "`").as_str()) {
        Err(t) => {
            return Err(t);
        },
        Ok(_) => {},
    }
    require_cached_type(expr, &payload, "array index result")
}

fn validate_alloc_array(expr: &Expr, elem: &Ty, len: &Expr, init: &Expr, locals: &InterpLocals) -> (r: Result<(), String>)
    requires
        expr.kind matches ExprKind::AllocArray { elem: t, len: l, init: i } && t == *elem && *l == *len && *i == *init,
    ensures
        gate(r, kind_gate(*expr, views(locals@))),
    decreases expr, 0nat,
{
    match validate_interp_array_payload(elem, "alloc_array") {
        Err(t) => {
            return Err(t);
        },
        Ok(_) => {},
    }
    match require_cached_type(
        expr,
        &Ty::Array(Box::new(elem.clone())),
        "alloc_array result",
    ) {
        Err(t) => {
            return Err(t);
        },
        Ok(_) => {},
    }
    match validate_interp_sink(&Ty::Int(IntTy::U64), len, locals, "alloc_array length") {
        Err(t) => {
            return Err(t);
        },
        Ok(_) => {},
    }
    validate_interp_sink(elem, init, locals, "alloc_array initializer")
}

fn validate_call(expr: &Expr, type_args: &Vec<Ty>, args: &Vec<Expr>, locals: &InterpLocals) -> (r: Result<(), String>)
    requires
        expr.kind matches ExprKind::Call { type_args: t, args: a, .. } && t == *type_args && a == *args,
    ensures
        gate(r, kind_gate(*expr, views(locals@))),
    decreases expr, 0nat,
{
    if type_args.len() != 0 {
        return Err(
            owned(
                "interp.type_parameter_unsupported: generic type arguments escaped monomorphization",
            ),
        );
    }
    validate_args(args.as_slice(), locals, None)
}

fn validate_ctor_call(expr: &Expr, type_args: &Vec<Ty>, args: &Vec<Expr>, locals: &InterpLocals) -> (r: Result<(), String>)
    requires
        expr.kind matches ExprKind::CtorCall { type_args: t, args: a, .. } && t == *type_args && a == *args,
    ensures
        gate(r, kind_gate(*expr, views(locals@))),
    decreases expr, 0nat,
{
    if type_args.len() != 0 {
        return Err(
            owned(
                "interp.type_parameter_unsupported: generic type arguments escaped monomorphization",
            ),
        );
    }
    validate_args(args.as_slice(), locals, Some("call argument"))
}

fn validate_unary(expr: &Expr, op: &UnOp, operand: &Expr, locals: &InterpLocals) -> (r: Result<(), String>)
    requires
        expr.kind matches ExprKind::Unary { op: o, operand: x } && o == *op && *x == *operand,
    ensures
        gate(r, kind_gate(*expr, views(locals@))),
    decreases expr, 0nat,
{
    match op {
    UnOp::Not => {
        match validate_interp_sink(
            &Ty::Bool,
            operand,
            locals,
            "Boolean negation operand",
        ) {
            Err(t) => {
                return Err(t);
            },
            Ok(_) => {},
        }
        require_cached_type(expr, &Ty::Bool, "Boolean negation result")
    },
    UnOp::Neg => {
        match validate_interp_expr(operand, locals) {
            Err(t) => {
                return Err(t);
            },
            Ok(_) => {},
        }
        let ty = match semantic_interp_ty(operand, locals) {
            Err(t) => {
                return Err(t);
            },
            Ok(ty) => ty,
        };
        if !is_concrete_int(&ty) {
            return Err(
                owned(
                    "interp.expression_type: negation operand must be a concrete integer",
                ),
            );
        }
        require_cached_type(expr, &ty, "integer negation result")
    },
}
}

fn validate_some(expr: &Expr, operand: &Expr, locals: &InterpLocals) -> (r: Result<(), String>)
    requires
        expr.kind matches ExprKind::SomeE(x) && *x == *operand,
    ensures
        gate(r, kind_gate(*expr, views(locals@))),
    decreases expr, 0nat,
{
    match &expr.ty {
        Some(ty) => {
            if ty.is_affine_option() {
                return Err(
                    owned(
                        "interp.affine_option_temporary: affine `some(...)` is valid only as an explicit local initializer",
                    ),
                );
            }
        },
        None => {},
    }
    match validate_interp_expr(operand, locals) {
        Err(t) => {
            return Err(t);
        },
        Ok(_) => {},
    }
    reject_owned_bool_array_transport(operand, locals, "option payload")
}

fn validate_method_call(expr: &Expr, recv: &String, args: &Vec<Expr>, locals: &InterpLocals) -> (r: Result<(), String>)
    requires
        expr.kind matches ExprKind::MethodCall { recv: v, args: a, .. } && v == *recv && a == *args,
    ensures
        gate(r, kind_gate(*expr, views(locals@))),
    decreases expr, 0nat,
{
    match reject_bool_array_named_receiver(recv.as_str(), locals, "method receiver") {
        Err(t) => {
            return Err(t);
        },
        Ok(_) => {},
    }
    match validate_args(args.as_slice(), locals, Some("method argument")) {
        Err(t) => {
            return Err(t);
        },
        Ok(_) => {},
    }
    reject_bool_array_result(expr, "method result")
}

fn validate_array_literal(expr: &Expr, elements: &Vec<Expr>, locals: &InterpLocals) -> (r: Result<(), String>)
    requires
        expr.kind matches ExprKind::ArrayLit(x) && x == *elements,
    ensures
        gate(r, kind_gate(*expr, views(locals@))),
    decreases expr, 0nat,
{
    match &expr.ty {
        Some(Ty::Array(payload)) => {
            match validate_interp_array_payload(payload, "array literal") {
                Err(t) => {
                    return Err(t);
                },
                Ok(_) => {},
            }
            validate_elements(payload, elements.as_slice(), locals)
        },
        _ => Err(
            owned(
                "interp.array_literal_type: array literal must have an owned array annotation",
            ),
        ),
    }
}

fn validate_class_field_index(expr: &Expr, obj: &String, index: &Expr, locals: &InterpLocals) -> (r: Result<(), String>)
    requires
        expr.kind matches ExprKind::ClassFieldIndex { obj: o, index: i, .. } && o == *obj && *i == *index,
    ensures
        gate(r, kind_gate(*expr, views(locals@))),
    decreases expr, 0nat,
{
    match reject_bool_array_named_receiver(
        obj.as_str(),
        locals,
        "class-field index receiver",
    ) {
        Err(t) => {
            return Err(t);
        },
        Ok(_) => {},
    }
    match validate_interp_sink(
        &Ty::Int(IntTy::U64),
        index,
        locals,
        "class field array index",
    ) {
        Err(t) => {
            return Err(t);
        },
        Ok(_) => {},
    }
    reject_bool_array_result(expr, "array field index result")
}

fn validate_self_field_index(expr: &Expr, index: &Expr, locals: &InterpLocals) -> (r: Result<(), String>)
    requires
        expr.kind matches ExprKind::SelfFieldIndex { index: i, .. } && *i == *index,
    ensures
        gate(r, kind_gate(*expr, views(locals@))),
    decreases expr, 0nat,
{
    match validate_interp_sink(
        &Ty::Int(IntTy::U64),
        index,
        locals,
        "self field array index",
    ) {
        Err(t) => {
            return Err(t);
        },
        Ok(_) => {},
    }
    reject_bool_array_result(expr, "array field index result")
}

fn validate_len(expr: &Expr, array: &String, locals: &InterpLocals) -> (r: Result<(), String>)
    requires
        expr.kind matches ExprKind::Len { array: a } && a == *array,
    ensures
        gate(r, kind_gate(*expr, views(locals@))),
    decreases expr, 0nat,
{
    let is_array = match interp_local_ty(locals, array.as_str()) {
        Some(ty) => ty.as_array().is_some(),
        None => false,
    };
    if !is_array {
        return Err(
            cat3(
                "interp.unknown_local: length names unknown or non-array local `",
                array.as_str(),
                "`",
            ),
        );
    }
    require_cached_type(expr, &Ty::Int(IntTy::U64), "array length")
}

fn validate_borrow(expr: &Expr, array: &String, locals: &InterpLocals) -> (r: Result<(), String>)
    requires
        expr.kind matches ExprKind::Borrow { array: a, .. } && a == *array,
    ensures
        gate(r, kind_gate(*expr, views(locals@))),
{
    match interp_local_ty(locals, array.as_str()) {
        Some(ty) => {
            if ty.is_affine_option() {
                return Err(
                    cat3(
                        "interp.affine_option_position_unsupported: affine option `",
                        array.as_str(),
                        "` cannot be borrowed",
                    ),
                );
            }
        },
        None => {},
    }
    Ok(())
}

fn validate_kind(expr: &Expr, locals: &InterpLocals) -> (r: Result<(), String>)
    ensures
        gate(r, kind_gate(*expr, views(locals@))),
    decreases expr, 1nat,
{
    match &expr.kind {
        ExprKind::SlotOp { .. } => Ok(()),
        ExprKind::Index { array, index, .. } => validate_index(
            expr,
            array.as_str(),
            index,
            locals,
        ),
        ExprKind::AllocArray { elem, len, init } => validate_alloc_array(expr, elem, len, init, locals),
        ExprKind::Widen { target, arg } => validate_conversion(expr, *target, arg, locals),
        ExprKind::Narrow { target, arg } => validate_conversion(expr, *target, arg, locals),
        ExprKind::Call { type_args, args, .. } => validate_call(expr, type_args, args, locals),
        ExprKind::CtorCall { type_args, args, .. } => validate_ctor_call(expr, type_args, args, locals),
        ExprKind::Unary { op, operand } => validate_unary(expr, op, operand, locals),
        ExprKind::IsSome { operand } => validate_is_some(expr, operand, locals),
        ExprKind::OptValue { operand } => validate_opt_value(expr, operand, locals),
        ExprKind::SomeE(operand) => validate_some(expr, operand, locals),
        ExprKind::OptTake { option, .. } => validate_opt_take(expr, option.as_str(), locals),
        ExprKind::Binary { op, lhs, rhs, .. } => validate_binary(expr, *op, lhs, rhs, locals),
        ExprKind::RawOp { args, .. } => validate_operation(expr, args.as_slice(), locals),
        ExprKind::DeviceOp { args, .. } => validate_operation(expr, args.as_slice(), locals),
        ExprKind::ResOp { args, .. } => validate_operation(expr, args.as_slice(), locals),
        ExprKind::TraitCall { args, .. } => validate_operation(expr, args.as_slice(), locals),
        ExprKind::RecordLit { args, .. } => validate_operation(expr, args.as_slice(), locals),
        ExprKind::MethodCall { recv, args, .. } => validate_method_call(expr, recv, args, locals),
        ExprKind::ArrayLit(elements) => validate_array_literal(expr, elements, locals),
        ExprKind::SelfFieldIndex { index, .. } => validate_self_field_index(expr, index, locals),
        ExprKind::ClassFieldIndex { obj, index, .. } => validate_class_field_index(expr, obj, index, locals),
        ExprKind::IntLit(_) => {
            let concrete = match &expr.ty {
                Some(ty) => is_concrete_int(ty),
                None => false,
            };
            if !concrete {
                return Err(
                    owned("interp.literal_type: integer literal lacks a concrete integer type"),
                );
            }
            Ok(())
        },
        ExprKind::BoolLit(_) => require_cached_type(expr, &Ty::Bool, "Boolean literal"),
        ExprKind::Var(name) => validate_var(expr, name.as_str(), locals),
        ExprKind::Len { array } => validate_len(expr, array, locals),
        ExprKind::NoneE => {
            match &expr.ty {
                Some(ty) => {
                    if ty.is_affine_option() {
                        return Err(
                            owned(
                                "interp.affine_option_temporary: affine `none` is valid only as an explicit local initializer",
                            ),
                        );
                    }
                },
                None => {},
            }
            Ok(())
        },
        ExprKind::SelfField { .. } => reject_bool_array_result(expr, "field access"),
        ExprKind::SelfFieldLen { .. } => reject_bool_array_result(expr, "field access"),
        ExprKind::ClassField { obj, .. } => validate_field_read(expr, obj.as_str(), locals),
        ExprKind::RecordField { obj, .. } => validate_field_read(expr, obj.as_str(), locals),
        ExprKind::ClassFieldLen { obj, .. } => validate_field_read(expr, obj.as_str(), locals),
        ExprKind::Borrow { array, .. } => validate_borrow(expr, array, locals),
    }
}

// ------------------------------------------------------------------------------------------
// Statements
// ------------------------------------------------------------------------------------------

/// The initializer of an owning option: `none`, a fresh Boolean array, or a class value.
pub open spec fn affine_initializer_gate(
    init: Expr,
    declared: Ty,
    payload: Ty,
    locals: LocalsV,
    name: Seq<char>,
) -> GateV {
    both(
        cached_gate(init.ty, declared, "affine option initializer"@),
        match init.kind {
            ExprKind::NoneE => Ok(()),
            ExprKind::SomeE(inner) => if inner.kind matches ExprKind::AllocArray { elem, .. }
                && elem is Bool {
                both(
                    expr_gate(*inner, locals),
                    cached_gate(inner.ty, bool_array(), "affine option payload"@),
                )
            } else if payload is Class && (inner.kind is CtorCall || inner.kind is Var) {
                both(
                    expr_gate(*inner, locals),
                    cached_gate(inner.ty, payload, "affine option payload"@),
                )
            } else {
                affine_initializer_refusal(name)
            },
            _ => affine_initializer_refusal(name),
        },
    )
}

pub open spec fn affine_initializer_refusal(name: Seq<char>) -> GateV {
    refused(
        "interp.affine_option_initializer: affine option local `"@ + name
            + "` must be initialized with `none`, `some(alloc_array<bool>(...))`, or `some(<class value>)`"@,
    )
}

pub fn validate_affine_option_initializer(
    init: &Expr,
    declared: &Ty,
    payload: &Ty,
    locals: &InterpLocals,
    name: &str,
) -> (r: Result<(), String>)
    ensures
        gate(r, affine_initializer_gate(*init, *declared, *payload, views(locals@), name@)),
{
    match require_cached_type(init, declared, "affine option initializer") {
        Err(t) => {
            return Err(t);
        },
        Ok(_) => {},
    }
    match &init.kind {
        ExprKind::NoneE => {
            return Ok(());
        },
        ExprKind::SomeE(inner) => {
            let allocates = match &inner.kind {
                ExprKind::AllocArray { elem, .. } => matches!(elem, Ty::Bool),
                _ => false,
            };
            if allocates {
                match validate_interp_expr(inner, locals) {
                    Err(t) => {
                        return Err(t);
                    },
                    Ok(_) => {},
                }
                return require_cached_type(
                    inner,
                    &Ty::array(Ty::Bool),
                    "affine option payload",
                );
            }
            if matches!(payload, Ty::Class(_)) && matches!(
                &inner.kind,
                ExprKind::CtorCall { .. } | ExprKind::Var(_)
            ) {
                match validate_interp_expr(inner, locals) {
                    Err(t) => {
                        return Err(t);
                    },
                    Ok(_) => {},
                }
                return require_cached_type(inner, payload, "affine option payload");
            }
        },
        _ => {},
    }
    Err(
        cat3(
            "interp.affine_option_initializer: affine option local `",
            name,
            "` must be initialized with `none`, `some(alloc_array<bool>(...))`, or `some(<class value>)`",
        ),
    )
}

/// What a gate says of statements, and the locals that it leaves in scope.
pub type ScopeGateV = (GateV, LocalsV);

pub open spec fn with_local(locals: LocalsV, name: Seq<char>, ty: Ty, mutable: bool) -> LocalsV {
    bind(locals, name, InterpLocal { ty, mutable })
}

/// A statement that brings `declared` into scope where it is accepted.
pub open spec fn declares(g: GateV, locals: LocalsV, declared: LocalsV) -> ScopeGateV {
    (
        g,
        if g is Ok {
            declared
        } else {
            locals
        },
    )
}

pub open spec fn decl_gate(
    ty: Ty,
    name: Seq<char>,
    init: Option<Expr>,
    mutable: bool,
    locals: LocalsV,
) -> GateV {
    if value_of(locals, name) is Some {
        refused(
            "interp.duplicate_local: declaration `"@ + name + "` would replace an active local"@,
        )
    } else {
        both(
            ty_gate(ty, "declaration `"@ + name + "`"@),
            match ty.affine_payload() {
                Some(payload) => if !mutable {
                    refused(
                        "interp.affine_option_immutable: affine option local `"@ + name
                            + "` must be declared `mut`"@,
                    )
                } else {
                    match init {
                        None => refused(
                            "interp.affine_option_initializer: affine option local `"@ + name
                                + "` must be initialized with `none` or `some(alloc_array<bool>(...))`"@,
                        ),
                        Some(e) => affine_initializer_gate(e, ty, payload, locals, name),
                    }
                },
                None => match init {
                    Some(e) => sink_gate(ty, e, locals, "declaration `"@ + name + "`"@),
                    None => if ty.array_of(Ty::Bool) {
                        refused(
                            "interp.array_position_unsupported: Boolean array local `"@ + name
                                + "` must be initialized by an owned literal or allocation"@,
                        )
                    } else {
                        Ok(())
                    },
                },
            },
        )
    }
}

/// The type that an inferred declaration gives its local.
pub open spec fn var_decl_gate(name: Seq<char>, init: Expr, ty: Option<Ty>, locals: LocalsV) -> Result<
    Ty,
    Seq<char>,
> {
    if value_of(locals, name) is Some {
        Err("interp.duplicate_local: declaration `"@ + name + "` would replace an active local"@)
    } else if init.kind is OptTake && !(ty matches Some(t) && t is Class) {
        Err(
            "interp.affine_option_take_position: `.take` must directly initialize a fresh owned local"@,
        )
    } else {
        match both(
            match ty {
                Some(t) => ty_gate(t, "inferred declaration `"@ + name + "`"@),
                None => Ok(()),
            },
            expr_gate(init, locals),
        ) {
            Err(e) => Err(e),
            Ok(_) => {
                let inferred = match ty {
                    Some(t) => Some(t),
                    None => init.ty,
                };
                match inferred {
                    None => Err(
                        "interp.missing_type: inferred declaration `"@ + name + "` has no type"@,
                    ),
                    Some(t) => match sink_gate(t, init, locals, "declaration `"@ + name + "`"@) {
                        Err(e) => Err(e),
                        Ok(_) => if t.affine_option() {
                            Err(
                                "interp.affine_option_position_unsupported: inferred declaration `"@
                                    + name
                                    + "` cannot own an affine option; write an explicit `option<[bool]>` declaration"@,
                            )
                        } else {
                            Ok(t)
                        },
                    },
                }
            },
        }
    }
}

pub open spec fn assign_gate(name: Seq<char>, value: Expr, locals: LocalsV) -> GateV {
    match local_ty(locals, name) {
        None => refused("interp.unknown_local: assignment to unknown local `"@ + name + "`"@),
        Some(ty) => if ty.affine_option() {
            refused(
                "interp.affine_option_assignment_unsupported: affine option `"@ + name
                    + "` cannot be rebound"@,
            )
        } else if ty.array_of(Ty::Bool) {
            refused(
                "interp.array_position_unsupported: Boolean array `"@ + name
                    + "` cannot be rebound; use an element store"@,
            )
        } else {
            sink_gate(ty, value, locals, "assignment `"@ + name + "`"@)
        },
    }
}

pub open spec fn store_gate(array: Seq<char>, index: Expr, value: Expr, locals: LocalsV) -> GateV {
    match local_ty(locals, array) {
        None => refused("interp.unknown_local: store names unknown array `"@ + array + "`"@),
        Some(ty) => match ty.spec_as_array() {
            None => refused("interp.not_array: store target `"@ + array + "` is not an array"@),
            Some((payload, _)) => both(
                array_payload_gate(payload, "store target `"@ + array + "`"@),
                both(
                    sink_gate(u64_ty(), index, locals, "array store index"@),
                    sink_gate(payload, value, locals, "array store value"@),
                ),
            ),
        },
    }
}

/// Which arrays are exposed as bytes: integer arrays only.
pub open spec fn exposure_gate(array: Seq<char>, locals: LocalsV) -> GateV {
    match local_ty(locals, array) {
        Some(ty) if ty.affine_option() => refused(
            "interp.affine_option_position_unsupported: affine option `"@ + array
                + "` cannot be an exposure source"@,
        ),
        Some(ty) if ty.array_of(Ty::Bool) => refused(
            "interp.array_position_unsupported: exposure of Boolean array `"@ + array
                + "`; Boolean arrays are safe owned locals only"@,
        ),
        Some(ty) if ty.spec_as_array() matches Some((e, _)) && concrete_int(e) => Ok(()),
        _ => refused(
            "interp.not_array: exposure source `"@ + array
                + "` is not an executable integer array"@,
        ),
    }
}

pub open spec fn raw_pair(locals: LocalsV, ptr: Seq<char>, res: Seq<char>) -> LocalsV {
    with_local(
        with_local(locals, ptr, Ty::Raw(IntTy::U8), false),
        res,
        Ty::Res(ResKind::RawSpan),
        false,
    )
}

pub open spec fn dealloc_gate(ptr: Expr, res: Expr, release: Expr, locals: LocalsV) -> GateV {
    both(
        expr_gate(ptr, locals),
        both(
            transport_gate(ptr, locals, "system deallocation pointer"@),
            both(
                expr_gate(res, locals),
                both(
                    transport_gate(res, locals, "system deallocation resource"@),
                    both(
                        expr_gate(release, locals),
                        transport_gate(release, locals, "system deallocation release token"@),
                    ),
                ),
            ),
        ),
    )
}

/// The statements of a block from `i` on. A refusal leaves what was declared before it.
pub open spec fn stmts_gate(s: Seq<Stmt>, i: nat, locals: LocalsV) -> ScopeGateV
    decreases s, s.len() - i,
{
    if i >= s.len() {
        (Ok(()), locals)
    } else {
        let first = stmt_gate(s[i as int], locals);
        if first.0 is Err {
            first
        } else {
            stmts_gate(s, i + 1, first.1)
        }
    }
}

/// One statement and everything inside it. What a branch, a loop or an exposure declares ends
/// with it; an unsafe block shares the scope around it.
pub open spec fn stmt_gate(s: Stmt, locals: LocalsV) -> ScopeGateV
    decreases s, 0nat,
{
    match s {
        Stmt::Decl { ty, name, init, mutable, .. } => declares(
            decl_gate(ty, name@, init, mutable, locals),
            locals,
            with_local(locals, name@, ty, mutable),
        ),
        Stmt::Assign { name, value, .. } => (assign_gate(name@, value, locals), locals),
        Stmt::ExprStmt(value) => (
            both(
                expr_gate(value, locals),
                owned_transport_gate(value, locals, "expression statement"@),
            ),
            locals,
        ),
        Stmt::FieldAssign { value, .. } => (expr_gate(value, locals), locals),
        Stmt::If { cond, then_block, else_block } => (
            both(
                sink_gate(Ty::Bool, cond, locals, "if condition"@),
                both(
                    stmts_gate(then_block@, 0, locals).0,
                    match else_block {
                        Some(block) => stmts_gate(block@, 0, locals).0,
                        None => Ok(()),
                    },
                ),
            ),
            locals,
        ),
        Stmt::Return { value, .. } => (
            match value {
                Some(e) => expr_gate(e, locals),
                None => Ok(()),
            },
            locals,
        ),
        Stmt::Assert(_) => (Ok(()), locals),
        Stmt::VarDecl { name, init, ty, .. } => match var_decl_gate(name@, init, ty, locals) {
            Err(e) => (Err(e), locals),
            Ok(t) => (Ok(()), with_local(locals, name@, t, true)),
        },
        Stmt::FieldStore { index, value, .. } => (
            both(
                sink_gate(u64_ty(), index, locals, "array field store index"@),
                both(
                    expr_gate(value, locals),
                    owned_transport_gate(value, locals, "array field store"@),
                ),
            ),
            locals,
        ),
        Stmt::Store { array, index, value, .. } => (
            store_gate(array@, index, value, locals),
            locals,
        ),
        Stmt::While { cond, body, .. } => (
            both(
                sink_gate(Ty::Bool, cond, locals, "while condition"@),
                stmts_gate(body@, 0, locals).0,
            ),
            locals,
        ),
        Stmt::Unsafe { body, .. } => stmts_gate(body@, 0, locals),
        Stmt::Expose { array, ptr, res, body, .. } => (
            both(
                exposure_gate(array@, locals),
                both(
                    fresh_two(ptr@, res@, locals),
                    stmts_gate(body@, 0, raw_pair(locals, ptr@, res@)).0,
                ),
            ),
            locals,
        ),
        Stmt::StaticAlloc { size, ptr, res, .. } => declares(
            both(
                sink_gate(u64_ty(), size, locals, "static allocation size"@),
                fresh_two(ptr@, res@, locals),
            ),
            locals,
            raw_pair(locals, ptr@, res@),
        ),
        Stmt::SystemAlloc { size, ptr, res, release, .. } => declares(
            both(
                sink_gate(u64_ty(), size, locals, "system allocation size"@),
                fresh_three(ptr@, res@, release@, locals),
            ),
            locals,
            with_local(
                raw_pair(locals, ptr@, res@),
                release@,
                Ty::Res(ResKind::SystemDealloc),
                false,
            ),
        ),
        Stmt::SystemDealloc { ptr, res, release, .. } => (
            dealloc_gate(ptr, res, release, locals),
            locals,
        ),
    }
}

/// A computed gate and the locals that it left stand for stated ones.
pub open spec fn scope_gate(r: Result<(), String>, after: LocalsV, s: ScopeGateV) -> bool {
    gate(r, s.0) && after == s.1
}

/// A block of one statement is judged as that statement.
proof fn lemma_gate_of_one(s: Stmt, locals: LocalsV)
    ensures
        stmts_gate(seq![s], 0, locals) == stmt_gate(s, locals),
{
    let one = seq![s];
    let first = stmt_gate(s, locals);
    assert(one[0] == s && one.len() == 1);
    let end = stmts_gate(one, 1, first.1);
    assert(end.0 is Ok && end.1 == first.1);
    assert(stmts_gate(one, 0, locals) == if first.0 is Err {
        first
    } else {
        end
    });
    if first.0 is Ok {
        assert(first.0->Ok_0 == end.0->Ok_0);
    }
}

/// A branch, a loop or an exposure leaves the locals around it as they were, accepted or refused:
/// what is declared inside does not escape.
pub proof fn law_nested_blocks_keep_the_locals(s: Stmt, locals: LocalsV)
    requires
        s is If || s is While || s is Expose,
    ensures
        stmts_gate(seq![s], 0, locals) == stmt_gate(s, locals),
        stmts_gate(seq![s], 0, locals).1 == locals,
{
    lemma_gate_of_one(s, locals);
}

/// An unsafe block is judged as its statements in its place, and what they declare stays.
pub proof fn law_unsafe_is_its_body(kw_span: Span, body: Vec<Stmt>, locals: LocalsV)
    ensures
        stmts_gate(seq![Stmt::Unsafe { kw_span, body }], 0, locals) == stmts_gate(
            body@,
            0,
            locals,
        ),
{
    lemma_gate_of_one(Stmt::Unsafe { kw_span, body }, locals);
}

proof fn lemma_gate_of_concatenation(a: Seq<Stmt>, b: Seq<Stmt>, i: nat, locals: LocalsV)
    requires
        i <= a.len(),
    ensures
        stmts_gate(a + b, i, locals) == {
            let first = stmts_gate(a, i, locals);
            if first.0 is Err {
                first
            } else {
                stmts_gate(a + b, a.len(), first.1)
            }
        },
    decreases a.len() - i,
{
    if i < a.len() {
        assert((a + b)[i as int] == a[i as int]);
        let first = stmt_gate(a[i as int], locals);
        if first.0 is Ok {
            lemma_gate_of_concatenation(a, b, i + 1, first.1);
        }
    }
}

proof fn lemma_gate_of_tail(a: Seq<Stmt>, b: Seq<Stmt>, i: nat, locals: LocalsV)
    requires
        i <= b.len(),
    ensures
        stmts_gate(a + b, a.len() + i, locals) == stmts_gate(b, i, locals),
    decreases b.len() - i,
{
    if i < b.len() {
        assert((a + b)[(a.len() + i) as int] == b[i as int]);
        let first = stmt_gate(b[i as int], locals);
        if first.0 is Ok {
            lemma_gate_of_tail(a, b, i + 1, first.1);
        }
    }
}

/// Statements in sequence are judged in sequence: the second part in what the first declared, and
/// not at all where the first is refused.
pub proof fn law_gate_of_concatenation(a: Seq<Stmt>, b: Seq<Stmt>, locals: LocalsV)
    ensures
        stmts_gate(a + b, 0, locals) == {
            let first = stmts_gate(a, 0, locals);
            if first.0 is Err {
                first
            } else {
                stmts_gate(b, 0, first.1)
            }
        },
{
    lemma_gate_of_concatenation(a, b, 0, locals);
    let first = stmts_gate(a, 0, locals);
    if first.0 is Ok {
        lemma_gate_of_tail(a, b, 0, first.1);
    }
}

fn validate_decl(
    ty: &Ty,
    name: &str,
    init: &Option<Expr>,
    mutable: bool,
    locals: &InterpLocals,
) -> (r: Result<(), String>)
    ensures
        gate(r, decl_gate(*ty, name@, *init, mutable, views(locals@))),
{
    if find(locals, name).is_some() {
        return Err(
            cat3(
                "interp.duplicate_local: declaration `",
                name,
                "` would replace an active local",
            ),
        );
    }
    let context = cat3("declaration `", name, "`");
    match validate_interp_ty(ty, context.as_str()) {
        Err(t) => {
            return Err(t);
        },
        Ok(_) => {},
    }
    match ty.as_affine_option_payload() {
        Some(payload) => {
            if !mutable {
                return Err(
                    cat3(
                        "interp.affine_option_immutable: affine option local `",
                        name,
                        "` must be declared `mut`",
                    ),
                );
            }
            match init {
                None => Err(
                    cat3(
                        "interp.affine_option_initializer: affine option local `",
                        name,
                        "` must be initialized with `none` or `some(alloc_array<bool>(...))`",
                    ),
                ),
                Some(e) => validate_affine_option_initializer(e, ty, &payload, locals, name),
            }
        },
        None => {
            match init {
                Some(e) => validate_interp_sink(ty, e, locals, context.as_str()),
                None => {
                    if ty.is_array_of(&Ty::Bool) {
                        return Err(
                            cat3(
                                "interp.array_position_unsupported: Boolean array local `",
                                name,
                                "` must be initialized by an owned literal or allocation",
                            ),
                        );
                    }
                    Ok(())
                },
            }
        },
    }
}

fn validate_var_decl(name: &str, init: &Expr, ty: &Option<Ty>, locals: &InterpLocals) -> (r: Result<
    Ty,
    String,
>)
    ensures
        gate_value(r, var_decl_gate(name@, *init, *ty, views(locals@))),
{
    if find(locals, name).is_some() {
        return Err(
            cat3(
                "interp.duplicate_local: declaration `",
                name,
                "` would replace an active local",
            ),
        );
    }
    if matches!(&init.kind, ExprKind::OptTake { .. }) && !matches!(ty, Some(Ty::Class(_))) {
        return Err(
            owned(
                "interp.affine_option_take_position: `.take` must directly initialize a fresh owned local",
            ),
        );
    }
    match ty {
        Some(t) => {
            match validate_interp_ty(t, cat3("inferred declaration `", name, "`").as_str()) {
                Err(t) => {
                    return Err(t);
                },
                Ok(_) => {},
            }
        },
        None => {},
    }
    match validate_interp_expr(init, locals) {
        Err(t) => {
            return Err(t);
        },
        Ok(_) => {},
    }
    let inferred = match ty {
        Some(t) => t.clone(),
        None => match &init.ty {
            Some(t) => t.clone(),
            None => {
                return Err(
                    cat3(
                        "interp.missing_type: inferred declaration `",
                        name,
                        "` has no type",
                    ),
                );
            },
        },
    };
    match validate_interp_sink(
        &inferred,
        init,
        locals,
        cat3("declaration `", name, "`").as_str(),
    ) {
        Err(t) => {
            return Err(t);
        },
        Ok(_) => {},
    }
    if inferred.is_affine_option() {
        return Err(
            cat3(
                "interp.affine_option_position_unsupported: inferred declaration `",
                name,
                "` cannot own an affine option; write an explicit `option<[bool]>` declaration",
            ),
        );
    }
    Ok(inferred)
}

fn validate_assign(name: &str, value: &Expr, locals: &InterpLocals) -> (r: Result<(), String>)
    ensures
        gate(r, assign_gate(name@, *value, views(locals@))),
{
    let destination = match interp_local_ty(locals, name) {
        None => {
            return Err(
                cat3("interp.unknown_local: assignment to unknown local `", name, "`"),
            );
        },
        Some(ty) => ty,
    };
    if destination.is_affine_option() {
        return Err(
            cat3(
                "interp.affine_option_assignment_unsupported: affine option `",
                name,
                "` cannot be rebound",
            ),
        );
    }
    if destination.is_array_of(&Ty::Bool) {
        return Err(
            cat3(
                "interp.array_position_unsupported: Boolean array `",
                name,
                "` cannot be rebound; use an element store",
            ),
        );
    }
    validate_interp_sink(&destination, value, locals, cat3("assignment `", name, "`").as_str())
}

fn validate_store(array: &str, index: &Expr, value: &Expr, locals: &InterpLocals) -> (r: Result<
    (),
    String,
>)
    ensures
        gate(r, store_gate(array@, *index, *value, views(locals@))),
{
    let array_ty = match interp_local_ty(locals, array) {
        None => {
            return Err(
                cat3("interp.unknown_local: store names unknown array `", array, "`"),
            );
        },
        Some(ty) => ty,
    };
    let payload = match array_ty.as_array() {
        None => {
            return Err(
                cat3("interp.not_array: store target `", array, "` is not an array"),
            );
        },
        Some((payload, _)) => payload,
    };
    match validate_interp_array_payload(&payload, cat3("store target `", array, "`").as_str()) {
        Err(t) => {
            return Err(t);
        },
        Ok(_) => {},
    }
    match validate_interp_sink(&Ty::Int(IntTy::U64), index, locals, "array store index") {
        Err(t) => {
            return Err(t);
        },
        Ok(_) => {},
    }
    validate_interp_sink(&payload, value, locals, "array store value")
}

fn validate_exposure(array: &str, locals: &InterpLocals) -> (r: Result<(), String>)
    ensures
        gate(r, exposure_gate(array@, views(locals@))),
{
    match interp_local_ty(locals, array) {
        Some(ty) => {
            if ty.is_affine_option() {
                return Err(
                    cat3(
                        "interp.affine_option_position_unsupported: affine option `",
                        array,
                        "` cannot be an exposure source",
                    ),
                );
            }
            if ty.is_array_of(&Ty::Bool) {
                return Err(
                    cat3(
                        "interp.array_position_unsupported: exposure of Boolean array `",
                        array,
                        "`; Boolean arrays are safe owned locals only",
                    ),
                );
            }
            match ty.as_array() {
                Some((e, _)) => {
                    if is_concrete_int(&e) {
                        return Ok(());
                    }
                },
                None => {},
            }
        },
        None => {},
    }
    Err(
        cat3(
            "interp.not_array: exposure source `",
            array,
            "` is not an executable integer array",
        ),
    )
}

fn require_two(a: &str, b: &str, locals: &InterpLocals) -> (r: Result<(), String>)
    ensures
        gate(r, fresh_two(a@, b@, views(locals@))),
{
    let mut names: Vec<String> = Vec::new();
    names.push(owned(a));
    names.push(owned(b));
    assert(texts(names@) =~= seq![a@, b@]);
    require_fresh_interp_bindings(&names, locals)
}

fn require_three(a: &str, b: &str, c: &str, locals: &InterpLocals) -> (r: Result<(), String>)
    ensures
        gate(r, fresh_three(a@, b@, c@, views(locals@))),
{
    let mut names: Vec<String> = Vec::new();
    names.push(owned(a));
    names.push(owned(b));
    names.push(owned(c));
    assert(texts(names@) =~= seq![a@, b@, c@]);
    require_fresh_interp_bindings(&names, locals)
}

fn add_local(locals: &mut InterpLocals, name: &str, ty: Ty, mutable: bool)
    ensures
        views(final(locals)@) == with_local(views(old(locals)@), name@, ty, mutable),
{
    put(locals, name, InterpLocal { ty, mutable });
}

fn add_raw_pair(locals: &mut InterpLocals, ptr: &str, res: &str)
    ensures
        views(final(locals)@) == raw_pair(views(old(locals)@), ptr@, res@),
{
    add_local(locals, ptr, Ty::Raw(IntTy::U8), false);
    add_local(locals, res, Ty::Res(ResKind::RawSpan), false);
}

fn validate_dealloc(ptr: &Expr, res: &Expr, release: &Expr, locals: &InterpLocals) -> (r: Result<
    (),
    String,
>)
    ensures
        gate(r, dealloc_gate(*ptr, *res, *release, views(locals@))),
{
    match validate_interp_expr(ptr, locals) {
        Err(t) => {
            return Err(t);
        },
        Ok(_) => {},
    }
    match reject_bool_array_transport_if_present(ptr, locals, "system deallocation pointer") {
        Err(t) => {
            return Err(t);
        },
        Ok(_) => {},
    }
    match validate_interp_expr(res, locals) {
        Err(t) => {
            return Err(t);
        },
        Ok(_) => {},
    }
    match reject_bool_array_transport_if_present(res, locals, "system deallocation resource") {
        Err(t) => {
            return Err(t);
        },
        Ok(_) => {},
    }
    match validate_interp_expr(release, locals) {
        Err(t) => {
            return Err(t);
        },
        Ok(_) => {},
    }
    reject_bool_array_transport_if_present(release, locals, "system deallocation release token")
}

/// Whether a block may run, in a scope of its own.
fn validate_nested(stmts: &[Stmt], locals: &InterpLocals) -> (r: Result<(), String>)
    ensures
        gate(r, stmts_gate(stmts@, 0, views(locals@)).0),
    decreases stmts@, stmts@.len() + 2,
{
    let mut inner = copy_vec(locals);
    validate_interp_stmts(stmts, &mut inner)
}

pub fn validate_interp_stmts(stmts: &[Stmt], locals: &mut InterpLocals) -> (r: Result<(), String>)
    ensures
        scope_gate(r, views(final(locals)@), stmts_gate(stmts@, 0, views(old(locals)@))),
    decreases stmts@, stmts@.len() + 1,
{
    let n: usize = stmts.len();
    let mut i: usize = 0;
    while i < n
        invariant
            n == stmts@.len(),
            i <= n,
            stmts_gate(stmts@, 0, views(old(locals)@)) == stmts_gate(
                stmts@,
                i as nat,
                views(locals@),
            ),
        decreases n - i,
    {
        match validate_stmt(&stmts[i], locals) {
            Err(t) => {
                return Err(t);
            },
            Ok(_) => {},
        }
        i = i + 1;
    }
    Ok(())
}

fn validate_stmt(stmt: &Stmt, locals: &mut InterpLocals) -> (r: Result<(), String>)
    ensures
        scope_gate(r, views(final(locals)@), stmt_gate(*stmt, views(old(locals)@))),
    decreases stmt, 0nat,
{
    match stmt {
        Stmt::Decl { ty, name, init, mutable, .. } => {
            match validate_decl(ty, name.as_str(), init, *mutable, locals) {
                Err(t) => {
                    return Err(t);
                },
                Ok(_) => {},
            }
            add_local(locals, name.as_str(), ty.clone(), *mutable);
            Ok(())
        },
        Stmt::Assign { name, value, .. } => validate_assign(name.as_str(), value, locals),
        Stmt::ExprStmt(value) => {
            match validate_interp_expr(value, locals) {
                Err(t) => {
                    return Err(t);
                },
                Ok(_) => {},
            }
            reject_owned_bool_array_transport(value, locals, "expression statement")
        },
        Stmt::FieldAssign { value, .. } => validate_interp_expr(value, locals),
        Stmt::If { cond, then_block, else_block } => {
            match validate_interp_sink(&Ty::Bool, cond, locals, "if condition") {
                Err(t) => {
                    return Err(t);
                },
                Ok(_) => {},
            }
            match validate_nested(then_block.as_slice(), locals) {
                Err(t) => {
                    return Err(t);
                },
                Ok(_) => {},
            }
            match else_block {
                Some(block) => validate_nested(block.as_slice(), locals),
                None => Ok(()),
            }
        },
        Stmt::Return { value, .. } => {
            match value {
                Some(e) => validate_interp_expr(e, locals),
                None => Ok(()),
            }
        },
        Stmt::Assert(_) => Ok(()),
        Stmt::VarDecl { name, init, ty, .. } => {
            let inferred = match validate_var_decl(name.as_str(), init, ty, locals) {
                Err(t) => {
                    return Err(t);
                },
                Ok(t) => t,
            };
            add_local(locals, name.as_str(), inferred, true);
            Ok(())
        },
        Stmt::FieldStore { index, value, .. } => {
            match validate_interp_sink(
                &Ty::Int(IntTy::U64),
                index,
                locals,
                "array field store index",
            ) {
                Err(t) => {
                    return Err(t);
                },
                Ok(_) => {},
            }
            match validate_interp_expr(value, locals) {
                Err(t) => {
                    return Err(t);
                },
                Ok(_) => {},
            }
            reject_owned_bool_array_transport(value, locals, "array field store")
        },
        Stmt::Store { array, index, value, .. } => validate_store(
            array.as_str(),
            index,
            value,
            locals,
        ),
        Stmt::While { cond, body, .. } => {
            match validate_interp_sink(&Ty::Bool, cond, locals, "while condition") {
                Err(t) => {
                    return Err(t);
                },
                Ok(_) => {},
            }
            validate_nested(body.as_slice(), locals)
        },
        Stmt::Unsafe { body, .. } => validate_interp_stmts(body.as_slice(), locals),
        Stmt::Expose { array, ptr, res, body, .. } => {
            match validate_exposure(array.as_str(), locals) {
                Err(t) => {
                    return Err(t);
                },
                Ok(_) => {},
            }
            match require_two(ptr.as_str(), res.as_str(), locals) {
                Err(t) => {
                    return Err(t);
                },
                Ok(_) => {},
            }
            let mut inner = copy_vec(locals);
            add_raw_pair(&mut inner, ptr.as_str(), res.as_str());
            validate_interp_stmts(body.as_slice(), &mut inner)
        },
        Stmt::StaticAlloc { size, ptr, res, .. } => {
            match validate_interp_sink(
                &Ty::Int(IntTy::U64),
                size,
                locals,
                "static allocation size",
            ) {
                Err(t) => {
                    return Err(t);
                },
                Ok(_) => {},
            }
            match require_two(ptr.as_str(), res.as_str(), locals) {
                Err(t) => {
                    return Err(t);
                },
                Ok(_) => {},
            }
            add_raw_pair(locals, ptr.as_str(), res.as_str());
            Ok(())
        },
        Stmt::SystemAlloc { size, ptr, res, release, .. } => {
            match validate_interp_sink(
                &Ty::Int(IntTy::U64),
                size,
                locals,
                "system allocation size",
            ) {
                Err(t) => {
                    return Err(t);
                },
                Ok(_) => {},
            }
            match require_three(ptr.as_str(), res.as_str(), release.as_str(), locals) {
                Err(t) => {
                    return Err(t);
                },
                Ok(_) => {},
            }
            add_raw_pair(locals, ptr.as_str(), res.as_str());
            add_local(locals, release.as_str(), Ty::Res(ResKind::SystemDealloc), false);
            Ok(())
        },
        Stmt::SystemDealloc { ptr, res, release, .. } => validate_dealloc(
            ptr,
            res,
            release,
            locals,
        ),
    }
}

// ------------------------------------------------------------------------------------------
// Programs
// ------------------------------------------------------------------------------------------

/// The parameters from `i` on, bound after `locals`.
pub open spec fn params_gate(f: FnDecl, i: nat, locals: LocalsV) -> Result<LocalsV, Seq<char>>
    decreases f.params@.len() - i,
{
    if i >= f.params@.len() {
        Ok(locals)
    } else {
        let p = f.params@[i as int];
        match param_ty_gate(p.ty, "parameter `"@ + p.name@ + "`"@) {
            Err(e) => Err(e),
            Ok(_) => params_gate(f, i + 1, with_local(locals, p.name@, p.ty, false)),
        }
    }
}

pub open spec fn fn_gate(f: FnDecl) -> GateV {
    match params_gate(f, 0, Seq::empty()) {
        Err(e) => Err(e),
        Ok(locals) => both(
            return_ty_gate(f.ret, "return type of `"@ + f.name@ + "`"@),
            stmts_gate(f.body@, 0, locals).0,
        ),
    }
}

pub open spec fn fns_gate(fns: Seq<FnDecl>, i: nat) -> GateV
    decreases fns.len() - i,
{
    if i >= fns.len() {
        Ok(())
    } else {
        both(fn_gate(fns[i as int]), fns_gate(fns, i + 1))
    }
}

pub open spec fn methods_gate(c: ClassDecl, i: nat) -> GateV
    decreases c.methods@.len() - i,
{
    if i >= c.methods@.len() {
        Ok(())
    } else {
        both(fn_gate(c.methods@[i as int].f), methods_gate(c, i + 1))
    }
}

pub open spec fn class_fields_gate(c: ClassDecl, i: nat) -> GateV
    decreases c.fields@.len() - i,
{
    if i >= c.fields@.len() {
        Ok(())
    } else {
        let f = c.fields@[i as int];
        both(
            class_field_ty_gate(f.ty, "field `"@ + c.name@ + "."@ + f.name@ + "`"@),
            class_fields_gate(c, i + 1),
        )
    }
}

pub open spec fn class_gate(c: ClassDecl) -> GateV {
    both(
        class_fields_gate(c, 0),
        both(
            fns_gate(c.inits@, 0),
            both(
                methods_gate(c, 0),
                match c.deinit {
                    Some(body) => stmts_gate(body@, 0, Seq::empty()).0,
                    None => Ok(()),
                },
            ),
        ),
    )
}

pub open spec fn classes_gate(classes: Seq<ClassDecl>, i: nat) -> GateV
    decreases classes.len() - i,
{
    if i >= classes.len() {
        Ok(())
    } else {
        both(class_gate(classes[i as int]), classes_gate(classes, i + 1))
    }
}

pub open spec fn record_gate(r: RecordDecl, i: nat) -> GateV
    decreases r.fields@.len() - i,
{
    if i >= r.fields@.len() {
        Ok(())
    } else {
        let f = r.fields@[i as int];
        both(
            field_ty_gate(f.ty, "field `"@ + r.name@ + "."@ + f.name@ + "`"@),
            record_gate(r, i + 1),
        )
    }
}

pub open spec fn records_gate(records: Seq<RecordDecl>, i: nat) -> GateV
    decreases records.len() - i,
{
    if i >= records.len() {
        Ok(())
    } else {
        both(record_gate(records[i as int], 0), records_gate(records, i + 1))
    }
}

/// Whether a program may run. Templates are never executed and are not judged.
pub open spec fn program_gate(p: Program) -> GateV {
    both(
        fns_gate(p.fns@, 0),
        both(classes_gate(p.classes@, 0), records_gate(p.records@, 0)),
    )
}

pub fn validate_interp_fn(function: &FnDecl) -> (r: Result<(), String>)
    ensures
        gate(r, fn_gate(*function)),
{
    let mut locals: InterpLocals = Vec::new();
    let n: usize = function.params.len();
    let mut i: usize = 0;
    while i < n
        invariant
            n == function.params@.len(),
            i <= n,
            params_gate(*function, 0, Seq::empty()) == params_gate(
                *function,
                i as nat,
                views(locals@),
            ),
        decreases n - i,
    {
        let p = &function.params[i];
        match validate_interp_param_ty(&p.ty, cat3("parameter `", p.name.as_str(), "`").as_str()) {
            Err(t) => {
                return Err(t);
            },
            Ok(_) => {},
        }
        add_local(&mut locals, p.name.as_str(), p.ty.clone(), false);
        i = i + 1;
    }
    match validate_interp_return_ty(
        &function.ret,
        cat3("return type of `", function.name.as_str(), "`").as_str(),
    ) {
        Err(t) => {
            return Err(t);
        },
        Ok(_) => {},
    }
    validate_interp_stmts(function.body.as_slice(), &mut locals)
}

fn validate_fns(fns: &Vec<FnDecl>) -> (r: Result<(), String>)
    ensures
        gate(r, fns_gate(fns@, 0)),
{
    let n: usize = fns.len();
    let mut i: usize = 0;
    while i < n
        invariant
            n == fns@.len(),
            i <= n,
            fns_gate(fns@, 0) == fns_gate(fns@, i as nat),
        decreases n - i,
    {
        match validate_interp_fn(&fns[i]) {
            Err(t) => {
                return Err(t);
            },
            Ok(_) => {},
        }
        i = i + 1;
    }
    Ok(())
}

fn validate_class(class: &ClassDecl) -> (r: Result<(), String>)
    ensures
        gate(r, class_gate(*class)),
{
    let n: usize = class.fields.len();
    let mut i: usize = 0;
    while i < n
        invariant
            n == class.fields@.len(),
            i <= n,
            class_fields_gate(*class, 0) == class_fields_gate(*class, i as nat),
        decreases n - i,
    {
        let f = &class.fields[i];
        match validate_interp_class_field_ty(
            &f.ty,
            cat5("field `", class.name.as_str(), ".", f.name.as_str(), "`").as_str(),
        ) {
            Err(t) => {
                return Err(t);
            },
            Ok(_) => {},
        }
        i = i + 1;
    }
    match validate_fns(&class.inits) {
        Err(t) => {
            return Err(t);
        },
        Ok(_) => {},
    }
    let n: usize = class.methods.len();
    let mut i: usize = 0;
    while i < n
        invariant
            n == class.methods@.len(),
            i <= n,
            class_fields_gate(*class, 0) is Ok,
            fns_gate(class.inits@, 0) is Ok,
            methods_gate(*class, 0) == methods_gate(*class, i as nat),
        decreases n - i,
    {
        match validate_interp_fn(&class.methods[i].f) {
            Err(t) => {
                return Err(t);
            },
            Ok(_) => {},
        }
        i = i + 1;
    }
    match &class.deinit {
        Some(body) => {
            let mut locals: InterpLocals = Vec::new();
            assert(views(locals@) =~= Seq::<BindV<InterpLocal>>::empty());
            validate_interp_stmts(body.as_slice(), &mut locals)
        },
        None => Ok(()),
    }
}

fn validate_record(record: &RecordDecl) -> (r: Result<(), String>)
    ensures
        gate(r, record_gate(*record, 0)),
{
    let n: usize = record.fields.len();
    let mut i: usize = 0;
    while i < n
        invariant
            n == record.fields@.len(),
            i <= n,
            record_gate(*record, 0) == record_gate(*record, i as nat),
        decreases n - i,
    {
        let f = &record.fields[i];
        match validate_interp_field_ty(
            &f.ty,
            cat5("field `", record.name.as_str(), ".", f.name.as_str(), "`").as_str(),
        ) {
            Err(t) => {
                return Err(t);
            },
            Ok(_) => {},
        }
        i = i + 1;
    }
    Ok(())
}

/// Whether the executable part of a program may run.
pub fn validate_interp_program(program: &Program) -> (r: Result<(), String>)
    ensures
        gate(r, program_gate(*program)),
{
    match validate_fns(&program.fns) {
        Err(t) => {
            return Err(t);
        },
        Ok(_) => {},
    }
    let n: usize = program.classes.len();
    let mut i: usize = 0;
    while i < n
        invariant
            n == program.classes@.len(),
            i <= n,
            fns_gate(program.fns@, 0) is Ok,
            classes_gate(program.classes@, 0) == classes_gate(program.classes@, i as nat),
        decreases n - i,
    {
        match validate_class(&program.classes[i]) {
            Err(t) => {
                return Err(t);
            },
            Ok(_) => {},
        }
        i = i + 1;
    }
    let n: usize = program.records.len();
    let mut i: usize = 0;
    while i < n
        invariant
            n == program.records@.len(),
            i <= n,
            fns_gate(program.fns@, 0) is Ok,
            classes_gate(program.classes@, 0) is Ok,
            records_gate(program.records@, 0) == records_gate(program.records@, i as nat),
        decreases n - i,
    {
        match validate_record(&program.records[i]) {
            Err(t) => {
                return Err(t);
            },
            Ok(_) => {},
        }
        i = i + 1;
    }
    Ok(())
}

} // verus!
