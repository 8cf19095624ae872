//! Identities of the operations that can trap.
use vstd::prelude::*;

use crate::ast::{
    int_ty_tag, ty_name, BinOp, Expr, ExprKind, IntTy, Mutability, ResKind, Ty, UnOp,
};
use crate::drops::{agrees, plan_err, ErrV, ExitRoute, PlanError, RouteV};
use crate::outline::ScopeId;
use crate::repr::{group_views, views, Repr};
use crate::span::Span;
use crate::text::{
    cat2, cat3, cat4, cat5, cat7, nat_text, owned, quote, quoted, usize_decimal,
};

verus! {

broadcast use group_views;

/// The two ways in which an owned-array allocation fails: a length above the language's limit,
/// and an allocator that returns nothing.
#[derive(Clone, Copy, Debug, PartialEq, Eq, Structural)]
pub enum AllocationTrapPhase {
    Capacity,
    Allocator,
}

/// What a trapping operation is. Names, checked types and clause texts take part wherever changing
/// them would change the operation.
#[derive(Debug, PartialEq, Eq)]
pub enum TrapSiteKind {
    AddOverflow(IntTy),
    SubOverflow(IntTy),
    MulOverflow(IntTy),
    NegOverflow(IntTy),
    DivByZero(IntTy),
    RemByZero(IntTy),
    DivOverflow(IntTy),
    NarrowRange { source: IntTy, target: IntTy },
    OptionValue(Ty),
    OptionTake { option: String, payload: Ty },
    ArrayAllocation { element: Ty, phase: AllocationTrapPhase },
    ArrayIndex { array: String, element: Ty },
    SelfFieldIndex { field: String, element: Ty },
    ClassFieldIndex { object: String, field: String, element: Ty },
    FunctionCall { callee: String, result: Ty },
    ConstructorCall { class: String, initializer: String, result: Ty },
    MethodCall { receiver: String, method: String, result: Ty },
    RawOperation(String),
    ResourceOperation(String),
    DeviceOperation(String),
    ArrayStore { array: String, element: Ty },
    SelfFieldStore { field: String, element: Ty },
    SystemDealloc,
    ExposureClose { array: String, mutable: bool },
    InlineAssert(String),
    LoopInvariant(String),
    LoopVariantNegative(String),
    LoopVariantNonDecrease(String),
}

pub ghost enum TrapKindV {
    AddOverflow(IntTy),
    SubOverflow(IntTy),
    MulOverflow(IntTy),
    NegOverflow(IntTy),
    DivByZero(IntTy),
    RemByZero(IntTy),
    DivOverflow(IntTy),
    NarrowRange { source: IntTy, target: IntTy },
    OptionValue(Ty),
    OptionTake { option: Seq<char>, payload: Ty },
    ArrayAllocation { element: Ty, phase: AllocationTrapPhase },
    ArrayIndex { array: Seq<char>, element: Ty },
    SelfFieldIndex { field: Seq<char>, element: Ty },
    ClassFieldIndex { object: Seq<char>, field: Seq<char>, element: Ty },
    FunctionCall { callee: Seq<char>, result: Ty },
    ConstructorCall { class: Seq<char>, initializer: Seq<char>, result: Ty },
    MethodCall { receiver: Seq<char>, method: Seq<char>, result: Ty },
    RawOperation(Seq<char>),
    ResourceOperation(Seq<char>),
    DeviceOperation(Seq<char>),
    ArrayStore { array: Seq<char>, element: Ty },
    SelfFieldStore { field: Seq<char>, element: Ty },
    SystemDealloc,
    ExposureClose { array: Seq<char>, mutable: bool },
    InlineAssert(Seq<char>),
    LoopInvariant(Seq<char>),
    LoopVariantNegative(Seq<char>),
    LoopVariantNonDecrease(Seq<char>),
}

impl View for TrapSiteKind {
    type V = TrapKindV;

    open spec fn view(&self) -> TrapKindV {
        match *self {
            TrapSiteKind::AddOverflow(t) => TrapKindV::AddOverflow(t),
            TrapSiteKind::SubOverflow(t) => TrapKindV::SubOverflow(t),
            TrapSiteKind::MulOverflow(t) => TrapKindV::MulOverflow(t),
            TrapSiteKind::NegOverflow(t) => TrapKindV::NegOverflow(t),
            TrapSiteKind::DivByZero(t) => TrapKindV::DivByZero(t),
            TrapSiteKind::RemByZero(t) => TrapKindV::RemByZero(t),
            TrapSiteKind::DivOverflow(t) => TrapKindV::DivOverflow(t),
            TrapSiteKind::NarrowRange { source, target } => TrapKindV::NarrowRange {
                source,
                target,
            },
            TrapSiteKind::OptionValue(t) => TrapKindV::OptionValue(t),
            TrapSiteKind::OptionTake { option, payload } => TrapKindV::OptionTake {
                option: option@,
                payload,
            },
            TrapSiteKind::ArrayAllocation { element, phase } => TrapKindV::ArrayAllocation {
                element,
                phase,
            },
            TrapSiteKind::ArrayIndex { array, element } => TrapKindV::ArrayIndex {
                array: array@,
                element,
            },
            TrapSiteKind::SelfFieldIndex { field, element } => TrapKindV::SelfFieldIndex {
                field: field@,
                element,
            },
            TrapSiteKind::ClassFieldIndex { object, field, element } => TrapKindV::ClassFieldIndex {
                object: object@,
                field: field@,
                element,
            },
            TrapSiteKind::FunctionCall { callee, result } => TrapKindV::FunctionCall {
                callee: callee@,
                result,
            },
            TrapSiteKind::ConstructorCall { class, initializer, result } =>
                TrapKindV::ConstructorCall { class: class@, initializer: initializer@, result },
            TrapSiteKind::MethodCall { receiver, method, result } => TrapKindV::MethodCall {
                receiver: receiver@,
                method: method@,
                result,
            },
            TrapSiteKind::RawOperation(s) => TrapKindV::RawOperation(s@),
            TrapSiteKind::ResourceOperation(s) => TrapKindV::ResourceOperation(s@),
            TrapSiteKind::DeviceOperation(s) => TrapKindV::DeviceOperation(s@),
            TrapSiteKind::ArrayStore { array, element } => TrapKindV::ArrayStore {
                array: array@,
                element,
            },
            TrapSiteKind::SelfFieldStore { field, element } => TrapKindV::SelfFieldStore {
                field: field@,
                element,
            },
            TrapSiteKind::SystemDealloc => TrapKindV::SystemDealloc,
            TrapSiteKind::ExposureClose { array, mutable } => TrapKindV::ExposureClose {
                array: array@,
                mutable,
            },
            TrapSiteKind::InlineAssert(s) => TrapKindV::InlineAssert(s@),
            TrapSiteKind::LoopInvariant(s) => TrapKindV::LoopInvariant(s@),
            TrapSiteKind::LoopVariantNegative(s) => TrapKindV::LoopVariantNegative(s@),
            TrapSiteKind::LoopVariantNonDecrease(s) => TrapKindV::LoopVariantNonDecrease(s@),
        }
    }
}

impl Repr for TrapSiteKind {
    fn copy(&self) -> (r: Self) {
        match self {
            TrapSiteKind::AddOverflow(t) => TrapSiteKind::AddOverflow(*t),
            TrapSiteKind::SubOverflow(t) => TrapSiteKind::SubOverflow(*t),
            TrapSiteKind::MulOverflow(t) => TrapSiteKind::MulOverflow(*t),
            TrapSiteKind::NegOverflow(t) => TrapSiteKind::NegOverflow(*t),
            TrapSiteKind::DivByZero(t) => TrapSiteKind::DivByZero(*t),
            TrapSiteKind::RemByZero(t) => TrapSiteKind::RemByZero(*t),
            TrapSiteKind::DivOverflow(t) => TrapSiteKind::DivOverflow(*t),
            TrapSiteKind::NarrowRange { source, target } => TrapSiteKind::NarrowRange {
                source: *source,
                target: *target,
            },
            TrapSiteKind::OptionValue(t) => TrapSiteKind::OptionValue(t.clone()),
            TrapSiteKind::OptionTake { option, payload } => TrapSiteKind::OptionTake {
                option: option.clone(),
                payload: payload.clone(),
            },
            TrapSiteKind::ArrayAllocation { element, phase } => TrapSiteKind::ArrayAllocation {
                element: element.clone(),
                phase: *phase,
            },
            TrapSiteKind::ArrayIndex { array, element } => TrapSiteKind::ArrayIndex {
                array: array.clone(),
                element: element.clone(),
            },
            TrapSiteKind::SelfFieldIndex { field, element } => TrapSiteKind::SelfFieldIndex {
                field: field.clone(),
                element: element.clone(),
            },
            TrapSiteKind::ClassFieldIndex { object, field, element } =>
                TrapSiteKind::ClassFieldIndex {
                object: object.clone(),
                field: field.clone(),
                element: element.clone(),
            },
            TrapSiteKind::FunctionCall { callee, result } => TrapSiteKind::FunctionCall {
                callee: callee.clone(),
                result: result.clone(),
            },
            TrapSiteKind::ConstructorCall { class, initializer, result } =>
                TrapSiteKind::ConstructorCall {
                class: class.clone(),
                initializer: initializer.clone(),
                result: result.clone(),
            },
            TrapSiteKind::MethodCall { receiver, method, result } => TrapSiteKind::MethodCall {
                receiver: receiver.clone(),
                method: method.clone(),
                result: result.clone(),
            },
            TrapSiteKind::RawOperation(s) => TrapSiteKind::RawOperation(s.clone()),
            TrapSiteKind::ResourceOperation(s) => TrapSiteKind::ResourceOperation(s.clone()),
            TrapSiteKind::DeviceOperation(s) => TrapSiteKind::DeviceOperation(s.clone()),
            TrapSiteKind::ArrayStore { array, element } => TrapSiteKind::ArrayStore {
                array: array.clone(),
                element: element.clone(),
            },
            TrapSiteKind::SelfFieldStore { field, element } => TrapSiteKind::SelfFieldStore {
                field: field.clone(),
                element: element.clone(),
            },
            TrapSiteKind::SystemDealloc => TrapSiteKind::SystemDealloc,
            TrapSiteKind::ExposureClose { array, mutable } => TrapSiteKind::ExposureClose {
                array: array.clone(),
                mutable: *mutable,
            },
            TrapSiteKind::InlineAssert(s) => TrapSiteKind::InlineAssert(s.clone()),
            TrapSiteKind::LoopInvariant(s) => TrapSiteKind::LoopInvariant(s.clone()),
            TrapSiteKind::LoopVariantNegative(s) => TrapSiteKind::LoopVariantNegative(s.clone()),
            TrapSiteKind::LoopVariantNonDecrease(s) => TrapSiteKind::LoopVariantNonDecrease(
                s.clone(),
            ),
        }
    }

    fn same(&self, other: &Self) -> (r: bool) {
        match (self, other) {
            (TrapSiteKind::AddOverflow(a), TrapSiteKind::AddOverflow(b)) => *a == *b,
            (TrapSiteKind::SubOverflow(a), TrapSiteKind::SubOverflow(b)) => *a == *b,
            (TrapSiteKind::MulOverflow(a), TrapSiteKind::MulOverflow(b)) => *a == *b,
            (TrapSiteKind::NegOverflow(a), TrapSiteKind::NegOverflow(b)) => *a == *b,
            (TrapSiteKind::DivByZero(a), TrapSiteKind::DivByZero(b)) => *a == *b,
            (TrapSiteKind::RemByZero(a), TrapSiteKind::RemByZero(b)) => *a == *b,
            (TrapSiteKind::DivOverflow(a), TrapSiteKind::DivOverflow(b)) => *a == *b,
            (
                TrapSiteKind::NarrowRange { source: a, target: b },
                TrapSiteKind::NarrowRange { source: c, target: d },
            ) => *a == *c && *b == *d,
            (TrapSiteKind::OptionValue(a), TrapSiteKind::OptionValue(b)) => a.same_ty(b),
            (
                TrapSiteKind::OptionTake { option: a, payload: b },
                TrapSiteKind::OptionTake { option: c, payload: d },
            ) => *a == *c && b.same_ty(d),
            (
                TrapSiteKind::ArrayAllocation { element: a, phase: b },
                TrapSiteKind::ArrayAllocation { element: c, phase: d },
            ) => a.same_ty(c) && *b == *d,
            (
                TrapSiteKind::ArrayIndex { array: a, element: b },
                TrapSiteKind::ArrayIndex { array: c, element: d },
            ) => *a == *c && b.same_ty(d),
            (
                TrapSiteKind::SelfFieldIndex { field: a, element: b },
                TrapSiteKind::SelfFieldIndex { field: c, element: d },
            ) => *a == *c && b.same_ty(d),
            (
                TrapSiteKind::ClassFieldIndex { object: a, field: b, element: c },
                TrapSiteKind::ClassFieldIndex { object: d, field: e, element: f },
            ) => *a == *d && *b == *e && c.same_ty(f),
            (
                TrapSiteKind::FunctionCall { callee: a, result: b },
                TrapSiteKind::FunctionCall { callee: c, result: d },
            ) => *a == *c && b.same_ty(d),
            (
                TrapSiteKind::ConstructorCall { class: a, initializer: b, result: c },
                TrapSiteKind::ConstructorCall { class: d, initializer: e, result: f },
            ) => *a == *d && *b == *e && c.same_ty(f),
            (
                TrapSiteKind::MethodCall { receiver: a, method: b, result: c },
                TrapSiteKind::MethodCall { receiver: d, method: e, result: f },
            ) => *a == *d && *b == *e && c.same_ty(f),
            (TrapSiteKind::RawOperation(a), TrapSiteKind::RawOperation(b)) => *a == *b,
            (TrapSiteKind::ResourceOperation(a), TrapSiteKind::ResourceOperation(b)) => *a == *b,
            (TrapSiteKind::DeviceOperation(a), TrapSiteKind::DeviceOperation(b)) => *a == *b,
            (
                TrapSiteKind::ArrayStore { array: a, element: b },
                TrapSiteKind::ArrayStore { array: c, element: d },
            ) => *a == *c && b.same_ty(d),
            (
                TrapSiteKind::SelfFieldStore { field: a, element: b },
                TrapSiteKind::SelfFieldStore { field: c, element: d },
            ) => *a == *c && b.same_ty(d),
            (TrapSiteKind::SystemDealloc, TrapSiteKind::SystemDealloc) => true,
            (
                TrapSiteKind::ExposureClose { array: a, mutable: b },
                TrapSiteKind::ExposureClose { array: c, mutable: d },
            ) => *a == *c && *b == *d,
            (TrapSiteKind::InlineAssert(a), TrapSiteKind::InlineAssert(b)) => *a == *b,
            (TrapSiteKind::LoopInvariant(a), TrapSiteKind::LoopInvariant(b)) => *a == *b,
            (TrapSiteKind::LoopVariantNegative(a), TrapSiteKind::LoopVariantNegative(b)) => *a
                == *b,
            (TrapSiteKind::LoopVariantNonDecrease(a), TrapSiteKind::LoopVariantNonDecrease(b)) => *a
                == *b,
            _ => false,
        }
    }
}

/// Tag of a resource kind in diagnostics about a plan.
pub open spec fn res_kind_tag(kind: ResKind) -> Seq<char> {
    match kind {
        ResKind::RawSpan => "RawSpan"@,
        ResKind::SystemDealloc => "SystemDealloc"@,
        ResKind::PointsToU64 => "PointsToU64"@,
        ResKind::PointsToRecord(n) => "PointsToRecord("@ + nat_text(n as nat) + ")"@,
        ResKind::ResourceMapPointsToU64 => "ResourceMapPointsToU64"@,
        ResKind::ResourceMapPointsToRecord(n) => "ResourceMapPointsToRecord("@ + nat_text(n as nat)
            + ")"@,
        ResKind::World => "World"@,
        ResKind::Uart => "Uart"@,
        ResKind::OpenFile => "OpenFile"@,
    }
}

fn res_kind_tag_text(kind: ResKind) -> (r: String)
    ensures
        r@ == res_kind_tag(kind),
{
    match kind {
        ResKind::RawSpan => owned("RawSpan"),
        ResKind::SystemDealloc => owned("SystemDealloc"),
        ResKind::PointsToU64 => owned("PointsToU64"),
        ResKind::PointsToRecord(n) => cat3("PointsToRecord(", usize_decimal(n).as_str(), ")"),
        ResKind::ResourceMapPointsToU64 => owned("ResourceMapPointsToU64"),
        ResKind::ResourceMapPointsToRecord(n) => cat3(
            "ResourceMapPointsToRecord(",
            usize_decimal(n).as_str(),
            ")",
        ),
        ResKind::World => owned("World"),
        ResKind::Uart => owned("Uart"),
        ResKind::OpenFile => owned("OpenFile"),
    }
}

/// Tag of a type in diagnostics about a plan.
pub open spec fn ty_tag(ty: Ty) -> Seq<char>
    decreases ty,
{
    match ty {
        Ty::Int(i) => "Int("@ + int_ty_tag(i) + ")"@,
        Ty::Bool => "Bool"@,
        Ty::Param(p) => "Param("@ + nat_text(p.0 as nat) + ")"@,
        Ty::Class(n) => "Class("@ + nat_text(n as nat) + ")"@,
        Ty::Record(n) => "Record("@ + nat_text(n as nat) + ")"@,
        Ty::Array(e) => "Array("@ + ty_tag(*e) + ")"@,
        Ty::Slots(e) => "Slots("@ + ty_tag(*e) + ")"@,
        Ty::Option(e) => "Option("@ + ty_tag(*e) + ")"@,
        Ty::OptionRaw(n) => "OptionRaw("@ + nat_text(n as nat) + ")"@,
        Ty::Res(k) => "Res("@ + res_kind_tag(k) + ")"@,
        Ty::Raw(i) => "Raw("@ + int_ty_tag(i) + ")"@,
        Ty::RawRecord(n) => "RawRecord("@ + nat_text(n as nat) + ")"@,
        Ty::Borrow(e, Mutability::Shared) => "Borrow("@ + ty_tag(*e) + ", Shared)"@,
        Ty::Borrow(e, Mutability::Mut) => "Borrow("@ + ty_tag(*e) + ", Mut)"@,
        Ty::Unit => "Unit"@,
    }
}

pub fn ty_tag_text(ty: &Ty) -> (r: String)
    ensures
        r@ == ty_tag(*ty),
    decreases ty,
{
    match ty {
        Ty::Int(i) => cat3("Int(", i.tag().as_str(), ")"),
        Ty::Bool => owned("Bool"),
        Ty::Param(p) => cat3("Param(", usize_decimal(p.0).as_str(), ")"),
        Ty::Class(n) => cat3("Class(", usize_decimal(*n).as_str(), ")"),
        Ty::Record(n) => cat3("Record(", usize_decimal(*n).as_str(), ")"),
        Ty::Array(e) => cat3("Array(", ty_tag_text(e).as_str(), ")"),
        Ty::Slots(e) => cat3("Slots(", ty_tag_text(e).as_str(), ")"),
        Ty::Option(e) => cat3("Option(", ty_tag_text(e).as_str(), ")"),
        Ty::OptionRaw(n) => cat3("OptionRaw(", usize_decimal(*n).as_str(), ")"),
        Ty::Res(k) => cat3("Res(", res_kind_tag_text(*k).as_str(), ")"),
        Ty::Raw(i) => cat3("Raw(", i.tag().as_str(), ")"),
        Ty::RawRecord(n) => cat3("RawRecord(", usize_decimal(*n).as_str(), ")"),
        Ty::Borrow(e, Mutability::Shared) => cat3("Borrow(", ty_tag_text(e).as_str(), ", Shared)"),
        Ty::Borrow(e, Mutability::Mut) => cat3("Borrow(", ty_tag_text(e).as_str(), ", Mut)"),
        Ty::Unit => owned("Unit"),
    }
}

pub open spec fn named_ty_tag(
    head: Seq<char>,
    name: Seq<char>,
    mid: Seq<char>,
    ty: Ty,
) -> Seq<char> {
    head + quoted(name) + mid + ty_tag(ty) + " }"@
}

fn named_ty_text(head: &str, name: &str, mid: &str, ty: &Ty) -> (r: String)
    ensures
        r@ == named_ty_tag(head@, name@, mid@, *ty),
{
    cat5(head, quote(name).as_str(), mid, ty_tag_text(ty).as_str(), " }")
}

impl TrapKindV {
    /// How the identity is written in a diagnostic.
    pub open spec fn text(self) -> Seq<char> {
        match self {
            TrapKindV::AddOverflow(t) => "AddOverflow("@ + int_ty_tag(t) + ")"@,
            TrapKindV::SubOverflow(t) => "SubOverflow("@ + int_ty_tag(t) + ")"@,
            TrapKindV::MulOverflow(t) => "MulOverflow("@ + int_ty_tag(t) + ")"@,
            TrapKindV::NegOverflow(t) => "NegOverflow("@ + int_ty_tag(t) + ")"@,
            TrapKindV::DivByZero(t) => "DivByZero("@ + int_ty_tag(t) + ")"@,
            TrapKindV::RemByZero(t) => "RemByZero("@ + int_ty_tag(t) + ")"@,
            TrapKindV::DivOverflow(t) => "DivOverflow("@ + int_ty_tag(t) + ")"@,
            TrapKindV::NarrowRange { source, target } => "NarrowRange { source: "@ + int_ty_tag(
                source,
            ) + ", target: "@ + int_ty_tag(target) + " }"@,
            TrapKindV::OptionValue(t) => "OptionValue("@ + ty_tag(t) + ")"@,
            TrapKindV::OptionTake { option, payload } => named_ty_tag(
                "OptionTake { option: "@,
                option,
                ", payload: "@,
                payload,
            ),
            TrapKindV::ArrayAllocation { element, phase } => "ArrayAllocation { element: "@
                + ty_tag(element) + (match phase {
                AllocationTrapPhase::Capacity => ", phase: Capacity }"@,
                AllocationTrapPhase::Allocator => ", phase: Allocator }"@,
            }),
            TrapKindV::ArrayIndex { array, element } => named_ty_tag(
                "ArrayIndex { array: "@,
                array,
                ", element: "@,
                element,
            ),
            TrapKindV::SelfFieldIndex { field, element } => named_ty_tag(
                "SelfFieldIndex { field: "@,
                field,
                ", element: "@,
                element,
            ),
            TrapKindV::ClassFieldIndex { object, field, element } =>
                "ClassFieldIndex { object: "@ + quoted(object) + ", field: "@ + quoted(field)
                + ", element: "@ + ty_tag(element) + " }"@,
            TrapKindV::FunctionCall { callee, result } => named_ty_tag(
                "FunctionCall { callee: "@,
                callee,
                ", result: "@,
                result,
            ),
            TrapKindV::ConstructorCall { class, initializer, result } =>
                "ConstructorCall { class: "@ + quoted(class) + ", initializer: "@ + quoted(
                initializer,
            ) + ", result: "@ + ty_tag(result) + " }"@,
            TrapKindV::MethodCall { receiver, method, result } => "MethodCall { receiver: "@
                + quoted(receiver) + ", method: "@ + quoted(method) + ", result: "@ + ty_tag(result)
                + " }"@,
            TrapKindV::RawOperation(s) => "RawOperation("@ + quoted(s) + ")"@,
            TrapKindV::ResourceOperation(s) => "ResourceOperation("@ + quoted(s) + ")"@,
            TrapKindV::DeviceOperation(s) => "DeviceOperation("@ + quoted(s) + ")"@,
            TrapKindV::ArrayStore { array, element } => named_ty_tag(
                "ArrayStore { array: "@,
                array,
                ", element: "@,
                element,
            ),
            TrapKindV::SelfFieldStore { field, element } => named_ty_tag(
                "SelfFieldStore { field: "@,
                field,
                ", element: "@,
                element,
            ),
            TrapKindV::SystemDealloc => "SystemDealloc"@,
            TrapKindV::ExposureClose { array, mutable } => "ExposureClose { array: "@
                + quoted(array) + (if mutable {
                ", mutable: true }"@
            } else {
                ", mutable: false }"@
            }),
            TrapKindV::InlineAssert(s) => "InlineAssert("@ + quoted(s) + ")"@,
            TrapKindV::LoopInvariant(s) => "LoopInvariant("@ + quoted(s) + ")"@,
            TrapKindV::LoopVariantNegative(s) => "LoopVariantNegative("@ + quoted(s) + ")"@,
            TrapKindV::LoopVariantNonDecrease(s) => "LoopVariantNonDecrease("@ + quoted(s) + ")"@,
        }
    }
}

impl TrapSiteKind {
    pub fn describe(&self) -> (r: String)
        ensures
            r@ == self@.text(),
    {
        match self {
            TrapSiteKind::AddOverflow(t) => cat3("AddOverflow(", t.tag().as_str(), ")"),
            TrapSiteKind::SubOverflow(t) => cat3("SubOverflow(", t.tag().as_str(), ")"),
            TrapSiteKind::MulOverflow(t) => cat3("MulOverflow(", t.tag().as_str(), ")"),
            TrapSiteKind::NegOverflow(t) => cat3("NegOverflow(", t.tag().as_str(), ")"),
            TrapSiteKind::DivByZero(t) => cat3("DivByZero(", t.tag().as_str(), ")"),
            TrapSiteKind::RemByZero(t) => cat3("RemByZero(", t.tag().as_str(), ")"),
            TrapSiteKind::DivOverflow(t) => cat3("DivOverflow(", t.tag().as_str(), ")"),
            TrapSiteKind::NarrowRange { source, target } => cat5(
                "NarrowRange { source: ",
                source.tag().as_str(),
                ", target: ",
                target.tag().as_str(),
                " }",
            ),
            TrapSiteKind::OptionValue(t) => cat3("OptionValue(", ty_tag_text(t).as_str(), ")"),
            TrapSiteKind::OptionTake { option, payload } => named_ty_text(
                "OptionTake { option: ",
                option.as_str(),
                ", payload: ",
                payload,
            ),
            TrapSiteKind::ArrayAllocation { element, phase } => cat3(
                "ArrayAllocation { element: ",
                ty_tag_text(element).as_str(),
                match phase {
                    AllocationTrapPhase::Capacity => ", phase: Capacity }",
                    AllocationTrapPhase::Allocator => ", phase: Allocator }",
                },
            ),
            TrapSiteKind::ArrayIndex { array, element } => named_ty_text(
                "ArrayIndex { array: ",
                array.as_str(),
                ", element: ",
                element,
            ),
            TrapSiteKind::SelfFieldIndex { field, element } => named_ty_text(
                "SelfFieldIndex { field: ",
                field.as_str(),
                ", element: ",
                element,
            ),
            TrapSiteKind::ClassFieldIndex { object, field, element } => cat7(
                "ClassFieldIndex { object: ",
                quote(object.as_str()).as_str(),
                ", field: ",
                quote(field.as_str()).as_str(),
                ", element: ",
                ty_tag_text(element).as_str(),
                " }",
            ),
            TrapSiteKind::FunctionCall { callee, result } => named_ty_text(
                "FunctionCall { callee: ",
                callee.as_str(),
                ", result: ",
                result,
            ),
            TrapSiteKind::ConstructorCall { class, initializer, result } => cat7(
                "ConstructorCall { class: ",
                quote(class.as_str()).as_str(),
                ", initializer: ",
                quote(initializer.as_str()).as_str(),
                ", result: ",
                ty_tag_text(result).as_str(),
                " }",
            ),
            TrapSiteKind::MethodCall { receiver, method, result } => cat7(
                "MethodCall { receiver: ",
                quote(receiver.as_str()).as_str(),
                ", method: ",
                quote(method.as_str()).as_str(),
                ", result: ",
                ty_tag_text(result).as_str(),
                " }",
            ),
            TrapSiteKind::RawOperation(s) => cat3(
                "RawOperation(",
                quote(s.as_str()).as_str(),
                ")",
            ),
            TrapSiteKind::ResourceOperation(s) => cat3(
                "ResourceOperation(",
                quote(s.as_str()).as_str(),
                ")",
            ),
            TrapSiteKind::DeviceOperation(s) => cat3(
                "DeviceOperation(",
                quote(s.as_str()).as_str(),
                ")",
            ),
            TrapSiteKind::ArrayStore { array, element } => named_ty_text(
                "ArrayStore { array: ",
                array.as_str(),
                ", element: ",
                element,
            ),
            TrapSiteKind::SelfFieldStore { field, element } => named_ty_text(
                "SelfFieldStore { field: ",
                field.as_str(),
                ", element: ",
                element,
            ),
            TrapSiteKind::SystemDealloc => owned("SystemDealloc"),
            TrapSiteKind::ExposureClose { array, mutable } => cat3(
                "ExposureClose { array: ",
                quote(array.as_str()).as_str(),
                if *mutable {
                    ", mutable: true }"
                } else {
                    ", mutable: false }"
                },
            ),
            TrapSiteKind::InlineAssert(s) => cat3(
                "InlineAssert(",
                quote(s.as_str()).as_str(),
                ")",
            ),
            TrapSiteKind::LoopInvariant(s) => cat3(
                "LoopInvariant(",
                quote(s.as_str()).as_str(),
                ")",
            ),
            TrapSiteKind::LoopVariantNegative(s) => cat3(
                "LoopVariantNegative(",
                quote(s.as_str()).as_str(),
                ")",
            ),
            TrapSiteKind::LoopVariantNonDecrease(s) => cat3(
                "LoopVariantNonDecrease(",
                quote(s.as_str()).as_str(),
                ")",
            ),
        }
    }
}

/// Where a trap can happen, without its scope.
#[derive(Debug)]
pub struct DirectTrap {
    pub span: Span,
    pub kind: TrapSiteKind,
}

pub ghost struct DirectV {
    pub span: Span,
    pub kind: TrapKindV,
}

impl View for DirectTrap {
    type V = DirectV;

    open spec fn view(&self) -> DirectV {
        DirectV { span: self.span, kind: self.kind@ }
    }
}

/// Identity of one trapping operation in one body.
#[derive(Debug, PartialEq, Eq)]
pub struct TrapSiteKey {
    pub scope: ScopeId,
    pub span: Span,
    pub kind: TrapSiteKind,
}

pub ghost struct TrapKeyV {
    pub scope: ScopeId,
    pub span: Span,
    pub kind: TrapKindV,
}

impl View for TrapSiteKey {
    type V = TrapKeyV;

    open spec fn view(&self) -> TrapKeyV {
        TrapKeyV { scope: self.scope, span: self.span, kind: self.kind@ }
    }
}

impl Repr for TrapSiteKey {
    fn copy(&self) -> (r: Self) {
        TrapSiteKey { scope: self.scope, span: self.span, kind: self.kind.copy() }
    }

    fn same(&self, other: &Self) -> (r: bool) {
        self.scope == other.scope && self.span == other.span && self.kind.same(&other.kind)
    }
}

/// One trapping operation and the route that its trap takes.
#[derive(Debug, PartialEq, Eq)]
pub struct TrapSite {
    pub key: TrapSiteKey,
    pub route: ExitRoute,
}

pub ghost struct TrapSiteV {
    pub key: TrapKeyV,
    pub route: RouteV,
}

impl View for TrapSite {
    type V = TrapSiteV;

    open spec fn view(&self) -> TrapSiteV {
        TrapSiteV { key: self.key@, route: self.route@ }
    }
}

impl Repr for TrapSite {
    fn copy(&self) -> (r: Self) {
        TrapSite { key: self.key.copy(), route: self.route.copy() }
    }

    fn same(&self, other: &Self) -> (r: bool) {
        self.key.same(&other.key) && self.route.same(&other.route)
    }
}

impl TrapSite {
    pub fn scope(&self) -> (r: ScopeId)
        ensures
            r == self@.key.scope,
    {
        self.key.scope
    }

    pub fn span(&self) -> (r: Span)
        ensures
            r == self@.key.span,
    {
        self.key.span
    }

    pub fn route(&self) -> (r: &ExitRoute)
        ensures
            r@ == self@.route,
    {
        &self.route
    }
}

/// The checked type of an expression, or the refusal of one that has none.
pub open spec fn checked_ty(e: Expr, role: Seq<char>) -> Result<Ty, ErrV> {
    match e.ty {
        Some(ty) => Ok(ty),
        None => Err(plan_err(e.span, role + " has no checked type for trap-site planning"@)),
    }
}

pub fn checked_expression_ty(expression: &Expr, role: &str) -> (r: Result<Ty, PlanError>)
    ensures
        agrees(r, checked_ty(*expression, role@)),
{
    match &expression.ty {
        Some(ty) => Ok(ty.clone()),
        None => Err(
            PlanError {
                span: expression.span,
                message: cat2(role, " has no checked type for trap-site planning"),
            },
        ),
    }
}

/// The concrete integer type of an expression, or the refusal of any other.
pub open spec fn checked_int(e: Expr, role: Seq<char>) -> Result<IntTy, ErrV> {
    match checked_ty(e, role) {
        Err(err) => Err(err),
        Ok(ty) => if ty is Int && !(ty->Int_0 is TParam) {
            Ok(ty->Int_0)
        } else {
            Err(
                plan_err(
                    e.span,
                    role + " has checked type `"@ + ty_name(ty) + "`, not a concrete integer"@,
                ),
            )
        },
    }
}

/// As [`checked_int`], in the shape of a computed result.
pub fn checked_integer_ty(expression: &Expr, role: &str) -> (r: Result<IntTy, PlanError>)
    ensures
        r matches Ok(t) ==> checked_int(*expression, role@) == Ok::<IntTy, ErrV>(t),
        r matches Err(e) ==> checked_int(*expression, role@) == Err::<IntTy, ErrV>(e@),
{
    match checked_expression_ty(expression, role) {
        Err(e) => Err(e),
        Ok(ty) => {
            if let Ty::Int(integer) = &ty {
                if !matches!(integer, IntTy::TParam(_)) {
                    return Ok(*integer);
                }
            }
            Err(
                PlanError {
                    span: expression.span,
                    message: cat4(
                        role,
                        " has checked type `",
                        ty.name().as_str(),
                        "`, not a concrete integer",
                    ),
                },
            )
        },
    }
}

/// The traps of integer arithmetic at type `t`. Signed division also overflows.
pub open spec fn arithmetic_traps(op: BinOp, t: IntTy) -> Seq<TrapKindV> {
    match op {
        BinOp::Add => seq![TrapKindV::AddOverflow(t)],
        BinOp::Sub => seq![TrapKindV::SubOverflow(t)],
        BinOp::Mul => seq![TrapKindV::MulOverflow(t)],
        BinOp::Div => if t.is_signed() {
            seq![TrapKindV::DivByZero(t), TrapKindV::DivOverflow(t)]
        } else {
            seq![TrapKindV::DivByZero(t)]
        },
        BinOp::Rem => seq![TrapKindV::RemByZero(t)],
        _ => Seq::empty(),
    }
}

/// Whether the operator is integer arithmetic.
pub open spec fn arithmetic(op: BinOp) -> bool {
    op is Add || op is Sub || op is Mul || op is Div || op is Rem
}

/// What can trap in an expression itself, its operands aside.
///
/// Resource splitting and joining and the allocator's transformations are transitions of proof
/// state, a trait call survives in templates only, and an element outside its array's payload
/// needs a forged type: none of these is a trap of a program.
pub open spec fn expr_trap_kinds(e: Expr) -> Result<Seq<TrapKindV>, ErrV> {
    match e.kind {
        ExprKind::SlotOp { op, .. } => Err(
            plan_err(
                e.span,
                "internal.control.slots_unsupported: `"@ + op.spec_name()
                    + "` has no retained trap-site plan"@,
            ),
        ),
        ExprKind::Unary { op, .. } => match op {
            UnOp::Neg => match checked_int(e, "negation"@) {
                Err(err) => Err(err),
                Ok(t) => Ok(seq![TrapKindV::NegOverflow(t)]),
            },
            UnOp::Not => Ok(Seq::empty()),
        },
        ExprKind::Binary { op, .. } => if arithmetic(op) {
            match checked_int(e, "arithmetic expression"@) {
                Err(err) => Err(err),
                Ok(t) => Ok(arithmetic_traps(op, t)),
            }
        } else {
            Ok(Seq::empty())
        },
        ExprKind::Narrow { target, arg } => match checked_int(*arg, "narrow operand"@) {
            Err(err) => Err(err),
            Ok(source) => Ok(seq![TrapKindV::NarrowRange { source, target }]),
        },
        ExprKind::OptValue { .. } => match checked_ty(e, "option payload"@) {
            Err(err) => Err(err),
            Ok(t) => Ok(seq![TrapKindV::OptionValue(t)]),
        },
        ExprKind::OptTake { option, .. } => match checked_ty(e, "affine option take"@) {
            Err(err) => Err(err),
            Ok(payload) => Ok(seq![TrapKindV::OptionTake { option: option@, payload }]),
        },
        ExprKind::ArrayLit(elements) => if elements@.len() == 0 {
            Ok(Seq::empty())
        } else {
            match checked_ty(e, "array literal"@) {
                Err(err) => Err(err),
                Ok(t) => match t.spec_as_array() {
                    None => Err(
                        plan_err(e.span, "array literal has no checked array element type"@),
                    ),
                    Some((element, _)) => Ok(
                        seq![
                            TrapKindV::ArrayAllocation {
                                element,
                                phase: AllocationTrapPhase::Allocator,
                            },
                        ],
                    ),
                },
            }
        },
        ExprKind::AllocArray { elem, .. } => Ok(
            seq![
                TrapKindV::ArrayAllocation { element: elem, phase: AllocationTrapPhase::Capacity },
                TrapKindV::ArrayAllocation { element: elem, phase: AllocationTrapPhase::Allocator },
            ],
        ),
        ExprKind::Index { array, .. } => match checked_ty(e, "array index result"@) {
            Err(err) => Err(err),
            Ok(element) => Ok(seq![TrapKindV::ArrayIndex { array: array@, element }]),
        },
        ExprKind::SelfFieldIndex { field, .. } => match checked_ty(
            e,
            "self array-field index result"@,
        ) {
            Err(err) => Err(err),
            Ok(element) => Ok(seq![TrapKindV::SelfFieldIndex { field: field@, element }]),
        },
        ExprKind::ClassFieldIndex { obj, field, .. } => match checked_ty(
            e,
            "class array-field index result"@,
        ) {
            Err(err) => Err(err),
            Ok(element) => Ok(
                seq![TrapKindV::ClassFieldIndex { object: obj@, field: field@, element }],
            ),
        },
        ExprKind::Call { callee, .. } => match checked_ty(e, "function call"@) {
            Err(err) => Err(err),
            Ok(result) => Ok(seq![TrapKindV::FunctionCall { callee: callee@, result }]),
        },
        ExprKind::CtorCall { class, init, .. } => match checked_ty(e, "constructor call"@) {
            Err(err) => Err(err),
            Ok(result) => Ok(
                seq![
                    TrapKindV::ConstructorCall { class: class@, initializer: init@, result },
                ],
            ),
        },
        ExprKind::MethodCall { recv, method, .. } => match checked_ty(e, "method call"@) {
            Err(err) => Err(err),
            Ok(result) => Ok(
                seq![TrapKindV::MethodCall { receiver: recv@, method: method@, result }],
            ),
        },
        ExprKind::RawOp { op, .. } => if op.memory() {
            Ok(seq![TrapKindV::RawOperation(op.spec_label())])
        } else {
            Ok(Seq::empty())
        },
        ExprKind::ResOp { op, .. } => if op.traps() {
            Ok(seq![TrapKindV::ResourceOperation(op.spec_label())])
        } else {
            Ok(Seq::empty())
        },
        ExprKind::DeviceOp { op, .. } => Ok(seq![TrapKindV::DeviceOperation(op.spec_label())]),
        _ => Ok(Seq::empty()),
    }
}

/// Trap kinds placed at one source range.
pub open spec fn at_span(span: Span, kinds: Seq<TrapKindV>) -> Seq<DirectV> {
    Seq::new(kinds.len(), |i: int| DirectV { span, kind: kinds[i] })
}

/// What can trap in an expression itself, at the expression's range.
pub open spec fn expr_traps(e: Expr) -> Result<Seq<DirectV>, ErrV> {
    match expr_trap_kinds(e) {
        Err(err) => Err(err),
        Ok(kinds) => Ok(at_span(e.span, kinds)),
    }
}

/// A computed list stands for a stated one.
pub open spec fn agrees_seq<T: View>(
    r: Result<Vec<T>, PlanError>,
    s: Result<Seq<T::V>, ErrV>,
) -> bool {
    match (r, s) {
        (Ok(x), Ok(v)) => views(x@) == v,
        (Err(e), Err(f)) => e@ == f,
        _ => false,
    }
}

fn one(kind: TrapSiteKind) -> (r: Result<Vec<TrapSiteKind>, PlanError>)
    ensures
        agrees_seq(r, Ok(seq![kind@])),
{
    let mut out: Vec<TrapSiteKind> = Vec::new();
    out.push(kind);
    assert(views(out@) =~= seq![kind@]);
    Ok(out)
}

fn none() -> (r: Result<Vec<TrapSiteKind>, PlanError>)
    ensures
        agrees_seq(r, Ok(Seq::empty())),
{
    Ok(Vec::new())
}

fn two(a: TrapSiteKind, b: TrapSiteKind) -> (r: Result<Vec<TrapSiteKind>, PlanError>)
    ensures
        agrees_seq(r, Ok(seq![a@, b@])),
{
    let mut out: Vec<TrapSiteKind> = Vec::new();
    out.push(a);
    out.push(b);
    assert(views(out@) =~= seq![a@, b@]);
    Ok(out)
}

fn arithmetic_trap_kinds(op: BinOp, t: IntTy) -> (r: Result<Vec<TrapSiteKind>, PlanError>)
    ensures
        agrees_seq(r, Ok(arithmetic_traps(op, t))),
{
    match op {
        BinOp::Add => one(TrapSiteKind::AddOverflow(t)),
        BinOp::Sub => one(TrapSiteKind::SubOverflow(t)),
        BinOp::Mul => one(TrapSiteKind::MulOverflow(t)),
        BinOp::Div => if t.signed() {
            two(TrapSiteKind::DivByZero(t), TrapSiteKind::DivOverflow(t))
        } else {
            one(TrapSiteKind::DivByZero(t))
        },
        BinOp::Rem => one(TrapSiteKind::RemByZero(t)),
        _ => none(),
    }
}

fn is_arithmetic(op: BinOp) -> (r: bool)
    ensures
        r == arithmetic(op),
{
    matches!(op, BinOp::Add | BinOp::Sub | BinOp::Mul | BinOp::Div | BinOp::Rem)
}

fn direct_trap_kinds(e: &Expr) -> (r: Result<Vec<TrapSiteKind>, PlanError>)
    ensures
        agrees_seq(r, expr_trap_kinds(*e)),
{
    match &e.kind {
        ExprKind::SlotOp { op, .. } => Err(
            PlanError {
                span: e.span,
                message: cat3(
                    "internal.control.slots_unsupported: `",
                    op.name().as_str(),
                    "` has no retained trap-site plan",
                ),
            },
        ),
        ExprKind::Unary { op, .. } => match op {
            UnOp::Neg => match checked_integer_ty(e, "negation") {
                Err(err) => Err(err),
                Ok(t) => one(TrapSiteKind::NegOverflow(t)),
            },
            UnOp::Not => none(),
        },
        ExprKind::Binary { op, .. } => if is_arithmetic(*op) {
            match checked_integer_ty(e, "arithmetic expression") {
                Err(err) => Err(err),
                Ok(t) => arithmetic_trap_kinds(*op, t),
            }
        } else {
            none()
        },
        ExprKind::Narrow { target, arg } => match checked_integer_ty(arg, "narrow operand") {
            Err(err) => Err(err),
            Ok(source) => one(TrapSiteKind::NarrowRange { source, target: *target }),
        },
        ExprKind::OptValue { .. } => match checked_expression_ty(e, "option payload") {
            Err(err) => Err(err),
            Ok(t) => one(TrapSiteKind::OptionValue(t)),
        },
        ExprKind::OptTake { option, .. } => match checked_expression_ty(e, "affine option take") {
            Err(err) => Err(err),
            Ok(payload) => one(TrapSiteKind::OptionTake { option: option.clone(), payload }),
        },
        ExprKind::ArrayLit(elements) => if elements.len() == 0 {
            none()
        } else {
            match checked_expression_ty(e, "array literal") {
                Err(err) => Err(err),
                Ok(t) => match t.as_array() {
                    None => Err(
                        PlanError::new(e.span, "array literal has no checked array element type"),
                    ),
                    Some((element, _)) => one(
                        TrapSiteKind::ArrayAllocation {
                            element,
                            phase: AllocationTrapPhase::Allocator,
                        },
                    ),
                },
            }
        },
        ExprKind::AllocArray { elem, .. } => two(
            TrapSiteKind::ArrayAllocation {
                element: elem.clone(),
                phase: AllocationTrapPhase::Capacity,
            },
            TrapSiteKind::ArrayAllocation {
                element: elem.clone(),
                phase: AllocationTrapPhase::Allocator,
            },
        ),
        ExprKind::Index { array, .. } => match checked_expression_ty(e, "array index result") {
            Err(err) => Err(err),
            Ok(element) => one(TrapSiteKind::ArrayIndex { array: array.clone(), element }),
        },
        ExprKind::SelfFieldIndex { field, .. } => match checked_expression_ty(
            e,
            "self array-field index result",
        ) {
            Err(err) => Err(err),
            Ok(element) => one(TrapSiteKind::SelfFieldIndex { field: field.clone(), element }),
        },
        ExprKind::ClassFieldIndex { obj, field, .. } => match checked_expression_ty(
            e,
            "class array-field index result",
        ) {
            Err(err) => Err(err),
            Ok(element) => one(
                TrapSiteKind::ClassFieldIndex {
                    object: obj.clone(),
                    field: field.clone(),
                    element,
                },
            ),
        },
        ExprKind::Call { callee, .. } => match checked_expression_ty(e, "function call") {
            Err(err) => Err(err),
            Ok(result) => one(TrapSiteKind::FunctionCall { callee: callee.clone(), result }),
        },
        ExprKind::CtorCall { class, init, .. } => match checked_expression_ty(
            e,
            "constructor call",
        ) {
            Err(err) => Err(err),
            Ok(result) => one(
                TrapSiteKind::ConstructorCall {
                    class: class.clone(),
                    initializer: init.clone(),
                    result,
                },
            ),
        },
        ExprKind::MethodCall { recv, method, .. } => match checked_expression_ty(
            e,
            "method call",
        ) {
            Err(err) => Err(err),
            Ok(result) => one(
                TrapSiteKind::MethodCall {
                    receiver: recv.clone(),
                    method: method.clone(),
                    result,
                },
            ),
        },
        ExprKind::RawOp { op, .. } => if op.touches_memory() {
            one(TrapSiteKind::RawOperation(op.label()))
        } else {
            none()
        },
        ExprKind::ResOp { op, .. } => if op.may_trap() {
            one(TrapSiteKind::ResourceOperation(op.label()))
        } else {
            none()
        },
        ExprKind::DeviceOp { op, .. } => one(TrapSiteKind::DeviceOperation(op.label())),
        _ => none(),
    }
}

/// What can trap in an expression itself. Plan sealing, reconciliation and execution all ask here.
pub fn direct_expression_traps(expression: &Expr) -> (r: Result<Vec<DirectTrap>, PlanError>)
    ensures
        agrees_seq(r, expr_traps(*expression)),
{
    let kinds = match direct_trap_kinds(expression) {
        Err(e) => {
            return Err(e);
        },
        Ok(kinds) => kinds,
    };
    let mut out: Vec<DirectTrap> = Vec::new();
    let n: usize = kinds.len();
    let mut i: usize = 0;
    while i < n
        invariant
            n == kinds@.len(),
            i <= n,
            views(out@) == at_span(expression.span, views(kinds@)).take(i as int),
        decreases n - i,
    {
        out.push(DirectTrap { span: expression.span, kind: kinds[i].copy() });
        assert(at_span(expression.span, views(kinds@)).take(i + 1) =~= at_span(
            expression.span,
            views(kinds@),
        ).take(i as int).push(DirectV { span: expression.span, kind: kinds@[i as int]@ }));
        i = i + 1;
    }
    assert(at_span(expression.span, views(kinds@)).take(n as int) =~= at_span(
        expression.span,
        views(kinds@),
    ));
    Ok(out)
}

} // verus!
