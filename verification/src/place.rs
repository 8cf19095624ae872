//! Runtime places, callable identities and the keys of ownership transfers.
use vstd::prelude::*;

use crate::ast::{Expr, ExprKind};
use crate::repr::{copy_opt, opt_view, same_opt, Repr};
use crate::span::Span;
use crate::text::{cat3, cat5, owned};

verus! {

/// A named storage place: a local, or one field of a named object.
#[derive(Debug, PartialEq, Eq)]
pub struct Place {
    pub root: String,
    pub field: Option<String>,
}

pub ghost struct PlaceV {
    pub root: Seq<char>,
    pub field: Option<Seq<char>>,
}

impl View for Place {
    type V = PlaceV;

    open spec fn view(&self) -> PlaceV {
        PlaceV { root: self.root@, field: opt_view(self.field) }
    }
}

/// The place of a local.
pub open spec fn local_place(name: Seq<char>) -> PlaceV {
    PlaceV { root: name, field: None }
}

/// The place of one field of a named object.
pub open spec fn field_place(root: Seq<char>, field: Seq<char>) -> PlaceV {
    PlaceV { root, field: Some(field) }
}

impl PlaceV {
    /// How the place is written in a diagnostic.
    pub open spec fn text(self) -> Seq<char> {
        match self.field {
            Some(field) => self.root + "."@ + field,
            None => self.root,
        }
    }
}

/// The place that a value expression names, if it names one.
pub open spec fn named_place(e: Expr) -> Option<PlaceV> {
    match e.kind {
        ExprKind::Var(name) => Some(local_place(name@)),
        ExprKind::SelfField { field } => Some(field_place("self"@, field@)),
        ExprKind::ClassField { obj, field, .. } => Some(field_place(obj@, field@)),
        _ => None,
    }
}

impl Place {
    pub fn local(name: &str) -> (r: Place)
        ensures
            r@ == local_place(name@),
    {
        Place { root: owned(name), field: None }
    }

    pub fn field(root: &str, field: &str) -> (r: Place)
        ensures
            r@ == field_place(root@, field@),
    {
        Place { root: owned(root), field: Some(owned(field)) }
    }

    pub fn is_root(&self) -> (r: bool)
        ensures
            r == (self@.field is None),
    {
        self.field.is_none()
    }

    pub fn root(&self) -> (r: &str)
        ensures
            r@ == self@.root,
    {
        self.root.as_str()
    }

    pub fn render(&self) -> (r: String)
        ensures
            r@ == self@.text(),
    {
        match &self.field {
            Some(field) => cat3(self.root.as_str(), ".", field.as_str()),
            None => self.root.clone(),
        }
    }

    pub fn from_value_expr(e: &Expr) -> (r: Option<Place>)
        ensures
            opt_view(r) == named_place(*e),
    {
        match &e.kind {
            ExprKind::Var(name) => Some(Place::local(name.as_str())),
            ExprKind::SelfField { field } => Some(Place::field("self", field.as_str())),
            ExprKind::ClassField { obj, field, .. } => Some(
                Place::field(obj.as_str(), field.as_str()),
            ),
            _ => None,
        }
    }
}

impl Repr for Place {
    fn copy(&self) -> (r: Self) {
        Place { root: self.root.clone(), field: copy_opt(&self.field) }
    }

    fn same(&self, other: &Self) -> (r: bool) {
        self.root == other.root && same_opt(&self.field, &other.field)
    }
}

/// Identity of one callable body. Members of one spelling but different flavour stay distinct.
#[derive(Debug, PartialEq, Eq)]
pub enum CallOwner {
    Function(String),
    Constructor { class: String, init: String },
    Method { class: String, method: String },
    Deinitializer { class: String },
}

pub ghost enum OwnerV {
    Function(Seq<char>),
    Constructor { class: Seq<char>, init: Seq<char> },
    Method { class: Seq<char>, method: Seq<char> },
    Deinitializer { class: Seq<char> },
}

impl View for CallOwner {
    type V = OwnerV;

    open spec fn view(&self) -> OwnerV {
        match *self {
            CallOwner::Function(name) => OwnerV::Function(name@),
            CallOwner::Constructor { class, init } => OwnerV::Constructor {
                class: class@,
                init: init@,
            },
            CallOwner::Method { class, method } => OwnerV::Method {
                class: class@,
                method: method@,
            },
            CallOwner::Deinitializer { class } => OwnerV::Deinitializer { class: class@ },
        }
    }
}

impl OwnerV {
    /// How the callable is named in a diagnostic.
    pub open spec fn text(self) -> Seq<char> {
        match self {
            OwnerV::Function(name) => "function `"@ + name + "`"@,
            OwnerV::Constructor { class, init } => "constructor `"@ + class + "."@ + init + "`"@,
            OwnerV::Method { class, method } => "method `"@ + class + "."@ + method + "`"@,
            OwnerV::Deinitializer { class } => "deinitializer of `"@ + class + "`"@,
        }
    }
}

impl CallOwner {
    pub fn render(&self) -> (r: String)
        ensures
            r@ == self@.text(),
    {
        match self {
            CallOwner::Function(name) => cat3("function `", name.as_str(), "`"),
            CallOwner::Constructor { class, init } => cat5(
                "constructor `",
                class.as_str(),
                ".",
                init.as_str(),
                "`",
            ),
            CallOwner::Method { class, method } => cat5(
                "method `",
                class.as_str(),
                ".",
                method.as_str(),
                "`",
            ),
            CallOwner::Deinitializer { class } => cat3("deinitializer of `", class.as_str(), "`"),
        }
    }
}

impl Repr for CallOwner {
    fn copy(&self) -> (r: Self) {
        match self {
            CallOwner::Function(name) => CallOwner::Function(name.clone()),
            CallOwner::Constructor { class, init } => CallOwner::Constructor {
                class: class.clone(),
                init: init.clone(),
            },
            CallOwner::Method { class, method } => CallOwner::Method {
                class: class.clone(),
                method: method.clone(),
            },
            CallOwner::Deinitializer { class } => CallOwner::Deinitializer { class: class.clone() },
        }
    }

    fn same(&self, other: &Self) -> (r: bool) {
        match (self, other) {
            (CallOwner::Function(a), CallOwner::Function(b)) => *a == *b,
            (
                CallOwner::Constructor { class: a, init: b },
                CallOwner::Constructor { class: c, init: d },
            ) => *a == *c && *b == *d,
            (
                CallOwner::Method { class: a, method: b },
                CallOwner::Method { class: c, method: d },
            ) => *a == *c && *b == *d,
            (CallOwner::Deinitializer { class: a }, CallOwner::Deinitializer { class: b }) => *a
                == *b,
            _ => false,
        }
    }
}

/// Where an owned value goes.
#[derive(Debug, PartialEq, Eq)]
pub enum ValueTransferSink {
    Assignment(Place),
    FieldAssignment(Place),
    DiscardTemporary,
}

pub ghost enum SinkV {
    Assignment(PlaceV),
    FieldAssignment(PlaceV),
    DiscardTemporary,
}

impl View for ValueTransferSink {
    type V = SinkV;

    open spec fn view(&self) -> SinkV {
        match *self {
            ValueTransferSink::Assignment(p) => SinkV::Assignment(p@),
            ValueTransferSink::FieldAssignment(p) => SinkV::FieldAssignment(p@),
            ValueTransferSink::DiscardTemporary => SinkV::DiscardTemporary,
        }
    }
}

impl Repr for ValueTransferSink {
    fn copy(&self) -> (r: Self) {
        match self {
            ValueTransferSink::Assignment(p) => ValueTransferSink::Assignment(p.copy()),
            ValueTransferSink::FieldAssignment(p) => ValueTransferSink::FieldAssignment(p.copy()),
            ValueTransferSink::DiscardTemporary => ValueTransferSink::DiscardTemporary,
        }
    }

    fn same(&self, other: &Self) -> (r: bool) {
        match (self, other) {
            (ValueTransferSink::Assignment(a), ValueTransferSink::Assignment(b)) => a.same(b),
            (ValueTransferSink::FieldAssignment(a), ValueTransferSink::FieldAssignment(b)) => a.same(
                b,
            ),
            (ValueTransferSink::DiscardTemporary, ValueTransferSink::DiscardTemporary) => true,
            _ => false,
        }
    }
}

/// Identity of one ownership transfer: the callable, the value's source range and its sink.
#[derive(Debug, PartialEq, Eq)]
pub struct ValueTransferKey {
    pub owner: CallOwner,
    pub span: Span,
    pub sink: ValueTransferSink,
}

pub ghost struct TransferV {
    pub owner: OwnerV,
    pub span: Span,
    pub sink: SinkV,
}

impl View for ValueTransferKey {
    type V = TransferV;

    open spec fn view(&self) -> TransferV {
        TransferV { owner: self.owner@, span: self.span, sink: self.sink@ }
    }
}

impl Repr for ValueTransferKey {
    fn copy(&self) -> (r: Self) {
        ValueTransferKey { owner: self.owner.copy(), span: self.span, sink: self.sink.copy() }
    }

    fn same(&self, other: &Self) -> (r: bool) {
        self.owner.same(&other.owner) && self.span == other.span && self.sink.same(&other.sink)
    }
}

/// Identity of one effect site: the callable and the keyword's source range.
#[derive(Debug, PartialEq, Eq)]
pub struct EffectSiteKey {
    pub owner: CallOwner,
    pub span: Span,
}

pub ghost struct EffectV {
    pub owner: OwnerV,
    pub span: Span,
}

impl View for EffectSiteKey {
    type V = EffectV;

    open spec fn view(&self) -> EffectV {
        EffectV { owner: self.owner@, span: self.span }
    }
}

impl Repr for EffectSiteKey {
    fn copy(&self) -> (r: Self) {
        EffectSiteKey { owner: self.owner.copy(), span: self.span }
    }

    fn same(&self, other: &Self) -> (r: bool) {
        self.owner.same(&other.owner) && self.span == other.span
    }
}

} // verus!
