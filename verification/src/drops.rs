//! Exit routes and the recipes that destroy values.
use vstd::prelude::*;

use crate::ast::{Clause, ClauseKind, ClassDecl, Field, Ty};
use crate::ast::ty_name;
use crate::outline::{DropId, ScopeId};
use crate::place::{CallOwner, OwnerV, Place, PlaceV};
use crate::repr::{copy_opt, copy_vec, group_views, opt_view, same_opt, same_vec, views, Repr};
use crate::span::Span;
use crate::text::{cat3, owned};

verus! {

broadcast use group_views;

/// A refusal: the source range it is about, and why.
#[derive(Debug, PartialEq, Eq)]
pub struct PlanError {
    pub span: Span,
    pub message: String,
}

pub ghost struct ErrV {
    pub span: Span,
    pub message: Seq<char>,
}

impl View for PlanError {
    type V = ErrV;

    open spec fn view(&self) -> ErrV {
        ErrV { span: self.span, message: self.message@ }
    }
}

impl PlanError {
    pub fn new(span: Span, message: &str) -> (r: PlanError)
        ensures
            r@ == plan_err(span, message@),
    {
        PlanError { span, message: owned(message) }
    }
}

pub open spec fn plan_err(span: Span, message: Seq<char>) -> ErrV {
    ErrV { span, message }
}

/// A computed result stands for a stated one: both succeed with the same view, or both fail with
/// the same refusal.
pub open spec fn agrees<T: View>(r: Result<T, PlanError>, s: Result<T::V, ErrV>) -> bool {
    match (r, s) {
        (Ok(x), Ok(v)) => x@ == v,
        (Err(e), Err(f)) => e@ == f,
        _ => false,
    }
}

/// As [`agrees`], for a result that may be absent.
pub open spec fn agrees_opt<T: View>(
    r: Result<Option<T>, PlanError>,
    s: Result<Option<T::V>, ErrV>,
) -> bool {
    match (r, s) {
        (Ok(x), Ok(v)) => opt_view(x) == v,
        (Err(e), Err(f)) => e@ == f,
        _ => false,
    }
}

#[derive(Clone, Copy, Debug, PartialEq, Eq, Structural)]
pub enum ExitKind {
    Fallthrough,
    Return,
    Backedge,
    ExposureClose,
    Trap,
}

impl View for ScopeId {
    type V = ScopeId;

    open spec fn view(&self) -> ScopeId {
        *self
    }
}

impl Repr for ScopeId {
    fn copy(&self) -> (r: Self) {
        *self
    }

    fn same(&self, other: &Self) -> (r: bool) {
        *self == *other
    }
}

impl View for DropId {
    type V = DropId;

    open spec fn view(&self) -> DropId {
        *self
    }
}

impl Repr for DropId {
    fn copy(&self) -> (r: Self) {
        *self
    }

    fn same(&self, other: &Self) -> (r: bool) {
        *self == *other
    }
}

/// One lexical exit, in execution order: innermost scope first, and within each scope the last
/// declared binding first.
#[derive(Debug, PartialEq, Eq)]
pub struct ExitRoute {
    pub kind: ExitKind,
    pub scopes: Vec<ScopeId>,
    /// Every binding whose lifetime ends on this edge.
    pub clears: Vec<Place>,
    /// The bindings among them that need destruction when live.
    pub drops: Vec<DropId>,
}

pub ghost struct RouteV {
    pub kind: ExitKind,
    pub scopes: Seq<ScopeId>,
    pub clears: Seq<PlaceV>,
    pub drops: Seq<DropId>,
}

impl View for ExitRoute {
    type V = RouteV;

    open spec fn view(&self) -> RouteV {
        RouteV {
            kind: self.kind,
            scopes: views(self.scopes@),
            clears: views(self.clears@),
            drops: views(self.drops@),
        }
    }
}

impl Repr for ExitRoute {
    fn copy(&self) -> (r: Self) {
        ExitRoute {
            kind: self.kind,
            scopes: copy_vec(&self.scopes),
            clears: copy_vec(&self.clears),
            drops: copy_vec(&self.drops),
        }
    }

    fn same(&self, other: &Self) -> (r: bool) {
        self.kind == other.kind && same_vec(&self.scopes, &other.scopes) && same_vec(
            &self.clears,
            &other.clears,
        ) && same_vec(&self.drops, &other.drops)
    }
}

/// The exit of a trap: nothing is left, cleared or destroyed.
pub open spec fn trap_route_v() -> RouteV {
    RouteV {
        kind: ExitKind::Trap,
        scopes: Seq::empty(),
        clears: Seq::empty(),
        drops: Seq::empty(),
    }
}

impl ExitRoute {
    pub fn terminal_trap() -> (r: Self)
        ensures
            r@ == trap_route_v(),
    {
        ExitRoute { kind: ExitKind::Trap, scopes: Vec::new(), clears: Vec::new(), drops: Vec::new() }
    }

    pub fn is_terminal_trap(&self) -> (r: bool)
        ensures
            r == (self@ == trap_route_v()),
    {
        let r = self.kind == ExitKind::Trap && self.scopes.is_empty() && self.clears.is_empty()
            && self.drops.is_empty();
        proof {
            if r {
                assert(self@.scopes =~= Seq::<ScopeId>::empty());
                assert(self@.clears =~= Seq::<PlaceV>::empty());
                assert(self@.drops =~= Seq::<DropId>::empty());
            } else {
                assert(self@.scopes.len() == self.scopes@.len());
                assert(self@.clears.len() == self.clears@.len());
                assert(self@.drops.len() == self.drops@.len());
            }
        }
        r
    }

    pub fn kind(&self) -> (r: ExitKind)
        ensures
            r == self@.kind,
    {
        self.kind
    }

    pub fn scopes(&self) -> (r: &[ScopeId])
        ensures
            views(r@) == self@.scopes,
    {
        self.scopes.as_slice()
    }

    pub fn clears(&self) -> (r: &[Place])
        ensures
            views(r@) == self@.clears,
    {
        self.clears.as_slice()
    }

    pub fn drops(&self) -> (r: &[DropId])
        ensures
            views(r@) == self@.drops,
    {
        self.drops.as_slice()
    }
}

/// Link from a cleanup action to the destruction recipe of one concrete class.
#[derive(Debug, PartialEq, Eq)]
pub struct ClassDropAction {
    pub class: usize,
    pub terminal_trap: ExitRoute,
}

/// How one cleanup-bearing value is destroyed.
///
/// This is narrower than ownership: resources are consumed by name and are never destroyed
/// implicitly, arrays release one buffer of plain elements, and an owning option destroys its
/// payload when it is present.
#[derive(Debug, PartialEq, Eq)]
pub struct ValueDropAction {
    pub ty: Ty,
    pub recipe: ValueDropRecipe,
}

#[derive(Debug, PartialEq, Eq)]
pub enum ValueDropRecipe {
    ReleaseArray { element: Ty },
    DropClass(ClassDropAction),
    DropPresent(Box<ValueDropAction>),
}

pub ghost struct ClassActionV {
    pub class: usize,
    pub terminal_trap: RouteV,
}

pub ghost struct ActionV {
    pub ty: Ty,
    pub recipe: RecipeV,
}

pub ghost enum RecipeV {
    ReleaseArray { element: Ty },
    DropClass(ClassActionV),
    DropPresent(Box<ActionV>),
}

impl View for ClassDropAction {
    type V = ClassActionV;

    open spec fn view(&self) -> ClassActionV {
        ClassActionV { class: self.class, terminal_trap: self.terminal_trap@ }
    }
}

pub open spec fn action_view(a: ValueDropAction) -> ActionV
    decreases a,
{
    ActionV {
        ty: a.ty,
        recipe: match a.recipe {
            ValueDropRecipe::ReleaseArray { element } => RecipeV::ReleaseArray { element },
            ValueDropRecipe::DropClass(c) => RecipeV::DropClass(c@),
            ValueDropRecipe::DropPresent(p) => RecipeV::DropPresent(Box::new(action_view(*p))),
        },
    }
}

impl View for ValueDropAction {
    type V = ActionV;

    open spec fn view(&self) -> ActionV {
        action_view(*self)
    }
}

impl Repr for ClassDropAction {
    fn copy(&self) -> (r: Self) {
        ClassDropAction { class: self.class, terminal_trap: self.terminal_trap.copy() }
    }

    fn same(&self, other: &Self) -> (r: bool) {
        self.class == other.class && self.terminal_trap.same(&other.terminal_trap)
    }
}

impl Repr for ValueDropAction {
    fn copy(&self) -> (r: Self) {
        self.copy_action()
    }

    fn same(&self, other: &Self) -> (r: bool) {
        self.same_action(other)
    }
}

/// The recipe that destroys a value of type `ty`: none where nothing is to be destroyed, a
/// refusal where the type owns something that no recipe covers.
pub open spec fn drop_action_of(ty: Ty, span: Span) -> Result<Option<ActionV>, ErrV>
    decreases ty,
{
    match ty {
        Ty::Class(class) => Ok(
            Some(
                ActionV {
                    ty,
                    recipe: RecipeV::DropClass(
                        ClassActionV { class, terminal_trap: trap_route_v() },
                    ),
                },
            ),
        ),
        Ty::Array(element) => if element.affine() {
            Err(
                plan_err(
                    span,
                    "owned array `"@ + ty_name(ty)
                        + "` has no sealed occupied-slot cleanup recipe"@,
                ),
            )
        } else {
            Ok(Some(ActionV { ty, recipe: RecipeV::ReleaseArray { element: *element } }))
        },
        Ty::Slots(_) => Err(
            plan_err(
                span,
                "internal.control.slots_unsupported: `"@ + ty_name(ty)
                    + "` has no sealed occupied-cell cleanup recipe"@,
            ),
        ),
        Ty::Option(payload) => if *payload is Slots {
            Err(
                plan_err(
                    span,
                    "internal.control.slots_unsupported: owning option `"@ + ty_name(ty)
                        + "` has no present-slot cleanup recipe"@,
                ),
            )
        } else if !payload.affine() {
            Ok(None)
        } else if *payload == Ty::Array(Box::new(Ty::Bool)) || *payload is Class {
            match drop_action_of(*payload, span) {
                Err(e) => Err(e),
                Ok(None) => Err(
                    plan_err(
                        span,
                        "owning option `"@ + ty_name(ty)
                            + "` lost its present-payload cleanup recipe"@,
                    ),
                ),
                Ok(Some(action)) => Ok(
                    Some(ActionV { ty, recipe: RecipeV::DropPresent(Box::new(action)) }),
                ),
            }
        } else {
            Err(
                plan_err(
                    span,
                    "owning option `"@ + ty_name(ty)
                        + "` is outside the sealed one-level cleanup family"@,
                ),
            )
        },
        _ => Ok(None),
    }
}

impl ClassDropAction {
    pub fn new(class: usize) -> (r: Self)
        ensures
            r@ == (ClassActionV { class, terminal_trap: trap_route_v() }),
    {
        ClassDropAction { class, terminal_trap: ExitRoute::terminal_trap() }
    }

    pub fn class(&self) -> (r: usize)
        ensures
            r == self@.class,
    {
        self.class
    }

    pub fn terminal_trap_route(&self) -> (r: &ExitRoute)
        ensures
            r@ == self@.terminal_trap,
    {
        &self.terminal_trap
    }
}

impl ValueDropAction {
    fn copy_action(&self) -> (r: Self)
        ensures
            r@ == self@,
        decreases self,
    {
        let recipe = match &self.recipe {
            ValueDropRecipe::ReleaseArray { element } => ValueDropRecipe::ReleaseArray {
                element: element.clone(),
            },
            ValueDropRecipe::DropClass(c) => ValueDropRecipe::DropClass(c.copy()),
            ValueDropRecipe::DropPresent(p) => ValueDropRecipe::DropPresent(
                Box::new(p.copy_action()),
            ),
        };
        ValueDropAction { ty: self.ty.clone(), recipe }
    }

    fn same_action(&self, other: &Self) -> (r: bool)
        ensures
            r == (self@ == other@),
        decreases self,
    {
        if !self.ty.same_ty(&other.ty) {
            return false;
        }
        match (&self.recipe, &other.recipe) {
            (
                ValueDropRecipe::ReleaseArray { element: a },
                ValueDropRecipe::ReleaseArray { element: b },
            ) => a.same_ty(b),
            (ValueDropRecipe::DropClass(a), ValueDropRecipe::DropClass(b)) => a.same(b),
            (ValueDropRecipe::DropPresent(a), ValueDropRecipe::DropPresent(b)) => a.same_action(b),
            _ => false,
        }
    }

    pub fn build(ty: &Ty, span: Span) -> (r: Result<Option<Self>, PlanError>)
        ensures
            agrees_opt(r, drop_action_of(*ty, span)),
        decreases ty,
    {
        let recipe = match ty {
            Ty::Class(class) => ValueDropRecipe::DropClass(ClassDropAction::new(*class)),
            Ty::Array(element) => {
                if element.is_affine() {
                    return Err(
                        PlanError {
                            span,
                            message: cat3(
                                "owned array `",
                                ty.name().as_str(),
                                "` has no sealed occupied-slot cleanup recipe",
                            ),
                        },
                    );
                }
                ValueDropRecipe::ReleaseArray { element: (&**element).clone() }
            },
            Ty::Slots(_) => {
                return Err(
                    PlanError {
                        span,
                        message: cat3(
                            "internal.control.slots_unsupported: `",
                            ty.name().as_str(),
                            "` has no sealed occupied-cell cleanup recipe",
                        ),
                    },
                );
            },
            Ty::Option(payload) => {
                if matches!(&**payload, Ty::Slots(_)) {
                    return Err(
                        PlanError {
                            span,
                            message: cat3(
                                "internal.control.slots_unsupported: owning option `",
                                ty.name().as_str(),
                                "` has no present-slot cleanup recipe",
                            ),
                        },
                    );
                }
                if !payload.is_affine() {
                    return Ok(None);
                }
                if payload.is_owned_array_of(&Ty::Bool) || matches!(&**payload, Ty::Class(_)) {
                    match Self::build(payload, span) {
                        Err(e) => {
                            return Err(e);
                        },
                        Ok(None) => {
                            return Err(
                                PlanError {
                                    span,
                                    message: cat3(
                                        "owning option `",
                                        ty.name().as_str(),
                                        "` lost its present-payload cleanup recipe",
                                    ),
                                },
                            );
                        },
                        Ok(Some(action)) => ValueDropRecipe::DropPresent(Box::new(action)),
                    }
                } else {
                    return Err(
                        PlanError {
                            span,
                            message: cat3(
                                "owning option `",
                                ty.name().as_str(),
                                "` is outside the sealed one-level cleanup family",
                            ),
                        },
                    );
                }
            },
            _ => {
                return Ok(None);
            },
        };
        Ok(Some(ValueDropAction { ty: ty.clone(), recipe }))
    }

    pub fn ty(&self) -> (r: &Ty)
        ensures
            *r == self@.ty,
    {
        &self.ty
    }

    pub fn recipe(&self) -> (r: &ValueDropRecipe)
        ensures
            *r == self.recipe,
    {
        &self.recipe
    }
}

/// Only values with an owner are ever destroyed, and resources never are.
pub proof fn law_only_owners_are_destroyed(ty: Ty, span: Span)
    ensures
        drop_action_of(ty, span) matches Ok(Some(a)) ==> ty.affine() && !(ty is Res) && a.ty == ty,
        ty is Res ==> drop_action_of(ty, span) == Ok::<Option<ActionV>, ErrV>(None),
        !ty.affine() ==> drop_action_of(ty, span) == Ok::<Option<ActionV>, ErrV>(None),
    decreases ty,
{
    if let Ty::Option(p) = ty {
        law_only_owners_are_destroyed(*p, span);
    }
}

/// Declaration identity of one class invariant.
#[derive(Debug, PartialEq, Eq)]
pub struct ClassInvariantShape {
    pub kind: ClauseKind,
    pub label: Option<String>,
    pub fact: bool,
    pub unfold: bool,
    pub text: String,
    pub span: Span,
    pub line_span: Span,
}

pub ghost struct InvariantV {
    pub kind: ClauseKind,
    pub label: Option<Seq<char>>,
    pub fact: bool,
    pub unfold: bool,
    pub text: Seq<char>,
    pub span: Span,
    pub line_span: Span,
}

impl View for ClassInvariantShape {
    type V = InvariantV;

    open spec fn view(&self) -> InvariantV {
        InvariantV {
            kind: self.kind,
            label: opt_view(self.label),
            fact: self.fact,
            unfold: self.unfold,
            text: self.text@,
            span: self.span,
            line_span: self.line_span,
        }
    }
}

impl Repr for ClassInvariantShape {
    fn copy(&self) -> (r: Self) {
        ClassInvariantShape {
            kind: self.kind,
            label: copy_opt(&self.label),
            fact: self.fact,
            unfold: self.unfold,
            text: self.text.clone(),
            span: self.span,
            line_span: self.line_span,
        }
    }

    fn same(&self, other: &Self) -> (r: bool) {
        self.kind == other.kind && same_opt(&self.label, &other.label) && self.fact == other.fact
            && self.unfold == other.unfold && self.text == other.text && self.span == other.span
            && self.line_span == other.line_span
    }
}

pub open spec fn invariant_shape(c: Clause) -> InvariantV {
    InvariantV {
        kind: c.kind,
        label: opt_view(c.label),
        fact: c.fact,
        unfold: c.unfold,
        text: c.text@,
        span: c.span,
        line_span: c.line_span,
    }
}

impl ClassInvariantShape {
    pub fn of_clause(clause: &Clause) -> (r: Self)
        ensures
            r@ == invariant_shape(*clause),
    {
        ClassInvariantShape {
            kind: clause.kind,
            label: copy_opt(&clause.label),
            fact: clause.fact,
            unfold: clause.unfold,
            text: clause.text.clone(),
            span: clause.span,
            line_span: clause.line_span,
        }
    }
}

/// One declared field of a class, with how it is destroyed.
#[derive(Debug, PartialEq, Eq)]
pub struct ClassDropField {
    pub index: usize,
    pub name: String,
    pub ty: Ty,
    pub drop_action: Option<ValueDropAction>,
    pub span: Span,
    pub must_consume: bool,
}

pub ghost struct FieldV {
    pub index: usize,
    pub name: Seq<char>,
    pub ty: Ty,
    pub drop_action: Option<ActionV>,
    pub span: Span,
    pub must_consume: bool,
}

impl View for ClassDropField {
    type V = FieldV;

    open spec fn view(&self) -> FieldV {
        FieldV {
            index: self.index,
            name: self.name@,
            ty: self.ty,
            drop_action: opt_view(self.drop_action),
            span: self.span,
            must_consume: self.must_consume,
        }
    }
}

impl Repr for ClassDropField {
    fn copy(&self) -> (r: Self) {
        ClassDropField {
            index: self.index,
            name: self.name.clone(),
            ty: self.ty.clone(),
            drop_action: copy_opt(&self.drop_action),
            span: self.span,
            must_consume: self.must_consume,
        }
    }

    fn same(&self, other: &Self) -> (r: bool) {
        self.index == other.index && self.name == other.name && self.ty.same_ty(&other.ty)
            && same_opt(&self.drop_action, &other.drop_action) && self.span == other.span
            && self.must_consume == other.must_consume
    }
}

impl ClassDropField {
    pub fn index(&self) -> (r: usize)
        ensures
            r == self@.index,
    {
        self.index
    }

    pub fn name(&self) -> (r: &str)
        ensures
            r@ == self@.name,
    {
        self.name.as_str()
    }

    pub fn ty(&self) -> (r: &Ty)
        ensures
            *r == self@.ty,
    {
        &self.ty
    }

    pub fn drop_action(&self) -> (r: Option<&ValueDropAction>)
        ensures
            opt_view(r) == self@.drop_action,
    {
        match &self.drop_action {
            Some(action) => Some(action),
            None => None,
        }
    }

    pub fn span(&self) -> (r: Span)
        ensures
            r == self@.span,
    {
        self.span
    }

    pub fn must_consume(&self) -> (r: bool)
        ensures
            r == self@.must_consume,
    {
        self.must_consume
    }
}

/// One step of destroying a class value.
#[derive(Debug, PartialEq, Eq)]
pub enum ClassDropPhase {
    CheckInvariant,
    RunDeinitializer(CallOwner),
    DropField(ClassDropField),
}

pub ghost enum PhaseV {
    CheckInvariant,
    RunDeinitializer(OwnerV),
    DropField(FieldV),
}

impl View for ClassDropPhase {
    type V = PhaseV;

    open spec fn view(&self) -> PhaseV {
        match *self {
            ClassDropPhase::CheckInvariant => PhaseV::CheckInvariant,
            ClassDropPhase::RunDeinitializer(owner) => PhaseV::RunDeinitializer(owner@),
            ClassDropPhase::DropField(field) => PhaseV::DropField(field@),
        }
    }
}

impl Repr for ClassDropPhase {
    fn copy(&self) -> (r: Self) {
        match self {
            ClassDropPhase::CheckInvariant => ClassDropPhase::CheckInvariant,
            ClassDropPhase::RunDeinitializer(owner) => ClassDropPhase::RunDeinitializer(
                owner.copy(),
            ),
            ClassDropPhase::DropField(field) => ClassDropPhase::DropField(field.copy()),
        }
    }

    fn same(&self, other: &Self) -> (r: bool) {
        match (self, other) {
            (ClassDropPhase::CheckInvariant, ClassDropPhase::CheckInvariant) => true,
            (ClassDropPhase::RunDeinitializer(a), ClassDropPhase::RunDeinitializer(b)) => a.same(b),
            (ClassDropPhase::DropField(a), ClassDropPhase::DropField(b)) => a.same(b),
            _ => false,
        }
    }
}

/// What a destruction recipe depends on in a class declaration.
#[derive(Debug, PartialEq, Eq)]
pub struct ClassDropShape {
    pub name: String,
    pub name_span: Span,
    pub declaration_span: Span,
    pub invariants: Vec<ClassInvariantShape>,
    pub fields: Vec<ClassDropField>,
    pub has_deinitializer: bool,
}

pub ghost struct ShapeV {
    pub name: Seq<char>,
    pub name_span: Span,
    pub declaration_span: Span,
    pub invariants: Seq<InvariantV>,
    pub fields: Seq<FieldV>,
    pub has_deinitializer: bool,
}

impl View for ClassDropShape {
    type V = ShapeV;

    open spec fn view(&self) -> ShapeV {
        ShapeV {
            name: self.name@,
            name_span: self.name_span,
            declaration_span: self.declaration_span,
            invariants: views(self.invariants@),
            fields: views(self.fields@),
            has_deinitializer: self.has_deinitializer,
        }
    }
}

impl Repr for ClassDropShape {
    fn copy(&self) -> (r: Self) {
        ClassDropShape {
            name: self.name.clone(),
            name_span: self.name_span,
            declaration_span: self.declaration_span,
            invariants: copy_vec(&self.invariants),
            fields: copy_vec(&self.fields),
            has_deinitializer: self.has_deinitializer,
        }
    }

    fn same(&self, other: &Self) -> (r: bool) {
        self.name == other.name && self.name_span == other.name_span && self.declaration_span
            == other.declaration_span && same_vec(&self.invariants, &other.invariants) && same_vec(
            &self.fields,
            &other.fields,
        ) && self.has_deinitializer == other.has_deinitializer
    }
}

/// The retained fields of the first `n` declarations, or the refusal of the first that has no
/// recipe.
pub open spec fn drop_fields(fields: Seq<Field>, n: nat) -> Result<Seq<FieldV>, ErrV>
    decreases n,
{
    if n == 0 || n > fields.len() {
        Ok(Seq::empty())
    } else {
        match drop_fields(fields, (n - 1) as nat) {
            Err(e) => Err(e),
            Ok(before) => {
                let f = fields[n - 1];
                match drop_action_of(f.ty, f.span) {
                    Err(e) => Err(e),
                    Ok(drop_action) => Ok(
                        before.push(
                            FieldV {
                                index: (n - 1) as usize,
                                name: f.name@,
                                ty: f.ty,
                                drop_action,
                                span: f.span,
                                must_consume: f.must_consume,
                            },
                        ),
                    ),
                }
            },
        }
    }
}

/// What the declaration says about destruction.
pub open spec fn drop_shape(c: ClassDecl) -> Result<ShapeV, ErrV> {
    match drop_fields(c.fields@, c.fields@.len()) {
        Err(e) => Err(e),
        Ok(fields) => Ok(
            ShapeV {
                name: c.name@,
                name_span: c.name_span,
                declaration_span: c.span,
                invariants: Seq::new(c.invariants@.len(), |i: int| invariant_shape(c.invariants@[i])),
                fields,
                has_deinitializer: c.deinit is Some,
            },
        ),
    }
}

impl ClassDropShape {
    pub fn from_declaration(declaration: &ClassDecl) -> (r: Result<Self, PlanError>)
        ensures
            agrees(r, drop_shape(*declaration)),
    {
        let mut fields: Vec<ClassDropField> = Vec::new();
        let n: usize = declaration.fields.len();
        let mut i: usize = 0;
        while i < n
            invariant
                n == declaration.fields@.len(),
                i <= n,
                drop_fields(declaration.fields@, i as nat) == Ok::<Seq<FieldV>, ErrV>(
                    views(fields@),
                ),
            decreases n - i,
        {
            let field = &declaration.fields[i];
            match ValueDropAction::build(&field.ty, field.span) {
                Err(e) => {
                    proof {
                        lemma_drop_fields_fails(declaration.fields@, (i + 1) as nat, n as nat);
                    }
                    return Err(e);
                },
                Ok(drop_action) => {
                    fields.push(
                        ClassDropField {
                            index: i,
                            name: field.name.clone(),
                            ty: field.ty.clone(),
                            drop_action,
                            span: field.span,
                            must_consume: field.must_consume,
                        },
                    );
                },
            }
            i = i + 1;
        }
        let mut invariants: Vec<ClassInvariantShape> = Vec::new();
        let m: usize = declaration.invariants.len();
        let mut j: usize = 0;
        while j < m
            invariant
                m == declaration.invariants@.len(),
                j <= m,
                views(invariants@) == Seq::new(
                    j as nat,
                    |k: int| invariant_shape(declaration.invariants@[k]),
                ),
            decreases m - j,
        {
            invariants.push(ClassInvariantShape::of_clause(&declaration.invariants[j]));
            assert(Seq::new((j + 1) as nat, |k: int| invariant_shape(declaration.invariants@[k]))
                =~= Seq::new(j as nat, |k: int| invariant_shape(declaration.invariants@[k])).push(
                invariant_shape(declaration.invariants@[j as int]),
            ));
            j = j + 1;
        }
        Ok(
            ClassDropShape {
                name: declaration.name.clone(),
                name_span: declaration.name_span,
                declaration_span: declaration.span,
                invariants,
                fields,
                has_deinitializer: declaration.deinit.is_some(),
            },
        )
    }
}

proof fn lemma_drop_fields_fails(fields: Seq<Field>, n: nat, m: nat)
    requires
        n <= m <= fields.len(),
        drop_fields(fields, n) is Err,
    ensures
        drop_fields(fields, m) == drop_fields(fields, n),
    decreases m,
{
    if m > n {
        lemma_drop_fields_fails(fields, n, (m - 1) as nat);
    }
}

/// Destruction recipe of one concrete class.
///
/// A failure in any phase ends the recipe: no later phase runs.
#[derive(Debug)]
pub struct ClassDropPlan {
    pub class: usize,
    pub shape: ClassDropShape,
    pub phases: Vec<ClassDropPhase>,
    pub terminal_trap: ExitRoute,
}

pub ghost struct ClassPlanV {
    pub class: usize,
    pub shape: ShapeV,
    pub phases: Seq<PhaseV>,
    pub terminal_trap: RouteV,
}

impl View for ClassDropPlan {
    type V = ClassPlanV;

    open spec fn view(&self) -> ClassPlanV {
        ClassPlanV {
            class: self.class,
            shape: self.shape@,
            phases: views(self.phases@),
            terminal_trap: self.terminal_trap@,
        }
    }
}

impl Repr for ClassDropPlan {
    fn copy(&self) -> (r: Self) {
        ClassDropPlan {
            class: self.class,
            shape: self.shape.copy(),
            phases: copy_vec(&self.phases),
            terminal_trap: self.terminal_trap.copy(),
        }
    }

    fn same(&self, other: &Self) -> (r: bool) {
        self.class == other.class && self.shape.same(&other.shape) && same_vec(
            &self.phases,
            &other.phases,
        ) && self.terminal_trap.same(&other.terminal_trap)
    }
}

/// The phases before the fields: the invariant, then the deinitializer where there is one.
pub open spec fn lead_phases(shape: ShapeV) -> Seq<PhaseV> {
    if shape.has_deinitializer {
        seq![
            PhaseV::CheckInvariant,
            PhaseV::RunDeinitializer(OwnerV::Deinitializer { class: shape.name }),
        ]
    } else {
        seq![PhaseV::CheckInvariant]
    }
}

/// The phases of destruction: the lead, then the fields from the last declared to the first.
pub open spec fn drop_phases(shape: ShapeV) -> Seq<PhaseV> {
    lead_phases(shape) + Seq::new(
        shape.fields.len(),
        |i: int| PhaseV::DropField(shape.fields[shape.fields.len() - 1 - i]),
    )
}

/// The destruction recipe of a class declaration.
pub open spec fn class_plan_of(class: usize, c: ClassDecl) -> Result<ClassPlanV, ErrV> {
    match drop_shape(c) {
        Err(e) => Err(e),
        Ok(shape) => Ok(
            ClassPlanV {
                class,
                shape,
                phases: drop_phases(shape),
                terminal_trap: trap_route_v(),
            },
        ),
    }
}

impl ClassPlanV {
    /// The refusal where the recipe's failure route is not the one of a trap.
    pub open spec fn check_route(self) -> Result<(), ErrV> {
        if self.terminal_trap != trap_route_v() {
            Err(
                plan_err(
                    self.shape.declaration_span,
                    "class-drop failures for `"@ + self.shape.name
                        + "` no longer use the canonical no-unwind trap route"@,
                ),
            )
        } else {
            Ok(())
        }
    }

    /// The refusal where the recipe is not that of the declaration.
    pub open spec fn check(self, class: usize, c: ClassDecl) -> Result<(), ErrV> {
        match self.check_route() {
            Err(e) => Err(e),
            Ok(_) => match class_plan_of(class, c) {
                Err(e) => Err(e),
                Ok(current) => if self.class != current.class || self.shape != current.shape
                    || self.phases != current.phases {
                    Err(
                        plan_err(
                            c.name_span,
                            "checked class-drop plan for concrete class `"@ + self.shape.name
                                + "` no longer matches its declaration"@,
                        ),
                    )
                } else {
                    Ok(())
                },
            },
        }
    }
}

impl ClassDropPlan {
    pub fn build(class: usize, declaration: &ClassDecl) -> (r: Result<Self, PlanError>)
        ensures
            agrees(r, class_plan_of(class, *declaration)),
    {
        let shape = match ClassDropShape::from_declaration(declaration) {
            Err(e) => {
                return Err(e);
            },
            Ok(shape) => shape,
        };
        let mut phases: Vec<ClassDropPhase> = Vec::new();
        phases.push(ClassDropPhase::CheckInvariant);
        if shape.has_deinitializer {
            phases.push(
                ClassDropPhase::RunDeinitializer(
                    CallOwner::Deinitializer { class: shape.name.clone() },
                ),
            );
        }
        assert(views(phases@) =~= lead_phases(shape@));
        let n: usize = shape.fields.len();
        let mut i: usize = 0;
        while i < n
            invariant
                n == shape.fields@.len(),
                i <= n,
                views(phases@) == lead_phases(shape@) + Seq::new(
                    i as nat,
                    |k: int| PhaseV::DropField(shape@.fields[n - 1 - k]),
                ),
            decreases n - i,
        {
            phases.push(ClassDropPhase::DropField(shape.fields[n - 1 - i].copy()));
            assert(Seq::new((i + 1) as nat, |k: int| PhaseV::DropField(shape@.fields[n - 1 - k]))
                =~= Seq::new(i as nat, |k: int| PhaseV::DropField(shape@.fields[n - 1 - k])).push(
                PhaseV::DropField(shape@.fields[n - 1 - i]),
            ));
            assert(views(phases@) =~= lead_phases(shape@) + Seq::new(
                (i + 1) as nat,
                |k: int| PhaseV::DropField(shape@.fields[n - 1 - k]),
            ));
            i = i + 1;
        }
        assert(views(phases@) =~= drop_phases(shape@));
        Ok(ClassDropPlan { class, shape, phases, terminal_trap: ExitRoute::terminal_trap() })
    }

    pub fn validate(&self, class: usize, declaration: &ClassDecl) -> (r: Result<(), PlanError>)
        ensures
            agrees(r, self@.check(class, *declaration)),
    {
        match self.validate_terminal_trap_route() {
            Err(e) => {
                return Err(e);
            },
            Ok(_) => {},
        }
        let current = match Self::build(class, declaration) {
            Err(e) => {
                return Err(e);
            },
            Ok(current) => current,
        };
        if self.class != current.class || !self.shape.same(&current.shape) || !same_vec(
            &self.phases,
            &current.phases,
        ) {
            return Err(
                PlanError {
                    span: declaration.name_span,
                    message: cat3(
                        "checked class-drop plan for concrete class `",
                        self.shape.name.as_str(),
                        "` no longer matches its declaration",
                    ),
                },
            );
        }
        Ok(())
    }

    pub fn validate_terminal_trap_route(&self) -> (r: Result<(), PlanError>)
        ensures
            agrees(r, self@.check_route()),
    {
        if !self.terminal_trap.is_terminal_trap() {
            return Err(
                PlanError {
                    span: self.shape.declaration_span,
                    message: cat3(
                        "class-drop failures for `",
                        self.shape.name.as_str(),
                        "` no longer use the canonical no-unwind trap route",
                    ),
                },
            );
        }
        Ok(())
    }

    pub fn class(&self) -> (r: usize)
        ensures
            r == self@.class,
    {
        self.class
    }

    pub fn class_name(&self) -> (r: &str)
        ensures
            r@ == self@.shape.name,
    {
        self.shape.name.as_str()
    }

    pub fn phases(&self) -> (r: &[ClassDropPhase])
        ensures
            views(r@) == self@.phases,
            r@ == self.phases@,
    {
        self.phases.as_slice()
    }

    pub fn terminal_trap_route(&self) -> (r: &ExitRoute)
        ensures
            r@ == self@.terminal_trap,
    {
        &self.terminal_trap
    }
}

/// A recipe made for a declaration is accepted for it, and every recipe accepted for it has the
/// same phases.
pub proof fn law_class_recipe_is_exact(class: usize, c: ClassDecl, p: ClassPlanV)
    requires
        class_plan_of(class, c) is Ok,
    ensures
        class_plan_of(class, c)->Ok_0.check(class, c) is Ok,
        p.check(class, c) is Ok <==> p == class_plan_of(class, c)->Ok_0,
{
}

proof fn lemma_drop_fields_len(fields: Seq<Field>, n: nat)
    requires
        n <= fields.len() <= usize::MAX,
        drop_fields(fields, n) is Ok,
    ensures
        drop_fields(fields, n)->Ok_0.len() == n,
        forall|i: int|
            0 <= i < n ==> (#[trigger] drop_fields(fields, n)->Ok_0[i]).index == i
                && drop_fields(fields, n)->Ok_0[i].name == fields[i].name@,
    decreases n,
{
    if n > 0 {
        lemma_drop_fields_len(fields, (n - 1) as nat);
    }
}

/// How many phases of a class's destruction precede its fields.
pub open spec fn lead_len(c: ClassDecl) -> int {
    if c.deinit is Some {
        2
    } else {
        1
    }
}

/// Destruction checks the invariant first, runs the deinitializer before any field, and then
/// visits every declared field exactly once, the last declared first.
pub proof fn law_class_destruction_order(class: usize, c: ClassDecl)
    requires
        class_plan_of(class, c) is Ok,
    ensures
        ({
            let phases = class_plan_of(class, c)->Ok_0.phases;
            &&& phases.len() == lead_len(c) + c.fields@.len()
            &&& phases[0] is CheckInvariant
            &&& c.deinit is Some ==> phases[1] == PhaseV::RunDeinitializer(
                OwnerV::Deinitializer { class: c.name@ },
            )
            &&& forall|j: int|
                lead_len(c) <= j < phases.len() ==> (#[trigger] phases[j]) is DropField
                    && phases[j]->DropField_0.index == phases.len() - 1 - j
                    && phases[j]->DropField_0.name == c.fields@[phases.len() - 1 - j].name@
        }),
{
    assert(c.fields.len() == c.fields@.len());
    lemma_drop_fields_len(c.fields@, c.fields@.len());
}

} // verus!
