//! The typed control plan of one checked body: scopes, cleanup, replacement actions and edges.
use vstd::prelude::*;

use crate::ast::{Mutability, Ty};
use crate::drops::{ActionV, ExitRoute, RouteV, ValueDropAction};
use crate::flow::FlowSummary;
use crate::outline::{
    BlockId, BlockPlan, BlockV, BranchArm, BranchId, DropId, ExposureId, LoopId, ScopeId, ScopeKind,
};
use crate::place::{
    CallOwner, EffectSiteKey, EffectV, OwnerV, Place, PlaceV, TransferV, ValueTransferKey,
};
use crate::repr::{copy_opt, copy_vec, group_views, opt_view, same_opt, same_vec, views, Repr};
use crate::span::Span;
use crate::text::{cat3, nat_text, owned, usize_decimal};
use crate::traps::{TrapSite, TrapSiteV};

verus! {

broadcast use group_views;

/// A source site inside one lexical scope.
#[derive(Clone, Copy, Debug, PartialEq, Eq, Structural)]
pub struct SiteKey {
    pub scope: ScopeId,
    pub span: Span,
}

/// Index entry: the table position of the fact retained for a site.
#[derive(Clone, Copy, Debug, PartialEq, Eq, Structural)]
pub struct SiteEntry {
    pub key: SiteKey,
    pub index: usize,
}

/// Index entry: the scope at an anchor.
#[derive(Clone, Copy, Debug, PartialEq, Eq, Structural)]
pub struct ScopeEntry {
    pub kind: ScopeKind,
    pub anchor: Span,
    pub id: ScopeId,
}

/// Storage that belongs to the compiler rather than to a source binding.
#[derive(Clone, Copy, Debug, PartialEq, Eq, Structural)]
pub enum CompilerTempKind {
    ReturnValue,
    AssignmentValue,
    FieldAssignmentValue,
    DiscardedClassValue,
    ExposureLoan,
    ExposureIndex,
    ExposureByte,
    BoolLiteralElement(usize),
}

#[derive(Clone, Copy, Debug, PartialEq, Eq, Structural)]
pub struct CompilerTempKey {
    pub scope: ScopeId,
    pub anchor: Span,
    pub kind: CompilerTempKind,
}

impl View for SiteKey {
    type V = SiteKey;

    open spec fn view(&self) -> SiteKey {
        *self
    }
}

impl Repr for SiteKey {
    fn copy(&self) -> (r: Self) {
        *self
    }

    fn same(&self, other: &Self) -> (r: bool) {
        *self == *other
    }
}

impl View for SiteEntry {
    type V = SiteEntry;

    open spec fn view(&self) -> SiteEntry {
        *self
    }
}

impl Repr for SiteEntry {
    fn copy(&self) -> (r: Self) {
        *self
    }

    fn same(&self, other: &Self) -> (r: bool) {
        *self == *other
    }
}

impl View for ScopeEntry {
    type V = ScopeEntry;

    open spec fn view(&self) -> ScopeEntry {
        *self
    }
}

impl Repr for ScopeEntry {
    fn copy(&self) -> (r: Self) {
        *self
    }

    fn same(&self, other: &Self) -> (r: bool) {
        *self == *other
    }
}

/// Tag of a scope kind in diagnostics.
pub open spec fn scope_kind_text(kind: ScopeKind) -> Seq<char> {
    match kind {
        ScopeKind::Frame => "Frame"@,
        ScopeKind::Body => "Body"@,
        ScopeKind::BranchArm(BranchArm::Then) => "BranchArm(Then)"@,
        ScopeKind::BranchArm(BranchArm::Else) => "BranchArm(Else)"@,
        ScopeKind::LoopBody => "LoopBody"@,
        ScopeKind::Exposure => "Exposure"@,
    }
}

pub fn scope_kind_tag(kind: ScopeKind) -> (r: &'static str)
    ensures
        r@ == scope_kind_text(kind),
{
    match kind {
        ScopeKind::Frame => "Frame",
        ScopeKind::Body => "Body",
        ScopeKind::BranchArm(BranchArm::Then) => "BranchArm(Then)",
        ScopeKind::BranchArm(BranchArm::Else) => "BranchArm(Else)",
        ScopeKind::LoopBody => "LoopBody",
        ScopeKind::Exposure => "Exposure",
    }
}

/// Tag of a compiler temporary in diagnostics.
pub open spec fn temp_kind_text(kind: CompilerTempKind) -> Seq<char> {
    match kind {
        CompilerTempKind::ReturnValue => "ReturnValue"@,
        CompilerTempKind::AssignmentValue => "AssignmentValue"@,
        CompilerTempKind::FieldAssignmentValue => "FieldAssignmentValue"@,
        CompilerTempKind::DiscardedClassValue => "DiscardedClassValue"@,
        CompilerTempKind::ExposureLoan => "ExposureLoan"@,
        CompilerTempKind::ExposureIndex => "ExposureIndex"@,
        CompilerTempKind::ExposureByte => "ExposureByte"@,
        CompilerTempKind::BoolLiteralElement(n) => "BoolLiteralElement("@ + nat_text(n as nat)
            + ")"@,
    }
}

pub fn temp_kind_tag(kind: CompilerTempKind) -> (r: String)
    ensures
        r@ == temp_kind_text(kind),
{
    match kind {
        CompilerTempKind::ReturnValue => owned("ReturnValue"),
        CompilerTempKind::AssignmentValue => owned("AssignmentValue"),
        CompilerTempKind::FieldAssignmentValue => owned("FieldAssignmentValue"),
        CompilerTempKind::DiscardedClassValue => owned("DiscardedClassValue"),
        CompilerTempKind::ExposureLoan => owned("ExposureLoan"),
        CompilerTempKind::ExposureIndex => owned("ExposureIndex"),
        CompilerTempKind::ExposureByte => owned("ExposureByte"),
        CompilerTempKind::BoolLiteralElement(n) => cat3(
            "BoolLiteralElement(",
            usize_decimal(n).as_str(),
            ")",
        ),
    }
}

/// A value that its scope destroys where it is live.
#[derive(Debug)]
pub struct DropCandidate {
    pub id: DropId,
    pub scope: ScopeId,
    pub place: Place,
    pub drop_action: ValueDropAction,
    pub span: Span,
}

pub ghost struct CandidateV {
    pub id: DropId,
    pub scope: ScopeId,
    pub place: PlaceV,
    pub drop_action: ActionV,
    pub span: Span,
}

impl View for DropCandidate {
    type V = CandidateV;

    open spec fn view(&self) -> CandidateV {
        CandidateV {
            id: self.id,
            scope: self.scope,
            place: self.place@,
            drop_action: self.drop_action@,
            span: self.span,
        }
    }
}

impl Repr for DropCandidate {
    fn copy(&self) -> (r: Self) {
        DropCandidate {
            id: self.id,
            scope: self.scope,
            place: self.place.copy(),
            drop_action: self.drop_action.copy(),
            span: self.span,
        }
    }

    fn same(&self, other: &Self) -> (r: bool) {
        self.id == other.id && self.scope == other.scope && self.place.same(&other.place)
            && self.drop_action.same(&other.drop_action) && self.span == other.span
    }
}

impl DropCandidate {
    pub fn id(&self) -> (r: DropId)
        ensures
            r == self@.id,
    {
        self.id
    }

    pub fn scope(&self) -> (r: ScopeId)
        ensures
            r == self@.scope,
    {
        self.scope
    }

    pub fn place(&self) -> (r: &Place)
        ensures
            r@ == self@.place,
    {
        &self.place
    }

    pub fn ty(&self) -> (r: &Ty)
        ensures
            *r == self@.drop_action.ty,
    {
        self.drop_action.ty()
    }

    pub fn drop_action(&self) -> (r: &ValueDropAction)
        ensures
            r@ == self@.drop_action,
    {
        &self.drop_action
    }

    pub fn span(&self) -> (r: Span)
        ensures
            r == self@.span,
    {
        self.span
    }
}

/// Index entry: the drop candidate of a place.
#[derive(Debug)]
pub struct CandidateEntry {
    pub place: Place,
    pub id: DropId,
}

pub ghost struct CandidateEntryV {
    pub place: PlaceV,
    pub id: DropId,
}

impl View for CandidateEntry {
    type V = CandidateEntryV;

    open spec fn view(&self) -> CandidateEntryV {
        CandidateEntryV { place: self.place@, id: self.id }
    }
}

impl Repr for CandidateEntry {
    fn copy(&self) -> (r: Self) {
        CandidateEntry { place: self.place.copy(), id: self.id }
    }

    fn same(&self, other: &Self) -> (r: bool) {
        self.place.same(&other.place) && self.id == other.id
    }
}

/// The place of a compiler temporary.
#[derive(Debug)]
pub struct TempEntry {
    pub key: CompilerTempKey,
    pub place: Place,
}

pub ghost struct TempV {
    pub key: CompilerTempKey,
    pub place: PlaceV,
}

impl View for TempEntry {
    type V = TempV;

    open spec fn view(&self) -> TempV {
        TempV { key: self.key, place: self.place@ }
    }
}

impl Repr for TempEntry {
    fn copy(&self) -> (r: Self) {
        TempEntry { key: self.key, place: self.place.copy() }
    }

    fn same(&self, other: &Self) -> (r: bool) {
        self.key == other.key && self.place.same(&other.place)
    }
}

/// Where an assignment keeps its evaluated value while the destination is replaced.
#[derive(Debug, PartialEq, Eq)]
pub enum AssignmentStaging {
    Direct,
    Temporary(Place),
}

pub ghost enum StagingV {
    Direct,
    Temporary(PlaceV),
}

impl View for AssignmentStaging {
    type V = StagingV;

    open spec fn view(&self) -> StagingV {
        match *self {
            AssignmentStaging::Direct => StagingV::Direct,
            AssignmentStaging::Temporary(p) => StagingV::Temporary(p@),
        }
    }
}

impl Repr for AssignmentStaging {
    fn copy(&self) -> (r: Self) {
        match self {
            AssignmentStaging::Direct => AssignmentStaging::Direct,
            AssignmentStaging::Temporary(p) => AssignmentStaging::Temporary(p.copy()),
        }
    }

    fn same(&self, other: &Self) -> (r: bool) {
        match (self, other) {
            (AssignmentStaging::Direct, AssignmentStaging::Direct) => true,
            (AssignmentStaging::Temporary(a), AssignmentStaging::Temporary(b)) => a.same(b),
            _ => false,
        }
    }
}

/// One replacement of a local: evaluate into `staging`, destroy `previous` where it is live, then
/// install into `destination`.
#[derive(Debug, PartialEq, Eq)]
pub struct AssignmentAction {
    pub scope: ScopeId,
    pub span: Span,
    pub destination: Place,
    pub ty: Ty,
    pub transfer_key: ValueTransferKey,
    pub previous: Option<DropId>,
    pub staging: AssignmentStaging,
}

pub ghost struct AssignV {
    pub scope: ScopeId,
    pub span: Span,
    pub destination: PlaceV,
    pub ty: Ty,
    pub transfer_key: TransferV,
    pub previous: Option<DropId>,
    pub staging: StagingV,
}

impl View for AssignmentAction {
    type V = AssignV;

    open spec fn view(&self) -> AssignV {
        AssignV {
            scope: self.scope,
            span: self.span,
            destination: self.destination@,
            ty: self.ty,
            transfer_key: self.transfer_key@,
            previous: self.previous,
            staging: self.staging@,
        }
    }
}

impl Repr for AssignmentAction {
    fn copy(&self) -> (r: Self) {
        AssignmentAction {
            scope: self.scope,
            span: self.span,
            destination: self.destination.copy(),
            ty: self.ty.clone(),
            transfer_key: self.transfer_key.copy(),
            previous: self.previous,
            staging: self.staging.copy(),
        }
    }

    fn same(&self, other: &Self) -> (r: bool) {
        self.scope == other.scope && self.span == other.span && self.destination.same(
            &other.destination,
        ) && self.ty.same_ty(&other.ty) && self.transfer_key.same(&other.transfer_key)
            && self.previous == other.previous && self.staging.same(&other.staging)
    }
}

impl AssignmentAction {
    pub fn scope(&self) -> (r: ScopeId)
        ensures
            r == self@.scope,
    {
        self.scope
    }

    pub fn span(&self) -> (r: Span)
        ensures
            r == self@.span,
    {
        self.span
    }

    pub fn destination(&self) -> (r: &Place)
        ensures
            r@ == self@.destination,
    {
        &self.destination
    }

    pub fn ty(&self) -> (r: &Ty)
        ensures
            *r == self@.ty,
    {
        &self.ty
    }

    pub fn transfer_key(&self) -> (r: &ValueTransferKey)
        ensures
            r@ == self@.transfer_key,
    {
        &self.transfer_key
    }

    pub fn previous(&self) -> (r: Option<DropId>)
        ensures
            r == self@.previous,
    {
        self.previous
    }

    pub fn staging(&self) -> (r: &AssignmentStaging)
        ensures
            r@ == self@.staging,
    {
        &self.staging
    }
}

/// One `self.field = value`: evaluate into `staging`, destroy what the field holds where it holds
/// something, then install. The first write of a constructor finds the field empty.
#[derive(Debug, PartialEq, Eq)]
pub struct FieldAssignmentAction {
    pub scope: ScopeId,
    pub span: Span,
    pub destination: Place,
    pub ty: Ty,
    pub transfer_key: ValueTransferKey,
    pub staging: AssignmentStaging,
    pub drop_action: Option<ValueDropAction>,
}

pub ghost struct FieldAssignV {
    pub scope: ScopeId,
    pub span: Span,
    pub destination: PlaceV,
    pub ty: Ty,
    pub transfer_key: TransferV,
    pub staging: StagingV,
    pub drop_action: Option<ActionV>,
}

impl View for FieldAssignmentAction {
    type V = FieldAssignV;

    open spec fn view(&self) -> FieldAssignV {
        FieldAssignV {
            scope: self.scope,
            span: self.span,
            destination: self.destination@,
            ty: self.ty,
            transfer_key: self.transfer_key@,
            staging: self.staging@,
            drop_action: opt_view(self.drop_action),
        }
    }
}

impl Repr for FieldAssignmentAction {
    fn copy(&self) -> (r: Self) {
        FieldAssignmentAction {
            scope: self.scope,
            span: self.span,
            destination: self.destination.copy(),
            ty: self.ty.clone(),
            transfer_key: self.transfer_key.copy(),
            staging: self.staging.copy(),
            drop_action: copy_opt(&self.drop_action),
        }
    }

    fn same(&self, other: &Self) -> (r: bool) {
        self.scope == other.scope && self.span == other.span && self.destination.same(
            &other.destination,
        ) && self.ty.same_ty(&other.ty) && self.transfer_key.same(&other.transfer_key)
            && self.staging.same(&other.staging) && same_opt(&self.drop_action, &other.drop_action)
    }
}

impl FieldAssignmentAction {
    pub fn scope(&self) -> (r: ScopeId)
        ensures
            r == self@.scope,
    {
        self.scope
    }

    pub fn ty(&self) -> (r: &Ty)
        ensures
            *r == self@.ty,
    {
        &self.ty
    }

    pub fn transfer_key(&self) -> (r: &ValueTransferKey)
        ensures
            r@ == self@.transfer_key,
    {
        &self.transfer_key
    }

    pub fn drop_if_present(&self) -> (r: bool)
        ensures
            r == (self@.drop_action is Some),
    {
        self.drop_action.is_some()
    }

    pub fn staging(&self) -> (r: &AssignmentStaging)
        ensures
            r@ == self@.staging,
    {
        &self.staging
    }

    pub fn drop_action(&self) -> (r: Option<&ValueDropAction>)
        ensures
            opt_view(r) == self@.drop_action,
    {
        match &self.drop_action {
            Some(a) => Some(a),
            None => None,
        }
    }
}

/// A fresh class value that a statement discards, and its destruction at the statement's end.
#[derive(Debug, PartialEq, Eq)]
pub struct TemporaryDropAction {
    pub scope: ScopeId,
    pub span: Span,
    pub transfer_key: ValueTransferKey,
    pub temporary: Place,
    pub drop_action: ValueDropAction,
}

pub ghost struct TempDropV {
    pub scope: ScopeId,
    pub span: Span,
    pub transfer_key: TransferV,
    pub temporary: PlaceV,
    pub drop_action: ActionV,
}

impl View for TemporaryDropAction {
    type V = TempDropV;

    open spec fn view(&self) -> TempDropV {
        TempDropV {
            scope: self.scope,
            span: self.span,
            transfer_key: self.transfer_key@,
            temporary: self.temporary@,
            drop_action: self.drop_action@,
        }
    }
}

impl Repr for TemporaryDropAction {
    fn copy(&self) -> (r: Self) {
        TemporaryDropAction {
            scope: self.scope,
            span: self.span,
            transfer_key: self.transfer_key.copy(),
            temporary: self.temporary.copy(),
            drop_action: self.drop_action.copy(),
        }
    }

    fn same(&self, other: &Self) -> (r: bool) {
        self.scope == other.scope && self.span == other.span && self.transfer_key.same(
            &other.transfer_key,
        ) && self.temporary.same(&other.temporary) && self.drop_action.same(&other.drop_action)
    }
}

impl TemporaryDropAction {
    pub fn scope(&self) -> (r: ScopeId)
        ensures
            r == self@.scope,
    {
        self.scope
    }

    pub fn span(&self) -> (r: Span)
        ensures
            r == self@.span,
    {
        self.span
    }

    pub fn ty(&self) -> (r: &Ty)
        ensures
            *r == self@.drop_action.ty,
    {
        self.drop_action.ty()
    }

    pub fn transfer_key(&self) -> (r: &ValueTransferKey)
        ensures
            r@ == self@.transfer_key,
    {
        &self.transfer_key
    }

    pub fn temporary(&self) -> (r: &Place)
        ensures
            r@ == self@.temporary,
    {
        &self.temporary
    }

    pub fn drop_action(&self) -> (r: &ValueDropAction)
        ensures
            r@ == self@.drop_action,
    {
        &self.drop_action
    }
}

/// The two cleanup phases of a return. Locals die before the postconditions are monitored, owned
/// parameters after.
#[derive(Debug, PartialEq, Eq)]
pub struct ReturnRoutes {
    pub lexical: ExitRoute,
    pub frame: ExitRoute,
    /// Where an explicit result waits while the locals are cleared.
    pub result_slot: Option<Place>,
}

pub ghost struct ReturnV {
    pub lexical: RouteV,
    pub frame: RouteV,
    pub result_slot: Option<PlaceV>,
}

impl View for ReturnRoutes {
    type V = ReturnV;

    open spec fn view(&self) -> ReturnV {
        ReturnV {
            lexical: self.lexical@,
            frame: self.frame@,
            result_slot: opt_view(self.result_slot),
        }
    }
}

impl ReturnRoutes {
    pub fn lexical(&self) -> (r: &ExitRoute)
        ensures
            r@ == self@.lexical,
    {
        &self.lexical
    }

    pub fn frame(&self) -> (r: &ExitRoute)
        ensures
            r@ == self@.frame,
    {
        &self.frame
    }

    pub fn result_slot(&self) -> (r: Option<&Place>)
        ensures
            opt_view(r) == self@.result_slot,
    {
        match &self.result_slot {
            Some(p) => Some(p),
            None => None,
        }
    }
}

/// One arm of a branch.
#[derive(Debug, PartialEq, Eq)]
pub struct BranchArmPlan {
    pub block: BlockId,
    pub scope: ScopeId,
    pub flow: FlowSummary,
    /// Present exactly when the arm can reach what follows the branch.
    pub normal_exit: Option<ExitRoute>,
}

pub ghost struct ArmV {
    pub block: BlockId,
    pub scope: ScopeId,
    pub flow: FlowSummary,
    pub normal_exit: Option<RouteV>,
}

impl View for BranchArmPlan {
    type V = ArmV;

    open spec fn view(&self) -> ArmV {
        ArmV {
            block: self.block,
            scope: self.scope,
            flow: self.flow,
            normal_exit: opt_view(self.normal_exit),
        }
    }
}

impl Repr for BranchArmPlan {
    fn copy(&self) -> (r: Self) {
        BranchArmPlan {
            block: self.block,
            scope: self.scope,
            flow: self.flow,
            normal_exit: copy_opt(&self.normal_exit),
        }
    }

    fn same(&self, other: &Self) -> (r: bool) {
        self.block == other.block && self.scope == other.scope && self.flow == other.flow
            && same_opt(&self.normal_exit, &other.normal_exit)
    }
}

impl BranchArmPlan {
    pub fn block(&self) -> (r: BlockId)
        ensures
            r == self@.block,
    {
        self.block
    }

    pub fn scope(&self) -> (r: ScopeId)
        ensures
            r == self@.scope,
    {
        self.scope
    }

    pub fn flow(&self) -> (r: FlowSummary)
        ensures
            r == self@.flow,
    {
        self.flow
    }

    pub fn normal_exit(&self) -> (r: Option<&ExitRoute>)
        ensures
            opt_view(r) == self@.normal_exit,
    {
        match &self.normal_exit {
            Some(p) => Some(p),
            None => None,
        }
    }
}

#[derive(Debug, PartialEq, Eq)]
pub struct BranchPlan {
    pub id: BranchId,
    pub parent_scope: ScopeId,
    pub anchor: Span,
    pub then_arm: BranchArmPlan,
    pub else_arm: Option<BranchArmPlan>,
    pub flow: FlowSummary,
}

pub ghost struct BranchV {
    pub id: BranchId,
    pub parent_scope: ScopeId,
    pub anchor: Span,
    pub then_arm: ArmV,
    pub else_arm: Option<ArmV>,
    pub flow: FlowSummary,
}

impl View for BranchPlan {
    type V = BranchV;

    open spec fn view(&self) -> BranchV {
        BranchV {
            id: self.id,
            parent_scope: self.parent_scope,
            anchor: self.anchor,
            then_arm: self.then_arm@,
            else_arm: opt_view(self.else_arm),
            flow: self.flow,
        }
    }
}

impl Repr for BranchPlan {
    fn copy(&self) -> (r: Self) {
        BranchPlan {
            id: self.id,
            parent_scope: self.parent_scope,
            anchor: self.anchor,
            then_arm: self.then_arm.copy(),
            else_arm: copy_opt(&self.else_arm),
            flow: self.flow,
        }
    }

    fn same(&self, other: &Self) -> (r: bool) {
        self.id == other.id && self.parent_scope == other.parent_scope && self.anchor
            == other.anchor && self.then_arm.same(&other.then_arm) && same_opt(
            &self.else_arm,
            &other.else_arm,
        ) && self.flow == other.flow
    }
}

impl BranchPlan {
    pub fn parent_scope(&self) -> (r: ScopeId)
        ensures
            r == self@.parent_scope,
    {
        self.parent_scope
    }

    pub fn anchor(&self) -> (r: Span)
        ensures
            r == self@.anchor,
    {
        self.anchor
    }

    pub fn then_arm(&self) -> (r: &BranchArmPlan)
        ensures
            r@ == self@.then_arm,
    {
        &self.then_arm
    }

    pub fn else_arm(&self) -> (r: Option<&BranchArmPlan>)
        ensures
            opt_view(r) == self@.else_arm,
    {
        match &self.else_arm {
            Some(p) => Some(p),
            None => None,
        }
    }

    pub fn flow(&self) -> (r: FlowSummary)
        ensures
            r == self@.flow,
    {
        self.flow
    }
}

#[derive(Debug, PartialEq, Eq)]
pub struct LoopPlan {
    pub id: LoopId,
    pub parent_scope: ScopeId,
    pub keyword_span: Span,
    pub condition_span: Span,
    pub body: BlockId,
    pub body_scope: ScopeId,
    pub body_flow: FlowSummary,
    pub backedge: Option<ExitRoute>,
    pub effect_key: EffectSiteKey,
    pub flow: FlowSummary,
}

pub ghost struct LoopV {
    pub id: LoopId,
    pub parent_scope: ScopeId,
    pub keyword_span: Span,
    pub condition_span: Span,
    pub body: BlockId,
    pub body_scope: ScopeId,
    pub body_flow: FlowSummary,
    pub backedge: Option<RouteV>,
    pub effect_key: EffectV,
    pub flow: FlowSummary,
}

impl View for LoopPlan {
    type V = LoopV;

    open spec fn view(&self) -> LoopV {
        LoopV {
            id: self.id,
            parent_scope: self.parent_scope,
            keyword_span: self.keyword_span,
            condition_span: self.condition_span,
            body: self.body,
            body_scope: self.body_scope,
            body_flow: self.body_flow,
            backedge: opt_view(self.backedge),
            effect_key: self.effect_key@,
            flow: self.flow,
        }
    }
}

impl Repr for LoopPlan {
    fn copy(&self) -> (r: Self) {
        LoopPlan {
            id: self.id,
            parent_scope: self.parent_scope,
            keyword_span: self.keyword_span,
            condition_span: self.condition_span,
            body: self.body,
            body_scope: self.body_scope,
            body_flow: self.body_flow,
            backedge: copy_opt(&self.backedge),
            effect_key: self.effect_key.copy(),
            flow: self.flow,
        }
    }

    fn same(&self, other: &Self) -> (r: bool) {
        self.id == other.id && self.parent_scope == other.parent_scope && self.keyword_span
            == other.keyword_span && self.condition_span == other.condition_span && self.body
            == other.body && self.body_scope == other.body_scope && self.body_flow
            == other.body_flow && same_opt(&self.backedge, &other.backedge) && self.effect_key.same(
            &other.effect_key,
        ) && self.flow == other.flow
    }
}

impl LoopPlan {
    pub fn condition_span(&self) -> (r: Span)
        ensures
            r == self@.condition_span,
    {
        self.condition_span
    }

    pub fn body(&self) -> (r: BlockId)
        ensures
            r == self@.body,
    {
        self.body
    }

    pub fn body_scope(&self) -> (r: ScopeId)
        ensures
            r == self@.body_scope,
    {
        self.body_scope
    }

    pub fn body_flow(&self) -> (r: FlowSummary)
        ensures
            r == self@.body_flow,
    {
        self.body_flow
    }

    pub fn backedge(&self) -> (r: Option<&ExitRoute>)
        ensures
            opt_view(r) == self@.backedge,
    {
        match &self.backedge {
            Some(p) => Some(p),
            None => None,
        }
    }

    pub fn effect_key(&self) -> (r: &EffectSiteKey)
        ensures
            r@ == self@.effect_key,
    {
        &self.effect_key
    }
}

/// How a closed exposure gives its array back.
#[derive(Debug, PartialEq, Eq)]
pub struct ExposureRebuildAction {
    pub owner: Place,
    pub owner_span: Span,
    pub owner_ty: Ty,
    pub mutability: Mutability,
    pub pointer: Place,
    pub resource: Place,
    pub keyword_span: Span,
}

pub ghost struct RebuildV {
    pub owner: PlaceV,
    pub owner_span: Span,
    pub owner_ty: Ty,
    pub mutability: Mutability,
    pub pointer: PlaceV,
    pub resource: PlaceV,
    pub keyword_span: Span,
}

impl View for ExposureRebuildAction {
    type V = RebuildV;

    open spec fn view(&self) -> RebuildV {
        RebuildV {
            owner: self.owner@,
            owner_span: self.owner_span,
            owner_ty: self.owner_ty,
            mutability: self.mutability,
            pointer: self.pointer@,
            resource: self.resource@,
            keyword_span: self.keyword_span,
        }
    }
}

impl Repr for ExposureRebuildAction {
    fn copy(&self) -> (r: Self) {
        ExposureRebuildAction {
            owner: self.owner.copy(),
            owner_span: self.owner_span,
            owner_ty: self.owner_ty.clone(),
            mutability: self.mutability,
            pointer: self.pointer.copy(),
            resource: self.resource.copy(),
            keyword_span: self.keyword_span,
        }
    }

    fn same(&self, other: &Self) -> (r: bool) {
        self.owner.same(&other.owner) && self.owner_span == other.owner_span
            && self.owner_ty.same_ty(&other.owner_ty) && self.mutability == other.mutability
            && self.pointer.same(&other.pointer) && self.resource.same(&other.resource)
            && self.keyword_span == other.keyword_span
    }
}

impl ExposureRebuildAction {
    pub fn owner(&self) -> (r: &Place)
        ensures
            r@ == self@.owner,
    {
        &self.owner
    }

    pub fn owner_span(&self) -> (r: Span)
        ensures
            r == self@.owner_span,
    {
        self.owner_span
    }

    pub fn owner_ty(&self) -> (r: &Ty)
        ensures
            *r == self@.owner_ty,
    {
        &self.owner_ty
    }

    pub fn mutability(&self) -> (r: Mutability)
        ensures
            r == self@.mutability,
    {
        self.mutability
    }

    pub fn pointer(&self) -> (r: &Place)
        ensures
            r@ == self@.pointer,
    {
        &self.pointer
    }

    pub fn resource(&self) -> (r: &Place)
        ensures
            r@ == self@.resource,
    {
        &self.resource
    }

    pub fn keyword_span(&self) -> (r: Span)
        ensures
            r == self@.keyword_span,
    {
        self.keyword_span
    }
}

/// The normal end of an exposure, in execution order: capture the final bytes, end the body's
/// bindings, rebuild the owner, release the loan, and close the compiler's scratch storage.
#[derive(Debug, PartialEq, Eq)]
pub struct ExposureNormalPlan {
    pub capture: Place,
    pub body_exit: ExitRoute,
    pub rebuild: ExposureRebuildAction,
    pub release_loan: Place,
    pub close: ExitRoute,
    pub parent_scope: ScopeId,
}

pub ghost struct NormalV {
    pub capture: PlaceV,
    pub body_exit: RouteV,
    pub rebuild: RebuildV,
    pub release_loan: PlaceV,
    pub close: RouteV,
    pub parent_scope: ScopeId,
}

impl View for ExposureNormalPlan {
    type V = NormalV;

    open spec fn view(&self) -> NormalV {
        NormalV {
            capture: self.capture@,
            body_exit: self.body_exit@,
            rebuild: self.rebuild@,
            release_loan: self.release_loan@,
            close: self.close@,
            parent_scope: self.parent_scope,
        }
    }
}

impl Repr for ExposureNormalPlan {
    fn copy(&self) -> (r: Self) {
        ExposureNormalPlan {
            capture: self.capture.copy(),
            body_exit: self.body_exit.copy(),
            rebuild: self.rebuild.copy(),
            release_loan: self.release_loan.copy(),
            close: self.close.copy(),
            parent_scope: self.parent_scope,
        }
    }

    fn same(&self, other: &Self) -> (r: bool) {
        self.capture.same(&other.capture) && self.body_exit.same(&other.body_exit)
            && self.rebuild.same(&other.rebuild) && self.release_loan.same(&other.release_loan)
            && self.close.same(&other.close) && self.parent_scope == other.parent_scope
    }
}

impl ExposureNormalPlan {
    pub fn capture(&self) -> (r: &Place)
        ensures
            r@ == self@.capture,
    {
        &self.capture
    }

    pub fn body_exit(&self) -> (r: &ExitRoute)
        ensures
            r@ == self@.body_exit,
    {
        &self.body_exit
    }

    pub fn rebuild(&self) -> (r: &ExposureRebuildAction)
        ensures
            r@ == self@.rebuild,
    {
        &self.rebuild
    }

    pub fn release_loan(&self) -> (r: &Place)
        ensures
            r@ == self@.release_loan,
    {
        &self.release_loan
    }

    pub fn close(&self) -> (r: &ExitRoute)
        ensures
            r@ == self@.close,
    {
        &self.close
    }

    pub fn parent_scope(&self) -> (r: ScopeId)
        ensures
            r == self@.parent_scope,
    {
        self.parent_scope
    }
}

#[derive(Debug, PartialEq, Eq)]
pub struct ExposurePlan {
    pub id: ExposureId,
    pub parent_scope: ScopeId,
    pub keyword_span: Span,
    pub body: BlockId,
    pub body_scope: ScopeId,
    pub body_flow: FlowSummary,
    pub effect_key: EffectSiteKey,
    pub normal: Option<ExposureNormalPlan>,
    pub flow: FlowSummary,
}

pub ghost struct ExposureV {
    pub id: ExposureId,
    pub parent_scope: ScopeId,
    pub keyword_span: Span,
    pub body: BlockId,
    pub body_scope: ScopeId,
    pub body_flow: FlowSummary,
    pub effect_key: EffectV,
    pub normal: Option<NormalV>,
    pub flow: FlowSummary,
}

impl View for ExposurePlan {
    type V = ExposureV;

    open spec fn view(&self) -> ExposureV {
        ExposureV {
            id: self.id,
            parent_scope: self.parent_scope,
            keyword_span: self.keyword_span,
            body: self.body,
            body_scope: self.body_scope,
            body_flow: self.body_flow,
            effect_key: self.effect_key@,
            normal: opt_view(self.normal),
            flow: self.flow,
        }
    }
}

impl Repr for ExposurePlan {
    fn copy(&self) -> (r: Self) {
        ExposurePlan {
            id: self.id,
            parent_scope: self.parent_scope,
            keyword_span: self.keyword_span,
            body: self.body,
            body_scope: self.body_scope,
            body_flow: self.body_flow,
            effect_key: self.effect_key.copy(),
            normal: copy_opt(&self.normal),
            flow: self.flow,
        }
    }

    fn same(&self, other: &Self) -> (r: bool) {
        self.id == other.id && self.parent_scope == other.parent_scope && self.keyword_span
            == other.keyword_span && self.body == other.body && self.body_scope == other.body_scope
            && self.body_flow == other.body_flow && self.effect_key.same(&other.effect_key)
            && same_opt(&self.normal, &other.normal) && self.flow == other.flow
    }
}

impl ExposurePlan {
    pub fn body(&self) -> (r: BlockId)
        ensures
            r == self@.body,
    {
        self.body
    }

    pub fn body_scope(&self) -> (r: ScopeId)
        ensures
            r == self@.body_scope,
    {
        self.body_scope
    }

    pub fn body_flow(&self) -> (r: FlowSummary)
        ensures
            r == self@.body_flow,
    {
        self.body_flow
    }

    pub fn effect_key(&self) -> (r: &EffectSiteKey)
        ensures
            r@ == self@.effect_key,
    {
        &self.effect_key
    }

    pub fn normal(&self) -> (r: Option<&ExposureNormalPlan>)
        ensures
            opt_view(r) == self@.normal,
    {
        match &self.normal {
            Some(p) => Some(p),
            None => None,
        }
    }

    pub fn flow(&self) -> (r: FlowSummary)
        ensures
            r == self@.flow,
    {
        self.flow
    }
}

/// A source binding of one scope.
#[derive(Debug, PartialEq, Eq)]
pub struct SourceBinding {
    pub place: Place,
    pub ty: Ty,
    pub span: Span,
}

pub ghost struct BindingV {
    pub place: PlaceV,
    pub ty: Ty,
    pub span: Span,
}

impl View for SourceBinding {
    type V = BindingV;

    open spec fn view(&self) -> BindingV {
        BindingV { place: self.place@, ty: self.ty, span: self.span }
    }
}

impl Repr for SourceBinding {
    fn copy(&self) -> (r: Self) {
        SourceBinding { place: self.place.copy(), ty: self.ty.clone(), span: self.span }
    }

    fn same(&self, other: &Self) -> (r: bool) {
        self.place.same(&other.place) && self.ty.same_ty(&other.ty) && self.span == other.span
    }
}

/// One lexical scope: its bindings in declaration order.
#[derive(Debug)]
pub struct Scope {
    pub parent: Option<ScopeId>,
    pub kind: ScopeKind,
    pub anchor: Span,
    pub locals: Vec<Place>,
    pub bindings: Vec<SourceBinding>,
    pub drops: Vec<DropId>,
}

pub ghost struct ScopeV {
    pub parent: Option<ScopeId>,
    pub kind: ScopeKind,
    pub anchor: Span,
    pub locals: Seq<PlaceV>,
    pub bindings: Seq<BindingV>,
    pub drops: Seq<DropId>,
}

impl View for Scope {
    type V = ScopeV;

    open spec fn view(&self) -> ScopeV {
        ScopeV {
            parent: self.parent,
            kind: self.kind,
            anchor: self.anchor,
            locals: views(self.locals@),
            bindings: views(self.bindings@),
            drops: views(self.drops@),
        }
    }
}

impl Repr for Scope {
    fn copy(&self) -> (r: Self) {
        Scope {
            parent: self.parent,
            kind: self.kind,
            anchor: self.anchor,
            locals: copy_vec(&self.locals),
            bindings: copy_vec(&self.bindings),
            drops: copy_vec(&self.drops),
        }
    }

    fn same(&self, other: &Self) -> (r: bool) {
        self.parent == other.parent && self.kind == other.kind && self.anchor == other.anchor
            && same_vec(&self.locals, &other.locals) && same_vec(&self.bindings, &other.bindings)
            && same_vec(&self.drops, &other.drops)
    }
}

/// The control plan of one checked body.
///
/// It is the authority on scope identity, on which values a scope may destroy, on how locals and
/// fields are replaced, on what can trap, and on the order of every exit. Whether a value is live
/// at an exit is decided by whoever executes the body.
#[derive(Debug)]
pub struct BodyPlan {
    pub owner: CallOwner,
    pub blocks: Vec<BlockPlan>,
    pub branches: Vec<BranchPlan>,
    pub branch_ids: Vec<SiteEntry>,
    pub loops: Vec<LoopPlan>,
    pub loop_ids: Vec<SiteEntry>,
    pub exposures: Vec<ExposurePlan>,
    pub exposure_ids: Vec<SiteEntry>,
    pub scopes: Vec<Scope>,
    pub scope_ids: Vec<ScopeEntry>,
    pub candidates: Vec<DropCandidate>,
    pub candidate_ids: Vec<CandidateEntry>,
    pub compiler_temps: Vec<TempEntry>,
    pub assignments: Vec<AssignmentAction>,
    pub assignment_ids: Vec<SiteEntry>,
    pub field_assignments: Vec<FieldAssignmentAction>,
    pub field_assignment_ids: Vec<SiteEntry>,
    pub temporary_drops: Vec<TemporaryDropAction>,
    pub temporary_drop_ids: Vec<SiteEntry>,
    pub return_sites: Vec<SiteKey>,
    pub trap_sites: Vec<TrapSite>,
    pub frame_scope: ScopeId,
    pub body_scope: ScopeId,
    pub body_block: BlockId,
}

pub ghost struct PlanV {
    pub owner: OwnerV,
    pub blocks: Seq<BlockV>,
    pub branches: Seq<BranchV>,
    pub branch_ids: Seq<SiteEntry>,
    pub loops: Seq<LoopV>,
    pub loop_ids: Seq<SiteEntry>,
    pub exposures: Seq<ExposureV>,
    pub exposure_ids: Seq<SiteEntry>,
    pub scopes: Seq<ScopeV>,
    pub scope_ids: Seq<ScopeEntry>,
    pub candidates: Seq<CandidateV>,
    pub candidate_ids: Seq<CandidateEntryV>,
    pub compiler_temps: Seq<TempV>,
    pub assignments: Seq<AssignV>,
    pub assignment_ids: Seq<SiteEntry>,
    pub field_assignments: Seq<FieldAssignV>,
    pub field_assignment_ids: Seq<SiteEntry>,
    pub temporary_drops: Seq<TempDropV>,
    pub temporary_drop_ids: Seq<SiteEntry>,
    pub return_sites: Seq<SiteKey>,
    pub trap_sites: Seq<TrapSiteV>,
    pub frame_scope: ScopeId,
    pub body_scope: ScopeId,
    pub body_block: BlockId,
}

impl View for BodyPlan {
    type V = PlanV;

    open spec fn view(&self) -> PlanV {
        PlanV {
            owner: self.owner@,
            blocks: views(self.blocks@),
            branches: views(self.branches@),
            branch_ids: views(self.branch_ids@),
            loops: views(self.loops@),
            loop_ids: views(self.loop_ids@),
            exposures: views(self.exposures@),
            exposure_ids: views(self.exposure_ids@),
            scopes: views(self.scopes@),
            scope_ids: views(self.scope_ids@),
            candidates: views(self.candidates@),
            candidate_ids: views(self.candidate_ids@),
            compiler_temps: views(self.compiler_temps@),
            assignments: views(self.assignments@),
            assignment_ids: views(self.assignment_ids@),
            field_assignments: views(self.field_assignments@),
            field_assignment_ids: views(self.field_assignment_ids@),
            temporary_drops: views(self.temporary_drops@),
            temporary_drop_ids: views(self.temporary_drop_ids@),
            return_sites: views(self.return_sites@),
            trap_sites: views(self.trap_sites@),
            frame_scope: self.frame_scope,
            body_scope: self.body_scope,
            body_block: self.body_block,
        }
    }
}

impl Repr for BodyPlan {
    fn copy(&self) -> (r: Self) {
        BodyPlan {
            owner: self.owner.copy(),
            blocks: copy_vec(&self.blocks),
            branches: copy_vec(&self.branches),
            branch_ids: copy_vec(&self.branch_ids),
            loops: copy_vec(&self.loops),
            loop_ids: copy_vec(&self.loop_ids),
            exposures: copy_vec(&self.exposures),
            exposure_ids: copy_vec(&self.exposure_ids),
            scopes: copy_vec(&self.scopes),
            scope_ids: copy_vec(&self.scope_ids),
            candidates: copy_vec(&self.candidates),
            candidate_ids: copy_vec(&self.candidate_ids),
            compiler_temps: copy_vec(&self.compiler_temps),
            assignments: copy_vec(&self.assignments),
            assignment_ids: copy_vec(&self.assignment_ids),
            field_assignments: copy_vec(&self.field_assignments),
            field_assignment_ids: copy_vec(&self.field_assignment_ids),
            temporary_drops: copy_vec(&self.temporary_drops),
            temporary_drop_ids: copy_vec(&self.temporary_drop_ids),
            return_sites: copy_vec(&self.return_sites),
            trap_sites: copy_vec(&self.trap_sites),
            frame_scope: self.frame_scope,
            body_scope: self.body_scope,
            body_block: self.body_block,
        }
    }

    fn same(&self, other: &Self) -> (r: bool) {
        self.owner.same(&other.owner) && same_vec(&self.blocks, &other.blocks) && same_vec(
            &self.branches,
            &other.branches,
        ) && same_vec(&self.branch_ids, &other.branch_ids) && same_vec(&self.loops, &other.loops)
            && same_vec(&self.loop_ids, &other.loop_ids) && same_vec(
            &self.exposures,
            &other.exposures,
        ) && same_vec(&self.exposure_ids, &other.exposure_ids) && same_vec(
            &self.scopes,
            &other.scopes,
        ) && same_vec(&self.scope_ids, &other.scope_ids) && same_vec(
            &self.candidates,
            &other.candidates,
        ) && same_vec(&self.candidate_ids, &other.candidate_ids) && same_vec(
            &self.compiler_temps,
            &other.compiler_temps,
        ) && same_vec(&self.assignments, &other.assignments) && same_vec(
            &self.assignment_ids,
            &other.assignment_ids,
        ) && same_vec(&self.field_assignments, &other.field_assignments) && same_vec(
            &self.field_assignment_ids,
            &other.field_assignment_ids,
        ) && same_vec(&self.temporary_drops, &other.temporary_drops) && same_vec(
            &self.temporary_drop_ids,
            &other.temporary_drop_ids,
        ) && same_vec(&self.return_sites, &other.return_sites) && same_vec(
            &self.trap_sites,
            &other.trap_sites,
        ) && self.frame_scope == other.frame_scope && self.body_scope == other.body_scope
            && self.body_block == other.body_block
    }
}

} // verus!
