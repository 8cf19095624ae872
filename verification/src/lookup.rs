//! Exact lookups and exit routes of a control plan.
use vstd::prelude::*;

use crate::ast::{Clause, Expr, Stmt, Ty};
use crate::drops::{
    agrees, drop_action_of, plan_err, trap_route_v, ActionV, ErrV, ExitKind, ExitRoute, PlanError,
    RouteV, ValueDropAction,
};
use crate::outline::{BlockId, BlockPlan, DropId, ScopeId, ScopeKind};
use crate::place::{
    named_place, CallOwner, Place, PlaceV, SinkV, TransferV, ValueTransferKey, ValueTransferSink,
};
use crate::plan::{
    scope_kind_tag, scope_kind_text, temp_kind_tag, temp_kind_text, AssignV, AssignmentAction,
    AssignmentStaging, BodyPlan, BranchPlan, BranchV, CandidateEntry, CandidateEntryV, CandidateV,
    CompilerTempKey, CompilerTempKind, DropCandidate, ExposurePlan, ExposureV, FieldAssignV,
    FieldAssignmentAction, LoopPlan, LoopV, PlanV, ReturnRoutes, ReturnV, ScopeEntry, SiteEntry,
    SiteKey, StagingV, TempDropV, TempEntry, TempV, TemporaryDropAction,
};
use crate::repr::{group_views, opt_view, same_opt, views, Repr};
use crate::span::Span;
use crate::text::{cat3, cat5};
use crate::traps::{
    agrees_seq, checked_expression_ty, checked_ty, direct_expression_traps, expr_traps, DirectV,
    TrapKeyV, TrapKindV, TrapSite, TrapSiteKey, TrapSiteKind, TrapSiteV,
};

verus! {

broadcast use group_views;

// ------------------------------------------------------------------------------------------
// Index tables
// ------------------------------------------------------------------------------------------

/// The table position of a site, searching from entry `i`.
pub open spec fn site_from(ids: Seq<SiteEntry>, key: SiteKey, i: nat) -> Option<usize>
    decreases ids.len() - i,
{
    if i >= ids.len() {
        None
    } else if ids[i as int].key == key {
        Some(ids[i as int].index)
    } else {
        site_from(ids, key, i + 1)
    }
}

/// The table position of a site.
pub open spec fn site_index(ids: Seq<SiteEntry>, key: SiteKey) -> Option<usize> {
    site_from(ids, key, 0)
}

pub fn find_site(ids: &Vec<SiteEntry>, key: SiteKey) -> (r: Option<usize>)
    ensures
        r == site_index(views(ids@), key),
        r matches Some(n) ==> exists|k: int|
            0 <= k < ids@.len() && (#[trigger] ids@[k]).key == key && ids@[k].index == n,
{
    let n: usize = ids.len();
    let mut i: usize = 0;
    while i < n
        invariant
            n == ids@.len(),
            i <= n,
            site_index(views(ids@), key) == site_from(views(ids@), key, i as nat),
        decreases n - i,
    {
        if ids[i].key == key {
            return Some(ids[i].index);
        }
        i = i + 1;
    }
    None
}

/// The index with `key` at `index`, searching from entry `i`: an entry of that key is replaced.
pub open spec fn put_site_from(ids: Seq<SiteEntry>, key: SiteKey, index: usize, i: nat) -> Seq<
    SiteEntry,
>
    decreases ids.len() - i,
{
    if i >= ids.len() {
        ids.push(SiteEntry { key, index })
    } else if ids[i as int].key == key {
        ids.update(i as int, SiteEntry { key, index })
    } else {
        put_site_from(ids, key, index, i + 1)
    }
}

pub open spec fn put_site(ids: Seq<SiteEntry>, key: SiteKey, index: usize) -> Seq<SiteEntry> {
    put_site_from(ids, key, index, 0)
}

/// Enters a site, and whether its key was there already.
pub fn enter_site(ids: &mut Vec<SiteEntry>, key: SiteKey, index: usize) -> (r: bool)
    ensures
        r == (site_index(views(old(ids)@), key) is Some),
        views(final(ids)@) == put_site(views(old(ids)@), key, index),
        !r ==> final(ids)@ == old(ids)@.push(SiteEntry { key, index }),
{
    let n: usize = ids.len();
    let mut i: usize = 0;
    while i < n
        invariant
            n == ids@.len(),
            i <= n,
            *ids == *old(ids),
            site_index(views(ids@), key) == site_from(views(ids@), key, i as nat),
            put_site(views(ids@), key, index) == put_site_from(
                views(ids@),
                key,
                index,
                i as nat,
            ),
        decreases n - i,
    {
        if ids[i].key == key {
            ids.set(i, SiteEntry { key, index });
            assert(views(ids@) =~= views(old(ids)@).update(
                i as int,
                SiteEntry { key, index },
            ));
            return true;
        }
        i = i + 1;
    }
    ids.push(SiteEntry { key, index });
    assert(views(ids@) =~= views(old(ids)@).push(SiteEntry { key, index }));
    false
}

/// The scope at an anchor, searching from entry `i`.
pub open spec fn scope_from(
    ids: Seq<ScopeEntry>,
    kind: ScopeKind,
    anchor: Span,
    i: nat,
) -> Option<ScopeId>
    decreases ids.len() - i,
{
    if i >= ids.len() {
        None
    } else if ids[i as int].kind == kind && ids[i as int].anchor == anchor {
        Some(ids[i as int].id)
    } else {
        scope_from(ids, kind, anchor, i + 1)
    }
}

/// The scope at an anchor.
pub open spec fn scope_at(ids: Seq<ScopeEntry>, kind: ScopeKind, anchor: Span) -> Option<ScopeId> {
    scope_from(ids, kind, anchor, 0)
}

pub fn find_scope(ids: &Vec<ScopeEntry>, kind: ScopeKind, anchor: Span) -> (r: Option<ScopeId>)
    ensures
        r == scope_at(views(ids@), kind, anchor),
        r matches Some(n) ==> exists|k: int| 0 <= k < ids@.len() && (#[trigger] ids@[k]).id == n,
{
    let n: usize = ids.len();
    let mut i: usize = 0;
    while i < n
        invariant
            n == ids@.len(),
            i <= n,
            scope_at(views(ids@), kind, anchor) == scope_from(
                views(ids@),
                kind,
                anchor,
                i as nat,
            ),
        decreases n - i,
    {
        if ids[i].kind == kind && ids[i].anchor == anchor {
            return Some(ids[i].id);
        }
        i = i + 1;
    }
    None
}

/// The drop candidate of a place, searching from entry `i`.
pub open spec fn candidate_from(ids: Seq<CandidateEntryV>, place: PlaceV, i: nat) -> Option<DropId>
    decreases ids.len() - i,
{
    if i >= ids.len() {
        None
    } else if ids[i as int].place == place {
        Some(ids[i as int].id)
    } else {
        candidate_from(ids, place, i + 1)
    }
}

/// The drop candidate of a place.
pub open spec fn candidate_at(ids: Seq<CandidateEntryV>, place: PlaceV) -> Option<DropId> {
    candidate_from(ids, place, 0)
}

pub fn find_candidate(ids: &Vec<CandidateEntry>, place: &Place) -> (r: Option<DropId>)
    ensures
        r == candidate_at(views(ids@), place@),
        r matches Some(n) ==> exists|k: int| 0 <= k < ids@.len() && (#[trigger] ids@[k]).id == n,
{
    let n: usize = ids.len();
    let mut i: usize = 0;
    while i < n
        invariant
            n == ids@.len(),
            i <= n,
            candidate_at(views(ids@), place@) == candidate_from(views(ids@), place@, i as nat),
        decreases n - i,
    {
        if ids[i].place.same(place) {
            return Some(ids[i].id);
        }
        i = i + 1;
    }
    None
}

/// The place of a compiler temporary, searching from entry `i`.
pub open spec fn temp_from(temps: Seq<TempV>, key: CompilerTempKey, i: nat) -> Option<PlaceV>
    decreases temps.len() - i,
{
    if i >= temps.len() {
        None
    } else if temps[i as int].key == key {
        Some(temps[i as int].place)
    } else {
        temp_from(temps, key, i + 1)
    }
}

/// The place of a compiler temporary.
pub open spec fn temp_at(temps: Seq<TempV>, key: CompilerTempKey) -> Option<PlaceV> {
    temp_from(temps, key, 0)
}

pub fn find_temp<'a>(temps: &'a Vec<TempEntry>, key: CompilerTempKey) -> (r: Option<&'a Place>)
    ensures
        opt_view(r) == temp_at(views(temps@), key),
{
    let n: usize = temps.len();
    let mut i: usize = 0;
    while i < n
        invariant
            n == temps@.len(),
            i <= n,
            temp_at(views(temps@), key) == temp_from(views(temps@), key, i as nat),
        decreases n - i,
    {
        if temps[i].key == key {
            return Some(&temps[i].place);
        }
        i = i + 1;
    }
    None
}

/// The trap site of a key, searching from site `i`.
pub open spec fn trap_from(sites: Seq<TrapSiteV>, key: TrapKeyV, i: nat) -> Option<nat>
    decreases sites.len() - i,
{
    if i >= sites.len() {
        None
    } else if sites[i as int].key == key {
        Some(i)
    } else {
        trap_from(sites, key, i + 1)
    }
}

/// The table position of a trap key.
pub open spec fn trap_index(sites: Seq<TrapSiteV>, key: TrapKeyV) -> Option<nat> {
    trap_from(sites, key, 0)
}

pub fn find_trap(sites: &Vec<TrapSite>, key: &TrapSiteKey) -> (r: Option<usize>)
    ensures
        match (r, trap_index(views(sites@), key@)) {
            (Some(a), Some(b)) => a == b && a < sites@.len() && sites@[a as int]@.key == key@,
            (None, None) => true,
            _ => false,
        },
{
    let n: usize = sites.len();
    let mut i: usize = 0;
    while i < n
        invariant
            n == sites@.len(),
            i <= n,
            trap_index(views(sites@), key@) == trap_from(views(sites@), key@, i as nat),
        decreases n - i,
    {
        if sites[i].key.same(key) {
            return Some(i);
        }
        i = i + 1;
    }
    None
}

/// Whether a list of sites holds one.
pub fn has_site(sites: &Vec<SiteKey>, key: SiteKey) -> (r: bool)
    ensures
        r == views(sites@).contains(key),
{
    let n: usize = sites.len();
    let mut i: usize = 0;
    while i < n
        invariant
            n == sites@.len(),
            i <= n,
            forall|k: int| 0 <= k < i ==> sites@[k] != key,
        decreases n - i,
    {
        if sites[i] == key {
            assert(views(sites@)[i as int] == key);
            return true;
        }
        i = i + 1;
    }
    false
}

// ------------------------------------------------------------------------------------------
// Well-formedness
// ------------------------------------------------------------------------------------------

impl PlanV {
    /// Every index entry points into its table, and every scope's parent precedes it.
    pub open spec fn wf(self) -> bool {
        &&& self.frame_scope.0 < self.scopes.len()
        &&& self.body_scope.0 < self.scopes.len()
        &&& self.body_block.0 < self.blocks.len()
        &&& forall|i: int|
            0 <= i < self.scopes.len() ==> ((#[trigger] self.scopes[i]).parent matches Some(p)
                ==> p.0 < i)
        &&& forall|i: int|
            0 <= i < self.scope_ids.len() ==> (#[trigger] self.scope_ids[i]).id.0
                < self.scopes.len()
        &&& forall|i: int|
            0 <= i < self.branch_ids.len() ==> (#[trigger] self.branch_ids[i]).index
                < self.branches.len()
        &&& forall|i: int|
            0 <= i < self.loop_ids.len() ==> (#[trigger] self.loop_ids[i]).index
                < self.loops.len()
        &&& forall|i: int|
            0 <= i < self.exposure_ids.len() ==> (#[trigger] self.exposure_ids[i]).index
                < self.exposures.len()
        &&& forall|i: int|
            0 <= i < self.assignment_ids.len() ==> (#[trigger] self.assignment_ids[i]).index
                < self.assignments.len()
        &&& forall|i: int|
            0 <= i < self.candidate_ids.len() ==> (#[trigger] self.candidate_ids[i]).id.0
                < self.candidates.len()
    }

    // --------------------------------------------------------------------------------------
    // Routes
    // --------------------------------------------------------------------------------------
    /// What dies with the first `n` scopes of a list: each scope's locals, last declared first.
    pub open spec fn clears_of(self, scopes: Seq<ScopeId>, n: nat) -> Seq<PlaceV>
        decreases n,
    {
        if n == 0 || n > scopes.len() {
            Seq::empty()
        } else {
            self.clears_of(scopes, (n - 1) as nat)
                + self.scopes[scopes[n - 1].0 as int].locals.reverse()
        }
    }

    /// What the first `n` scopes of a list destroy: each scope's candidates, last declared first.
    pub open spec fn drops_of(self, scopes: Seq<ScopeId>, n: nat) -> Seq<DropId>
        decreases n,
    {
        if n == 0 || n > scopes.len() {
            Seq::empty()
        } else {
            self.drops_of(scopes, (n - 1) as nat)
                + self.scopes[scopes[n - 1].0 as int].drops.reverse()
        }
    }

    /// The exit through a list of scopes, innermost first.
    pub open spec fn route(self, kind: ExitKind, scopes: Seq<ScopeId>) -> RouteV {
        RouteV {
            kind,
            scopes,
            clears: self.clears_of(scopes, scopes.len()),
            drops: self.drops_of(scopes, scopes.len()),
        }
    }

    /// The scopes from `start` outwards, up to and without the frame.
    pub open spec fn lexical_chain(self, start: ScopeId) -> Seq<ScopeId>
        decreases start.0,
    {
        if start == self.frame_scope {
            Seq::empty()
        } else {
            match self.scopes[start.0 as int].parent {
                Some(p) => if p.0 < start.0 {
                    seq![start] + self.lexical_chain(p)
                } else {
                    seq![start]
                },
                None => seq![start],
            }
        }
    }

    /// The cleanup of a return from `start`.
    pub open spec fn return_from(self, start: ScopeId, result_slot: Option<PlaceV>) -> ReturnV {
        ReturnV {
            lexical: self.route(ExitKind::Return, self.lexical_chain(start)),
            frame: self.route(ExitKind::Return, seq![self.frame_scope]),
            result_slot,
        }
    }

    /// The cleanup at the ordinary end of one scope. A loop body ends at its back edge.
    pub open spec fn scope_exit(self, scope: ScopeId) -> RouteV {
        self.route(
            if self.scopes[scope.0 as int].kind == ScopeKind::LoopBody {
                ExitKind::Backedge
            } else {
                ExitKind::Fallthrough
            },
            seq![scope],
        )
    }

    pub open spec fn explicit_return(self, span: Span, scope: ScopeId) -> Result<ReturnV, ErrV> {
        if !self.return_sites.contains(SiteKey { scope, span }) {
            Err(
                plan_err(
                    span,
                    "control plan has no return at this span in the active lexical scope"@,
                ),
            )
        } else {
            Ok(
                self.return_from(
                    scope,
                    temp_at(
                        self.compiler_temps,
                        CompilerTempKey {
                            scope,
                            anchor: span,
                            kind: CompilerTempKind::ReturnValue,
                        },
                    ),
                ),
            )
        }
    }

    // --------------------------------------------------------------------------------------
    // Exact lookups
    // --------------------------------------------------------------------------------------
    pub open spec fn branch(
        self,
        parent_scope: ScopeId,
        anchor: Span,
        has_else: bool,
    ) -> Result<BranchV, ErrV> {
        match site_index(self.branch_ids, SiteKey { scope: parent_scope, span: anchor }) {
            None => Err(
                plan_err(anchor, "control plan has no branch in the active parent scope"@),
            ),
            Some(index) => if (self.branches[index as int].else_arm is Some) != has_else {
                Err(
                    plan_err(
                        anchor,
                        "checked branch else-arm presence changed after checking"@,
                    ),
                )
            } else {
                Ok(self.branches[index as int])
            },
        }
    }

    pub open spec fn loop_plan(
        self,
        parent_scope: ScopeId,
        keyword_span: Span,
        condition_span: Span,
    ) -> Result<LoopV, ErrV> {
        match site_index(self.loop_ids, SiteKey { scope: parent_scope, span: keyword_span }) {
            None => Err(
                plan_err(keyword_span, "control plan has no loop in the active parent scope"@),
            ),
            Some(index) => if self.loops[index as int].condition_span != condition_span {
                Err(
                    plan_err(
                        condition_span,
                        "checked loop condition identity changed after checking"@,
                    ),
                )
            } else {
                Ok(self.loops[index as int])
            },
        }
    }

    pub open spec fn exposure_plan(
        self,
        parent_scope: ScopeId,
        keyword_span: Span,
    ) -> Result<ExposureV, ErrV> {
        match site_index(self.exposure_ids, SiteKey { scope: parent_scope, span: keyword_span }) {
            None => Err(
                plan_err(
                    keyword_span,
                    "control plan has no exposure in the active parent scope"@,
                ),
            ),
            Some(index) => Ok(self.exposures[index as int]),
        }
    }

    pub open spec fn scope_for(self, kind: ScopeKind, anchor: Span) -> Result<ScopeId, ErrV> {
        match scope_at(self.scope_ids, kind, anchor) {
            None => Err(
                plan_err(
                    anchor,
                    "control plan has no "@ + scope_kind_text(kind)
                        + " scope at this anchor"@,
                ),
            ),
            Some(id) => Ok(id),
        }
    }

    pub open spec fn candidate_for(self, place: PlaceV) -> Option<CandidateV> {
        match candidate_at(self.candidate_ids, place) {
            None => None,
            Some(id) => Some(self.candidates[id.0 as int]),
        }
    }

    pub open spec fn compiler_temp(
        self,
        scope: ScopeId,
        anchor: Span,
        kind: CompilerTempKind,
    ) -> Result<PlaceV, ErrV> {
        match temp_at(self.compiler_temps, CompilerTempKey { scope, anchor, kind }) {
            None => Err(
                plan_err(
                    anchor,
                    "control plan has no "@ + temp_kind_text(kind)
                        + " temporary in the active scope"@,
                ),
            ),
            Some(place) => Ok(place),
        }
    }

    pub open spec fn assignment(
        self,
        scope: ScopeId,
        span: Span,
        destination: PlaceV,
    ) -> Result<AssignV, ErrV> {
        match site_index(self.assignment_ids, SiteKey { scope, span }) {
            None => Err(
                plan_err(
                    span,
                    "control plan has no assignment at this span in the active lexical scope"@,
                ),
            ),
            Some(index) => {
                let action = self.assignments[index as int];
                if action.destination != destination {
                    Err(
                        plan_err(
                            span,
                            "control assignment at this span targets `"@
                                + action.destination.text() + "`, not `"@ + destination.text()
                                + "`"@,
                        ),
                    )
                } else {
                    Ok(action)
                }
            },
        }
    }

    /// The staging that a field assignment's cleanup calls for.
    pub open spec fn field_staging(
        self,
        scope: ScopeId,
        span: Span,
        drop_action: Option<ActionV>,
    ) -> Result<StagingV, ErrV> {
        if drop_action is Some {
            match self.compiler_temp(scope, span, CompilerTempKind::FieldAssignmentValue) {
                Err(e) => Err(e),
                Ok(place) => Ok(StagingV::Temporary(place)),
            }
        } else {
            Ok(StagingV::Direct)
        }
    }

    pub open spec fn field_assignment(
        self,
        scope: ScopeId,
        span: Span,
        destination: PlaceV,
        value: Expr,
    ) -> Result<FieldAssignV, ErrV> {
        match site_index(self.field_assignment_ids, SiteKey { scope, span }) {
            None => Err(
                plan_err(
                    span,
                    "control plan has no field assignment at this span in the active lexical scope"@,
                ),
            ),
            Some(index) => if index >= self.field_assignments.len() {
                Err(
                    plan_err(
                        span,
                        "field-assignment index no longer resolves to a retained action"@,
                    ),
                )
            } else {
                let action = self.field_assignments[index as int];
                match checked_ty(value, "field-assignment value"@) {
                    Err(e) => Err(e),
                    Ok(ty) => match drop_action_of(ty, span) {
                        Err(e) => Err(e),
                        Ok(expected) => if action.scope != scope || action.span != span
                            || action.destination != destination || action.ty != ty
                            || action.transfer_key != (TransferV {
                            owner: self.owner,
                            span: value.span,
                            sink: SinkV::FieldAssignment(destination),
                        }) || action.drop_action != expected {
                            Err(
                                plan_err(
                                    span,
                                    "control field assignment no longer matches destination `"@
                                        + destination.text()
                                        + "`, checked RHS type/span, or transfer identity"@,
                                ),
                            )
                        } else {
                            match self.field_staging(scope, span, expected) {
                                Err(e) => Err(e),
                                Ok(staging) => if action.staging != staging {
                                    Err(
                                        plan_err(
                                            span,
                                            "field-assignment staging no longer matches its checked cleanup policy"@,
                                        ),
                                    )
                                } else {
                                    Ok(action)
                                },
                            }
                        },
                    },
                }
            },
        }
    }

    pub open spec fn temporary_drop(self, scope: ScopeId, e: Expr) -> Result<TempDropV, ErrV> {
        match site_index(self.temporary_drop_ids, SiteKey { scope, span: e.span }) {
            None => Err(
                plan_err(
                    e.span,
                    "control plan has no discarded class temporary at this span in the active lexical scope"@,
                ),
            ),
            Some(index) => if let Some(source) = named_place(e) {
                Err(
                    plan_err(
                        e.span,
                        "discarded class temporary unexpectedly names source place `"@
                            + source.text() + "`"@,
                    ),
                )
            } else {
                match checked_ty(e, "discarded class temporary"@) {
                    Err(err) => Err(err),
                    Ok(ty) => if index >= self.temporary_drops.len() {
                        Err(
                            plan_err(
                                e.span,
                                "discarded-class index no longer resolves to a retained action"@,
                            ),
                        )
                    } else {
                        let action = self.temporary_drops[index as int];
                        match self.compiler_temp(
                            scope,
                            e.span,
                            CompilerTempKind::DiscardedClassValue,
                        ) {
                            Err(err) => Err(err),
                            Ok(temporary) => match drop_action_of(ty, e.span) {
                                Err(err) => Err(err),
                                Ok(expected) => if !(ty is Class) {
                                    Err(
                                        plan_err(
                                            e.span,
                                            "discarded temporary action no longer targets a class value"@,
                                        ),
                                    )
                                } else if expected is Some && action.scope == scope && action.span
                                    == e.span && Some(action.drop_action) == expected
                                    && action.transfer_key == (TransferV {
                                    owner: self.owner,
                                    span: e.span,
                                    sink: SinkV::DiscardTemporary,
                                }) && action.temporary == temporary {
                                    Ok(action)
                                } else {
                                    Err(
                                        plan_err(
                                            e.span,
                                            "discarded class temporary no longer matches its type, compiler temporary, or terminal drop action"@,
                                        ),
                                    )
                                },
                            },
                        }
                    },
                }
            },
        }
    }

    /// The end of an exposure's scratch storage.
    pub open spec fn exposure_close(self, scope: ScopeId, anchor: Span) -> Result<RouteV, ErrV> {
        match self.compiler_temp(scope, anchor, CompilerTempKind::ExposureByte) {
            Err(e) => Err(e),
            Ok(byte) => match self.compiler_temp(scope, anchor, CompilerTempKind::ExposureIndex) {
                Err(e) => Err(e),
                Ok(index) => match self.compiler_temp(
                    scope,
                    anchor,
                    CompilerTempKind::ExposureLoan,
                ) {
                    Err(e) => Err(e),
                    Ok(loan) => Ok(
                        RouteV {
                            kind: ExitKind::ExposureClose,
                            scopes: Seq::empty(),
                            clears: seq![byte, index, loan],
                            drops: Seq::empty(),
                        },
                    ),
                },
            },
        }
    }

    /// The retained site of one trap, which must carry the empty route of a trap.
    pub open spec fn trap_site(self, key: TrapKeyV) -> Result<TrapSiteV, ErrV> {
        match trap_index(self.trap_sites, key) {
            None => Err(
                plan_err(
                    key.span,
                    "control plan has no "@ + key.kind.text()
                        + " trap site at this span in the active lexical scope"@,
                ),
            ),
            Some(index) => if self.trap_sites[index as int].route != trap_route_v() {
                Err(
                    plan_err(
                        key.span,
                        "control trap site does not carry the canonical empty no-unwind route"@,
                    ),
                )
            } else {
                Ok(self.trap_sites[index as int])
            },
        }
    }

    /// The retained sites of the first `n` of a list of traps.
    pub open spec fn trap_sites_of(self, keys: Seq<TrapKeyV>, n: nat) -> Result<
        Seq<TrapSiteV>,
        ErrV,
    >
        decreases n,
    {
        if n == 0 || n > keys.len() {
            Ok(Seq::empty())
        } else {
            match self.trap_sites_of(keys, (n - 1) as nat) {
                Err(e) => Err(e),
                Ok(before) => match self.trap_site(keys[n - 1]) {
                    Err(e) => Err(e),
                    Ok(site) => Ok(before.push(site)),
                },
            }
        }
    }

    /// The retained sites of what can trap in an expression itself.
    pub open spec fn expression_trap_sites(self, scope: ScopeId, e: Expr) -> Result<
        Seq<TrapSiteV>,
        ErrV,
    > {
        match expr_traps(e) {
            Err(err) => Err(err),
            Ok(direct) => self.trap_sites_of(in_scope(scope, direct), direct.len()),
        }
    }

    /// The retained sites of what can trap in a statement itself.
    pub open spec fn statement_trap_sites(self, scope: ScopeId, s: Stmt) -> Result<
        Seq<TrapSiteV>,
        ErrV,
    > {
        match stmt_traps(self, scope, s) {
            Err(err) => Err(err),
            Ok(keys) => self.trap_sites_of(keys, keys.len()),
        }
    }
}

/// Traps placed in one scope.
pub open spec fn in_scope(scope: ScopeId, direct: Seq<DirectV>) -> Seq<TrapKeyV> {
    Seq::new(
        direct.len(),
        |i: int| TrapKeyV { scope, span: direct[i].span, kind: direct[i].kind },
    )
}

/// The traps of a loop's invariants.
pub open spec fn invariant_traps(scope: ScopeId, invariants: Seq<Clause>) -> Seq<TrapKeyV> {
    Seq::new(
        invariants.len(),
        |i: int|
            TrapKeyV {
                scope,
                span: invariants[i].span,
                kind: TrapKindV::LoopInvariant(invariants[i].text@),
            },
    )
}

/// The traps of a loop's variant: a negative value, and a value that does not decrease.
pub open spec fn variant_traps(scope: ScopeId, variant: Option<Clause>) -> Seq<TrapKeyV> {
    match variant {
        None => Seq::empty(),
        Some(v) => seq![
            TrapKeyV { scope, span: v.span, kind: TrapKindV::LoopVariantNegative(v.text@) },
            TrapKeyV { scope, span: v.span, kind: TrapKindV::LoopVariantNonDecrease(v.text@) },
        ],
    }
}

/// What can trap in a statement itself, its expressions and inner blocks aside.
pub open spec fn stmt_traps(p: PlanV, scope: ScopeId, s: Stmt) -> Result<Seq<TrapKeyV>, ErrV> {
    match s {
        Stmt::Assert(clause) => Ok(
            seq![
                TrapKeyV {
                    scope,
                    span: clause.span,
                    kind: TrapKindV::InlineAssert(clause.text@),
                },
            ],
        ),
        Stmt::FieldStore { field, field_span, value, .. } => match checked_ty(
            value,
            "field-store value"@,
        ) {
            Err(e) => Err(e),
            Ok(element) => Ok(
                seq![
                    TrapKeyV {
                        scope,
                        span: field_span,
                        kind: TrapKindV::SelfFieldStore { field: field@, element },
                    },
                ],
            ),
        },
        Stmt::Store { array, array_span, value, .. } => match checked_ty(
            value,
            "array-store value"@,
        ) {
            Err(e) => Err(e),
            Ok(element) => Ok(
                seq![
                    TrapKeyV {
                        scope,
                        span: array_span,
                        kind: TrapKindV::ArrayStore { array: array@, element },
                    },
                ],
            ),
        },
        Stmt::While { invariants, variant, .. } => Ok(
            invariant_traps(scope, invariants@) + variant_traps(scope, variant),
        ),
        Stmt::SystemDealloc { kw_span, .. } => Ok(
            seq![TrapKeyV { scope, span: kw_span, kind: TrapKindV::SystemDealloc }],
        ),
        Stmt::Expose { kw_span, array, mutable, .. } => if mutable {
            match p.exposure_plan(scope, kw_span) {
                Err(e) => Err(e),
                Ok(exposure) => Ok(
                    seq![
                        TrapKeyV {
                            scope: exposure.body_scope,
                            span: kw_span,
                            kind: TrapKindV::ExposureClose { array: array@, mutable: true },
                        },
                    ],
                ),
            }
        } else {
            Ok(Seq::empty())
        },
        _ => Ok(Seq::empty()),
    }
}

fn reversed<T: Repr>(v: &Vec<T>, out: &mut Vec<T>)
    ensures
        views(final(out)@) == views(old(out)@) + views(v@).reverse(),
{
    let ghost start = views(out@);
    let n: usize = v.len();
    let mut i: usize = 0;
    while i < n
        invariant
            n == v@.len(),
            i <= n,
            views(out@) == start + views(v@).reverse().take(i as int),
        decreases n - i,
    {
        out.push(v[n - 1 - i].copy());
        assert(views(v@).reverse().take(i + 1) =~= views(v@).reverse().take(i as int).push(
            v@[n - 1 - i]@,
        ));
        assert(views(out@) =~= start + views(v@).reverse().take(i + 1));
        i = i + 1;
    }
    assert(views(v@).reverse().take(n as int) =~= views(v@).reverse());
}

impl BodyPlan {
    /// The exit through a list of scopes, innermost first.
    pub fn route(&self, kind: ExitKind, scopes: Vec<ScopeId>) -> (r: ExitRoute)
        requires
            forall|i: int| 0 <= i < scopes@.len() ==> (#[trigger] scopes@[i]).0 < self@.scopes.len(),
        ensures
            r@ == self@.route(kind, views(scopes@)),
    {
        let mut clears: Vec<Place> = Vec::new();
        let mut drops: Vec<DropId> = Vec::new();
        let n: usize = scopes.len();
        let mut i: usize = 0;
        while i < n
            invariant
                n == scopes@.len(),
                i <= n,
                forall|k: int|
                    0 <= k < scopes@.len() ==> (#[trigger] scopes@[k]).0 < self@.scopes.len(),
                views(clears@) == self@.clears_of(views(scopes@), i as nat),
                views(drops@) == self@.drops_of(views(scopes@), i as nat),
            decreases n - i,
        {
            let scope = &self.scopes[scopes[i].0];
            reversed(&scope.locals, &mut clears);
            reversed(&scope.drops, &mut drops);
            i = i + 1;
        }
        ExitRoute { kind, scopes, clears, drops }
    }

    /// The exit through one scope.
    pub fn route_one(&self, kind: ExitKind, scope: ScopeId) -> (r: ExitRoute)
        requires
            scope.0 < self@.scopes.len(),
        ensures
            r@ == self@.route(kind, seq![scope]),
    {
        let mut scopes: Vec<ScopeId> = Vec::new();
        scopes.push(scope);
        assert(views(scopes@) =~= seq![scope]);
        self.route(kind, scopes)
    }

    /// The cleanup of a return from `start`.
    pub fn return_from(&self, start: ScopeId, result_slot: Option<Place>) -> (r: ReturnRoutes)
        requires
            self@.wf(),
            start.0 < self@.scopes.len(),
        ensures
            r@ == self@.return_from(start, opt_view(result_slot)),
    {
        let mut lexical: Vec<ScopeId> = Vec::new();
        let mut cursor = start;
        let mut more = start != self.frame_scope;
        while more
            invariant
                self@.wf(),
                cursor.0 < self@.scopes.len(),
                more ==> cursor != self@.frame_scope,
                forall|k: int|
                    0 <= k < lexical@.len() ==> (#[trigger] lexical@[k]).0 < self@.scopes.len(),
                self@.lexical_chain(start) == views(lexical@) + (if more {
                    self@.lexical_chain(cursor)
                } else {
                    Seq::empty()
                }),
            decreases cursor.0, more as int,
        {
            lexical.push(cursor);
            assert(self@.scopes[cursor.0 as int] == self.scopes@[cursor.0 as int]@);
            match self.scopes[cursor.0].parent {
                Some(parent) => {
                    cursor = parent;
                    more = parent != self.frame_scope;
                },
                None => {
                    more = false;
                },
            }
            proof {
                reveal_with_fuel(PlanV::lexical_chain, 2);
                assert(self@.lexical_chain(start) =~= views(lexical@) + (if more {
                    self@.lexical_chain(cursor)
                } else {
                    Seq::empty()
                }));
            }
        }
        assert(self@.lexical_chain(start) =~= views(lexical@));
        ReturnRoutes {
            lexical: self.route(ExitKind::Return, lexical),
            frame: self.route_one(ExitKind::Return, self.frame_scope),
            result_slot,
        }
    }

    pub fn owner(&self) -> (r: &CallOwner)
        ensures
            r@ == self@.owner,
    {
        &self.owner
    }

    pub fn frame_scope(&self) -> (r: ScopeId)
        ensures
            r == self@.frame_scope,
    {
        self.frame_scope
    }

    pub fn body_scope(&self) -> (r: ScopeId)
        ensures
            r == self@.body_scope,
    {
        self.body_scope
    }

    pub fn body_block(&self) -> (r: &BlockPlan)
        requires
            self@.wf(),
        ensures
            r@ == self@.blocks[self@.body_block.0 as int],
    {
        &self.blocks[self.body_block.0]
    }

    pub fn block(&self, id: BlockId) -> (r: &BlockPlan)
        requires
            id.0 < self@.blocks.len(),
        ensures
            r@ == self@.blocks[id.0 as int],
    {
        &self.blocks[id.0]
    }

    pub fn branch(&self, parent_scope: ScopeId, anchor: Span, has_else: bool) -> (r: Result<
        &BranchPlan,
        PlanError,
    >)
        requires
            self@.wf(),
        ensures
            agrees(r, self@.branch(parent_scope, anchor, has_else)),
    {
        match find_site(&self.branch_ids, SiteKey { scope: parent_scope, span: anchor }) {
            None => Err(
                PlanError::new(anchor, "control plan has no branch in the active parent scope"),
            ),
            Some(index) => {
                proof {
                    let k = choose|k: int|
                        0 <= k < self.branch_ids@.len() && (#[trigger] self.branch_ids@[k]).index
                            == index;
                    assert(self@.branch_ids[k].index == index);
                }
                let plan = &self.branches[index];
                if plan.else_arm.is_some() != has_else {
                    return Err(
                        PlanError::new(
                            anchor,
                            "checked branch else-arm presence changed after checking",
                        ),
                    );
                }
                Ok(plan)
            },
        }
    }

    pub fn loop_plan(
        &self,
        parent_scope: ScopeId,
        keyword_span: Span,
        condition_span: Span,
    ) -> (r: Result<&LoopPlan, PlanError>)
        requires
            self@.wf(),
        ensures
            agrees(r, self@.loop_plan(parent_scope, keyword_span, condition_span)),
    {
        match find_site(&self.loop_ids, SiteKey { scope: parent_scope, span: keyword_span }) {
            None => Err(
                PlanError::new(keyword_span, "control plan has no loop in the active parent scope"),
            ),
            Some(index) => {
                proof {
                    let k = choose|k: int|
                        0 <= k < self.loop_ids@.len() && (#[trigger] self.loop_ids@[k]).index
                            == index;
                    assert(self@.loop_ids[k].index == index);
                }
                let plan = &self.loops[index];
                if plan.condition_span != condition_span {
                    return Err(
                        PlanError::new(
                            condition_span,
                            "checked loop condition identity changed after checking",
                        ),
                    );
                }
                Ok(plan)
            },
        }
    }

    pub fn exposure_plan(&self, parent_scope: ScopeId, keyword_span: Span) -> (r: Result<
        &ExposurePlan,
        PlanError,
    >)
        requires
            self@.wf(),
        ensures
            agrees(r, self@.exposure_plan(parent_scope, keyword_span)),
    {
        match find_site(&self.exposure_ids, SiteKey { scope: parent_scope, span: keyword_span }) {
            None => Err(
                PlanError::new(
                    keyword_span,
                    "control plan has no exposure in the active parent scope",
                ),
            ),
            Some(index) => {
                proof {
                    let k = choose|k: int|
                        0 <= k < self.exposure_ids@.len() && (
                        #[trigger] self.exposure_ids@[k]).index == index;
                    assert(self@.exposure_ids[k].index == index);
                }
                Ok(&self.exposures[index])
            },
        }
    }

    pub fn scope_for(&self, kind: ScopeKind, anchor: Span) -> (r: Result<ScopeId, PlanError>)
        ensures
            agrees(r, self@.scope_for(kind, anchor)),
            self@.wf() ==> (r matches Ok(id) ==> id.0 < self@.scopes.len()),
    {
        match find_scope(&self.scope_ids, kind, anchor) {
            None => Err(
                PlanError {
                    span: anchor,
                    message: cat3(
                        "control plan has no ",
                        scope_kind_tag(kind),
                        " scope at this anchor",
                    ),
                },
            ),
            Some(id) => {
                proof {
                    let k = choose|k: int|
                        0 <= k < self.scope_ids@.len() && (#[trigger] self.scope_ids@[k]).id == id;
                    assert(self@.scope_ids[k].id == id);
                }
                Ok(id)
            },
        }
    }

    /// Parent of a scope.
    pub fn scope_parent(&self, scope: ScopeId) -> (r: Option<ScopeId>)
        requires
            scope.0 < self@.scopes.len(),
        ensures
            r == self@.scopes[scope.0 as int].parent,
    {
        self.scopes[scope.0].parent
    }

    pub fn candidate(&self, id: DropId) -> (r: &DropCandidate)
        requires
            id.0 < self@.candidates.len(),
        ensures
            r@ == self@.candidates[id.0 as int],
    {
        &self.candidates[id.0]
    }

    pub fn candidate_for_place(&self, place: &Place) -> (r: Option<&DropCandidate>)
        requires
            self@.wf(),
        ensures
            opt_view(r) == self@.candidate_for(place@),
    {
        match find_candidate(&self.candidate_ids, place) {
            None => None,
            Some(id) => {
                proof {
                    let k = choose|k: int|
                        0 <= k < self.candidate_ids@.len() && (#[trigger] self.candidate_ids@[k]).id
                            == id;
                    assert(self@.candidate_ids[k].id == id);
                }
                Some(&self.candidates[id.0])
            },
        }
    }

    /// The cleanup at the ordinary end of one scope.
    pub fn scope_exit(&self, scope: ScopeId) -> (r: ExitRoute)
        requires
            scope.0 < self@.scopes.len(),
        ensures
            r@ == self@.scope_exit(scope),
    {
        let kind = if self.scopes[scope.0].kind == ScopeKind::LoopBody {
            ExitKind::Backedge
        } else {
            ExitKind::Fallthrough
        };
        self.route_one(kind, scope)
    }

    /// The routes of an explicit return, keyed by its range and its scope.
    pub fn explicit_return(&self, span: Span, scope: ScopeId) -> (r: Result<
        ReturnRoutes,
        PlanError,
    >)
        requires
            self@.wf(),
            scope.0 < self@.scopes.len(),
        ensures
            agrees(r, self@.explicit_return(span, scope)),
    {
        if !has_site(&self.return_sites, SiteKey { scope, span }) {
            return Err(
                PlanError::new(
                    span,
                    "control plan has no return at this span in the active lexical scope",
                ),
            );
        }
        let slot = match find_temp(
            &self.compiler_temps,
            CompilerTempKey { scope, anchor: span, kind: CompilerTempKind::ReturnValue },
        ) {
            Some(place) => Some(place.copy()),
            None => None,
        };
        Ok(self.return_from(scope, slot))
    }

    /// The routes of falling off the end of the body.
    pub fn implicit_return(&self) -> (r: ReturnRoutes)
        requires
            self@.wf(),
        ensures
            r@ == self@.return_from(self@.body_scope, None),
    {
        self.return_from(self.body_scope, None)
    }

    /// The route of every trap.
    pub fn trap_route(&self) -> (r: ExitRoute)
        ensures
            r@ == trap_route_v(),
    {
        ExitRoute::terminal_trap()
    }

    pub fn compiler_temp(&self, scope: ScopeId, anchor: Span, kind: CompilerTempKind) -> (r: Result<
        &Place,
        PlanError,
    >)
        ensures
            agrees(r, self@.compiler_temp(scope, anchor, kind)),
    {
        match find_temp(&self.compiler_temps, CompilerTempKey { scope, anchor, kind }) {
            None => Err(
                PlanError {
                    span: anchor,
                    message: cat3(
                        "control plan has no ",
                        temp_kind_tag(kind).as_str(),
                        " temporary in the active scope",
                    ),
                },
            ),
            Some(place) => Ok(place),
        }
    }

    /// The replacement action at a site. The destination is part of the identity.
    pub fn assignment(&self, scope: ScopeId, span: Span, destination: &Place) -> (r: Result<
        &AssignmentAction,
        PlanError,
    >)
        requires
            self@.wf(),
        ensures
            agrees(r, self@.assignment(scope, span, destination@)),
    {
        match find_site(&self.assignment_ids, SiteKey { scope, span }) {
            None => Err(
                PlanError::new(
                    span,
                    "control plan has no assignment at this span in the active lexical scope",
                ),
            ),
            Some(index) => {
                proof {
                    let k = choose|k: int|
                        0 <= k < self.assignment_ids@.len() && (
                        #[trigger] self.assignment_ids@[k]).index == index;
                    assert(self@.assignment_ids[k].index == index);
                }
                let action = &self.assignments[index];
                if !action.destination.same(destination) {
                    return Err(
                        PlanError {
                            span,
                            message: cat5(
                                "control assignment at this span targets `",
                                action.destination.render().as_str(),
                                "`, not `",
                                destination.render().as_str(),
                                "`",
                            ),
                        },
                    );
                }
                Ok(action)
            },
        }
    }

    pub fn assignments(&self) -> (r: &[AssignmentAction])
        ensures
            views(r@) == self@.assignments,
    {
        self.assignments.as_slice()
    }

    /// The `self.field = value` action at a site. Destination, value type and value range are part
    /// of the identity.
    pub fn field_assignment(
        &self,
        scope: ScopeId,
        span: Span,
        destination: &Place,
        value: &Expr,
    ) -> (r: Result<&FieldAssignmentAction, PlanError>)
        ensures
            agrees(r, self@.field_assignment(scope, span, destination@, *value)),
    {
        let index = match find_site(&self.field_assignment_ids, SiteKey { scope, span }) {
            None => {
                return Err(
                    PlanError::new(
                        span,
                        "control plan has no field assignment at this span in the active lexical scope",
                    ),
                );
            },
            Some(index) => index,
        };
        if index >= self.field_assignments.len() {
            return Err(
                PlanError::new(
                    span,
                    "field-assignment index no longer resolves to a retained action",
                ),
            );
        }
        let action = &self.field_assignments[index];
        let value_ty = match checked_expression_ty(value, "field-assignment value") {
            Err(e) => {
                return Err(e);
            },
            Ok(ty) => ty,
        };
        let transfer_key = ValueTransferKey {
            owner: self.owner.copy(),
            span: value.span,
            sink: ValueTransferSink::FieldAssignment(destination.copy()),
        };
        let expected = match ValueDropAction::build(&value_ty, span) {
            Err(e) => {
                return Err(e);
            },
            Ok(expected) => expected,
        };
        if action.scope != scope || action.span != span || !action.destination.same(destination)
            || !action.ty.same_ty(&value_ty) || !action.transfer_key.same(&transfer_key)
            || !same_opt(&action.drop_action, &expected) {
            return Err(
                PlanError {
                    span,
                    message: cat3(
                        "control field assignment no longer matches destination `",
                        destination.render().as_str(),
                        "`, checked RHS type/span, or transfer identity",
                    ),
                },
            );
        }
        let staging = if expected.is_some() {
            match self.compiler_temp(scope, span, CompilerTempKind::FieldAssignmentValue) {
                Err(e) => {
                    return Err(e);
                },
                Ok(place) => AssignmentStaging::Temporary(place.copy()),
            }
        } else {
            AssignmentStaging::Direct
        };
        if !action.staging.same(&staging) {
            return Err(
                PlanError::new(
                    span,
                    "field-assignment staging no longer matches its checked cleanup policy",
                ),
            );
        }
        Ok(action)
    }

    pub fn field_assignments(&self) -> (r: &[FieldAssignmentAction])
        ensures
            views(r@) == self@.field_assignments,
    {
        self.field_assignments.as_slice()
    }

    /// The discarded class value at an expression, and its destruction.
    pub fn temporary_drop(&self, scope: ScopeId, expression: &Expr) -> (r: Result<
        &TemporaryDropAction,
        PlanError,
    >)
        ensures
            agrees(r, self@.temporary_drop(scope, *expression)),
    {
        let span = expression.span;
        let index = match find_site(&self.temporary_drop_ids, SiteKey { scope, span }) {
            None => {
                return Err(
                    PlanError::new(
                        span,
                        "control plan has no discarded class temporary at this span in the active lexical scope",
                    ),
                );
            },
            Some(index) => index,
        };
        if let Some(source) = Place::from_value_expr(expression) {
            return Err(
                PlanError {
                    span,
                    message: cat3(
                        "discarded class temporary unexpectedly names source place `",
                        source.render().as_str(),
                        "`",
                    ),
                },
            );
        }
        let ty = match checked_expression_ty(expression, "discarded class temporary") {
            Err(e) => {
                return Err(e);
            },
            Ok(ty) => ty,
        };
        if index >= self.temporary_drops.len() {
            return Err(
                PlanError::new(
                    span,
                    "discarded-class index no longer resolves to a retained action",
                ),
            );
        }
        let action = &self.temporary_drops[index];
        let temporary = match self.compiler_temp(
            scope,
            span,
            CompilerTempKind::DiscardedClassValue,
        ) {
            Err(e) => {
                return Err(e);
            },
            Ok(place) => place,
        };
        let transfer_key = ValueTransferKey {
            owner: self.owner.copy(),
            span,
            sink: ValueTransferSink::DiscardTemporary,
        };
        let expected = match ValueDropAction::build(&ty, span) {
            Err(e) => {
                return Err(e);
            },
            Ok(expected) => expected,
        };
        if !matches!(ty, Ty::Class(_)) {
            return Err(
                PlanError::new(
                    span,
                    "discarded temporary action no longer targets a class value",
                ),
            );
        }
        if let Some(expected) = expected {
            if action.scope == scope && action.span == span && action.drop_action.same(&expected)
                && action.transfer_key.same(&transfer_key) && action.temporary.same(temporary) {
                return Ok(action);
            }
        }
        Err(
            PlanError::new(
                span,
                "discarded class temporary no longer matches its type, compiler temporary, or terminal drop action",
            ),
        )
    }

    pub fn temporary_drops(&self) -> (r: &[TemporaryDropAction])
        ensures
            views(r@) == self@.temporary_drops,
    {
        self.temporary_drops.as_slice()
    }

    /// The end of an exposure's scratch storage, after the owner was rebuilt.
    pub fn exposure_close(&self, scope: ScopeId, anchor: Span) -> (r: Result<ExitRoute, PlanError>)
        ensures
            agrees(r, self@.exposure_close(scope, anchor)),
    {
        let byte = match self.compiler_temp(scope, anchor, CompilerTempKind::ExposureByte) {
            Err(e) => {
                return Err(e);
            },
            Ok(place) => place.copy(),
        };
        let index = match self.compiler_temp(scope, anchor, CompilerTempKind::ExposureIndex) {
            Err(e) => {
                return Err(e);
            },
            Ok(place) => place.copy(),
        };
        let loan = match self.compiler_temp(scope, anchor, CompilerTempKind::ExposureLoan) {
            Err(e) => {
                return Err(e);
            },
            Ok(place) => place.copy(),
        };
        let mut clears: Vec<Place> = Vec::new();
        clears.push(byte);
        clears.push(index);
        clears.push(loan);
        assert(views(clears@) =~= seq![byte@, index@, loan@]);
        Ok(
            ExitRoute {
                kind: ExitKind::ExposureClose,
                scopes: Vec::new(),
                clears,
                drops: Vec::new(),
            },
        )
    }

    /// The retained site of one trap.
    pub fn trap_site(&self, key: &TrapSiteKey) -> (r: Result<&TrapSite, PlanError>)
        ensures
            agrees(r, self@.trap_site(key@)),
    {
        match find_trap(&self.trap_sites, key) {
            None => Err(
                PlanError {
                    span: key.span,
                    message: cat3(
                        "control plan has no ",
                        key.kind.describe().as_str(),
                        " trap site at this span in the active lexical scope",
                    ),
                },
            ),
            Some(index) => {
                let site = &self.trap_sites[index];
                if !site.route.is_terminal_trap() {
                    return Err(
                        PlanError::new(
                            key.span,
                            "control trap site does not carry the canonical empty no-unwind route",
                        ),
                    );
                }
                Ok(site)
            },
        }
    }

    fn trap_sites_of(&self, keys: Vec<TrapSiteKey>) -> (r: Result<Vec<TrapSite>, PlanError>)
        ensures
            agrees_seq(r, self@.trap_sites_of(views(keys@), keys@.len())),
    {
        let mut out: Vec<TrapSite> = Vec::new();
        let n: usize = keys.len();
        let mut i: usize = 0;
        while i < n
            invariant
                n == keys@.len(),
                i <= n,
                self@.trap_sites_of(views(keys@), i as nat) == Ok::<Seq<TrapSiteV>, ErrV>(
                    views(out@),
                ),
            decreases n - i,
        {
            match self.trap_site(&keys[i]) {
                Err(e) => {
                    proof {
                        lemma_trap_sites_fail(self@, views(keys@), (i + 1) as nat, n as nat);
                    }
                    return Err(e);
                },
                Ok(site) => out.push(site.copy()),
            }
            i = i + 1;
        }
        Ok(out)
    }

    /// The retained sites of what can trap in an expression itself. Operands are asked for when
    /// they are reached.
    pub fn expression_trap_sites(&self, scope: ScopeId, expression: &Expr) -> (r: Result<
        Vec<TrapSite>,
        PlanError,
    >)
        ensures
            agrees_seq(r, self@.expression_trap_sites(scope, *expression)),
    {
        let keys = match expression_trap_keys(scope, expression) {
            Err(e) => {
                return Err(e);
            },
            Ok(keys) => keys,
        };
        self.trap_sites_of(keys)
    }

    /// The retained sites of what can trap in a statement itself.
    pub fn statement_trap_sites(&self, scope: ScopeId, statement: &Stmt) -> (r: Result<
        Vec<TrapSite>,
        PlanError,
    >)
        requires
            self@.wf(),
        ensures
            agrees_seq(r, self@.statement_trap_sites(scope, *statement)),
    {
        let keys = match direct_statement_traps(self, scope, statement) {
            Err(e) => {
                return Err(e);
            },
            Ok(keys) => keys,
        };
        self.trap_sites_of(keys)
    }
}

proof fn lemma_trap_sites_fail(p: PlanV, keys: Seq<TrapKeyV>, n: nat, m: nat)
    requires
        n <= m <= keys.len(),
        p.trap_sites_of(keys, n) is Err,
    ensures
        p.trap_sites_of(keys, m) == p.trap_sites_of(keys, n),
    decreases m,
{
    if m > n {
        lemma_trap_sites_fail(p, keys, n, (m - 1) as nat);
    }
}

/// The keys of what can trap in an expression itself.
pub open spec fn expr_trap_keys(scope: ScopeId, e: Expr) -> Result<Seq<TrapKeyV>, ErrV> {
    match expr_traps(e) {
        Err(err) => Err(err),
        Ok(direct) => Ok(in_scope(scope, direct)),
    }
}

pub fn expression_trap_keys(scope: ScopeId, expression: &Expr) -> (r: Result<
    Vec<TrapSiteKey>,
    PlanError,
>)
    ensures
        agrees_seq(r, expr_trap_keys(scope, *expression)),
{
    let direct = match direct_expression_traps(expression) {
        Err(e) => {
            return Err(e);
        },
        Ok(direct) => direct,
    };
    let mut keys: Vec<TrapSiteKey> = Vec::new();
    let n: usize = direct.len();
    let mut i: usize = 0;
    while i < n
        invariant
            n == direct@.len(),
            i <= n,
            views(keys@) == in_scope(scope, views(direct@)).take(i as int),
        decreases n - i,
    {
        keys.push(TrapSiteKey { scope, span: direct[i].span, kind: direct[i].kind.copy() });
        assert(in_scope(scope, views(direct@)).take(i + 1) =~= in_scope(
            scope,
            views(direct@),
        ).take(i as int).push(keys@.last()@));
        i = i + 1;
    }
    assert(in_scope(scope, views(direct@)).take(n as int) =~= in_scope(scope, views(direct@)));
    Ok(keys)
}

fn one_key(scope: ScopeId, span: Span, kind: TrapSiteKind) -> (r: Result<
    Vec<TrapSiteKey>,
    PlanError,
>)
    ensures
        agrees_seq(r, Ok(seq![TrapKeyV { scope, span, kind: kind@ }])),
{
    let mut keys: Vec<TrapSiteKey> = Vec::new();
    keys.push(TrapSiteKey { scope, span, kind });
    assert(views(keys@) =~= seq![TrapKeyV { scope, span, kind: kind@ }]);
    Ok(keys)
}

fn loop_trap_keys(scope: ScopeId, invariants: &Vec<Clause>, variant: &Option<Clause>) -> (r: Vec<
    TrapSiteKey,
>)
    ensures
        views(r@) == invariant_traps(scope, invariants@) + variant_traps(scope, *variant),
{
    let mut keys: Vec<TrapSiteKey> = Vec::new();
    let n: usize = invariants.len();
    let mut i: usize = 0;
    while i < n
        invariant
            n == invariants@.len(),
            i <= n,
            views(keys@) == invariant_traps(scope, invariants@).take(i as int),
        decreases n - i,
    {
        let clause = &invariants[i];
        keys.push(
            TrapSiteKey {
                scope,
                span: clause.span,
                kind: TrapSiteKind::LoopInvariant(clause.text.clone()),
            },
        );
        assert(invariant_traps(scope, invariants@).take(i + 1) =~= invariant_traps(
            scope,
            invariants@,
        ).take(i as int).push(keys@.last()@));
        i = i + 1;
    }
    assert(invariant_traps(scope, invariants@).take(n as int) =~= invariant_traps(
        scope,
        invariants@,
    ));
    if let Some(v) = variant {
        keys.push(
            TrapSiteKey {
                scope,
                span: v.span,
                kind: TrapSiteKind::LoopVariantNegative(v.text.clone()),
            },
        );
        keys.push(
            TrapSiteKey {
                scope,
                span: v.span,
                kind: TrapSiteKind::LoopVariantNonDecrease(v.text.clone()),
            },
        );
    }
    assert(views(keys@) =~= invariant_traps(scope, invariants@) + variant_traps(scope, *variant));
    keys
}

/// What can trap in a statement itself.
pub fn direct_statement_traps(plan: &BodyPlan, scope: ScopeId, statement: &Stmt) -> (r: Result<
    Vec<TrapSiteKey>,
    PlanError,
>)
    requires
        plan@.wf(),
    ensures
        agrees_seq(r, stmt_traps(plan@, scope, *statement)),
{
    match statement {
        Stmt::Assert(clause) => one_key(
            scope,
            clause.span,
            TrapSiteKind::InlineAssert(clause.text.clone()),
        ),
        Stmt::FieldStore { field, field_span, value, .. } => match checked_expression_ty(
            value,
            "field-store value",
        ) {
            Err(e) => Err(e),
            Ok(element) => one_key(
                scope,
                *field_span,
                TrapSiteKind::SelfFieldStore { field: field.clone(), element },
            ),
        },
        Stmt::Store { array, array_span, value, .. } => match checked_expression_ty(
            value,
            "array-store value",
        ) {
            Err(e) => Err(e),
            Ok(element) => one_key(
                scope,
                *array_span,
                TrapSiteKind::ArrayStore { array: array.clone(), element },
            ),
        },
        Stmt::While { invariants, variant, .. } => Ok(loop_trap_keys(scope, invariants, variant)),
        Stmt::SystemDealloc { kw_span, .. } => one_key(
            scope,
            *kw_span,
            TrapSiteKind::SystemDealloc,
        ),
        Stmt::Expose { kw_span, array, mutable, .. } => {
            if *mutable {
                match plan.exposure_plan(scope, *kw_span) {
                    Err(e) => Err(e),
                    Ok(exposure) => one_key(
                        exposure.body_scope,
                        *kw_span,
                        TrapSiteKind::ExposureClose { array: array.clone(), mutable: true },
                    ),
                }
            } else {
                Ok(Vec::new())
            }
        },
        _ => Ok(Vec::new()),
    }
}

} // verus!
