//! Reconciling a whole callable with its retained plan.
use vstd::prelude::*;

use crate::ast::{Param, Stmt};
use crate::drops::{agrees, drop_action_of, plan_err, ErrV, PlanError, ValueDropAction};
use crate::inventory::{
    has_scope, has_temp, inv_from, root_inventory, BodyInventory, InventoryV,
};
use crate::lookup::{find_trap, has_site, trap_index};
use crate::outline::{DropId, ScopeId};
use crate::plan::{
    scope_kind_tag, scope_kind_text, BindingV, BodyPlan, CompilerTempKey, PlanV, SiteEntry, SiteKey,
    SourceBinding, TempV,
};
use crate::repr::{group_views, same_vec, views, Repr};
use crate::span::Span;
use crate::text::cat3;
use crate::traps::{TrapKeyV, TrapSiteKey};

verus! {

broadcast use group_views;

impl InventoryV {
    /// The ledger with the parameters from `i` on as bindings of the frame.
    pub open spec fn with_params(self, frame: ScopeId, params: Seq<Param>, i: nat) -> InventoryV
        decreases params.len() - i,
    {
        if i >= params.len() {
            self
        } else {
            let p = params[i as int];
            self.with_binding(frame, p.name@, p.ty, p.span).with_params(frame, params, i + 1)
        }
    }
}

/// The first planned site from `i` on that a body does not contain.
pub open spec fn missing_site(ids: Seq<SiteEntry>, seen: Seq<SiteKey>, i: nat) -> Option<Span>
    decreases ids.len() - i,
{
    if i >= ids.len() {
        None
    } else if !seen.contains(ids[i as int].key) {
        Some(ids[i as int].key.span)
    } else {
        missing_site(ids, seen, i + 1)
    }
}

/// The first planned return from `i` on that a body does not contain.
pub open spec fn missing_return(sites: Seq<SiteKey>, seen: Seq<SiteKey>, i: nat) -> Option<Span>
    decreases sites.len() - i,
{
    if i >= sites.len() {
        None
    } else if !seen.contains(sites[i as int]) {
        Some(sites[i as int].span)
    } else {
        missing_return(sites, seen, i + 1)
    }
}

/// The first planned temporary from `i` on that a body does not contain.
pub open spec fn missing_temp(
    temps: Seq<TempV>,
    seen: Seq<CompilerTempKey>,
    i: nat,
) -> Option<Span>
    decreases temps.len() - i,
{
    if i >= temps.len() {
        None
    } else if !seen.contains(temps[i as int].key) {
        Some(temps[i as int].key.anchor)
    } else {
        missing_temp(temps, seen, i + 1)
    }
}

/// A planned table and what a body contains of it must have the same size.
pub open spec fn same_count(
    found: nat,
    planned: nat,
    missing: Option<Span>,
    fallback: Span,
    refusal: Seq<char>,
) -> Result<(), ErrV> {
    if found == planned {
        Ok(())
    } else {
        Err(
            plan_err(
                match missing {
                    Some(span) => span,
                    None => fallback,
                },
                refusal,
            ),
        )
    }
}

impl PlanV {
    pub open spec fn body_anchor(self) -> Span {
        self.scopes[self.body_scope.0 as int].anchor
    }

    /// The first scope from `i` on that a body does not contain.
    pub open spec fn missing_scope(self, seen: Seq<ScopeId>, i: nat) -> Option<nat>
        decreases self.scopes.len() - i,
    {
        if i >= self.scopes.len() {
            None
        } else if !seen.contains(ScopeId(i as usize)) {
            Some(i)
        } else {
            self.missing_scope(seen, i + 1)
        }
    }

    pub open spec fn check_scope_count(self, seen: Seq<ScopeId>) -> Result<(), ErrV> {
        if seen.len() == self.scopes.len() {
            Ok(())
        } else {
            let (span, kind) = match self.missing_scope(seen, 0) {
                Some(i) => (self.scopes[i as int].anchor, self.scopes[i as int].kind),
                None => (self.body_anchor(), self.scopes[self.body_scope.0 as int].kind),
            };
            Err(
                plan_err(
                    span,
                    "checked body no longer contains its planned "@ + scope_kind_text(kind)
                        + " scope"@,
                ),
            )
        }
    }

    /// What a scope destroys, given its bindings from `i` on.
    pub open spec fn expected_drops(
        self,
        scope: ScopeId,
        bindings: Seq<BindingV>,
        i: nat,
        before: Seq<DropId>,
    ) -> Result<Seq<DropId>, ErrV>
        decreases bindings.len() - i,
    {
        if i >= bindings.len() {
            Ok(before)
        } else {
            let b = bindings[i as int];
            match drop_action_of(b.ty, b.span) {
                Err(e) => Err(e),
                Ok(expected) => match (expected, self.candidate_for(b.place)) {
                    (Some(_), None) => Err(
                        plan_err(
                            b.span,
                            "cleanup-bearing binding `"@ + b.place.text()
                                + "` has no planned drop candidate"@,
                        ),
                    ),
                    (Some(action), Some(c)) => if c.scope != scope || c.drop_action != action
                        || c.span != b.span {
                        Err(
                            plan_err(
                                b.span,
                                "drop candidate for `"@ + b.place.text()
                                    + "` no longer matches its checked binding"@,
                            ),
                        )
                    } else {
                        self.expected_drops(scope, bindings, i + 1, before.push(c.id))
                    },
                    (None, Some(_)) => Err(
                        plan_err(
                            b.span,
                            "non-cleanup binding `"@ + b.place.text()
                                + "` retained a stale drop candidate"@,
                        ),
                    ),
                    (None, None) => self.expected_drops(scope, bindings, i + 1, before),
                },
            }
        }
    }

    /// One scope against its ledger: locals, bindings and drop candidates, in order.
    pub open spec fn check_scope(self, inv: InventoryV, i: int) -> Result<(), ErrV> {
        let planned = self.scopes[i];
        let ledger = inv.ledgers[i];
        if planned.locals != ledger.locals {
            Err(
                plan_err(
                    planned.anchor,
                    "checked "@ + scope_kind_text(planned.kind)
                        + " scope bindings no longer match its ordered control plan"@,
                ),
            )
        } else if planned.bindings != ledger.bindings {
            Err(
                plan_err(
                    if ledger.bindings.len() > 0 {
                        ledger.bindings[0].span
                    } else {
                        planned.anchor
                    },
                    "checked "@ + scope_kind_text(planned.kind)
                        + " source bindings no longer match their names, types, or declaration spans"@,
                ),
            )
        } else {
            match self.expected_drops(ScopeId(i as usize), ledger.bindings, 0, Seq::empty()) {
                Err(e) => Err(e),
                Ok(drops) => if planned.drops != drops {
                    Err(
                        plan_err(
                            planned.anchor,
                            "checked "@ + scope_kind_text(planned.kind)
                                + " drop candidates no longer match declaration order"@,
                        ),
                    )
                } else {
                    Ok(())
                },
            }
        }
    }

    /// The scopes from `i` on. Without parameters the frame is not looked at.
    pub open spec fn check_scopes(self, inv: InventoryV, i: nat, with_frame: bool) -> Result<
        (),
        ErrV,
    >
        decreases self.scopes.len() - i,
    {
        if i >= self.scopes.len() {
            Ok(())
        } else if ScopeId(i as usize) == self.frame_scope && !with_frame {
            self.check_scopes(inv, i + 1, with_frame)
        } else {
            match self.check_scope(inv, i as int) {
                Err(e) => Err(e),
                Ok(_) => self.check_scopes(inv, i + 1, with_frame),
            }
        }
    }

    /// The planned actions, returns and temporaries against what the body contains.
    pub open spec fn check_sites(self, inv: InventoryV) -> Result<(), ErrV> {
        match same_count(
            inv.assignments.len(),
            self.assignments.len(),
            missing_site(self.assignment_ids, inv.assignments, 0),
            self.body_anchor(),
            "checked body no longer contains its planned assignment"@,
        ) {
            Err(e) => Err(e),
            Ok(_) => match same_count(
                inv.field_assignments.len(),
                self.field_assignments.len(),
                missing_site(self.field_assignment_ids, inv.field_assignments, 0),
                self.body_anchor(),
                "checked body no longer contains its planned field assignment"@,
            ) {
                Err(e) => Err(e),
                Ok(_) => match same_count(
                    inv.temporary_drops.len(),
                    self.temporary_drops.len(),
                    missing_site(self.temporary_drop_ids, inv.temporary_drops, 0),
                    self.body_anchor(),
                    "checked body no longer contains its planned discarded class temporary"@,
                ) {
                    Err(e) => Err(e),
                    Ok(_) => match same_count(
                        inv.returns.len(),
                        self.return_sites.len(),
                        missing_return(self.return_sites, inv.returns, 0),
                        self.body_anchor(),
                        "checked body no longer contains its planned return"@,
                    ) {
                        Err(e) => Err(e),
                        Ok(_) => same_count(
                            inv.compiler_temps.len(),
                            self.compiler_temps.len(),
                            missing_temp(self.compiler_temps, inv.compiler_temps, 0),
                            self.body_anchor(),
                            "checked body no longer contains its exact compiler-temporary sites"@,
                        ),
                    },
                },
            },
        }
    }

    /// The trap sites that the keys from `i` on name, each at most once.
    pub open spec fn meet_traps(self, keys: Seq<TrapKeyV>, i: nat, met: Seq<nat>) -> Result<
        Seq<nat>,
        ErrV,
    >
        decreases keys.len() - i,
    {
        if i >= keys.len() {
            Ok(met)
        } else {
            match self.trap_site(keys[i as int]) {
                Err(e) => Err(e),
                Ok(_) => {
                    let index = trap_index(self.trap_sites, keys[i as int])->Some_0;
                    if met.contains(index) {
                        Err(
                            plan_err(
                                keys[i as int].span,
                                "two source operations reuse one checked trap-site identity"@,
                            ),
                        )
                    } else {
                        self.meet_traps(keys, i + 1, met.push(index))
                    }
                },
            }
        }
    }

    /// The first retained trap site from `i` on that was not met.
    pub open spec fn missing_trap(self, met: Seq<nat>, i: nat) -> Option<Span>
        decreases self.trap_sites.len() - i,
    {
        if i >= self.trap_sites.len() {
            None
        } else if !met.contains(i) {
            Some(self.trap_sites[i as int].key.span)
        } else {
            self.missing_trap(met, i + 1)
        }
    }

    pub open spec fn check_traps(self, keys: Seq<TrapKeyV>) -> Result<(), ErrV> {
        match self.meet_traps(keys, 0, Seq::empty()) {
            Err(e) => Err(e),
            Ok(met) => same_count(
                met.len(),
                self.trap_sites.len(),
                self.missing_trap(met, 0),
                self.body_anchor(),
                "checked body no longer contains its planned trap site"@,
            ),
        }
    }

    /// The ledger of a body, with its parameters where they are given.
    pub open spec fn ledger_of(self, params: Option<Seq<Param>>, body: Seq<Stmt>) -> Result<
        InventoryV,
        ErrV,
    > {
        let root = root_inventory(self);
        let entered = match params {
            Some(params) => root.with_params(self.frame_scope, params, 0),
            None => root,
        };
        match inv_from(self, entered, body, 0, self.body_scope) {
            (Err(e), _) => Err(e),
            (Ok(_), inv) => Ok(inv),
        }
    }

    /// The ledger of a body against every table of the plan.
    pub open spec fn check_ledger(self, inv: InventoryV, with_frame: bool) -> Result<(), ErrV> {
        match self.check_scope_count(inv.scopes) {
            Err(e) => Err(e),
            Ok(_) => match self.check_scopes(inv, 0, with_frame) {
                Err(e) => Err(e),
                Ok(_) => match self.check_sites(inv) {
                    Err(e) => Err(e),
                    Ok(_) => self.check_traps(inv.traps),
                },
            },
        }
    }

    /// The refusal of a callable that is not the one the plan was made for.
    pub open spec fn check_shape(self, params: Option<Seq<Param>>, body: Seq<Stmt>) -> Result<
        (),
        ErrV,
    > {
        match self.check_structure(body) {
            Err(e) => Err(e),
            Ok(_) => match self.ledger_of(params, body) {
                Err(e) => Err(e),
                Ok(inv) => self.check_ledger(inv, params is Some),
            },
        }
    }
}

fn find_missing_site(ids: &Vec<SiteEntry>, seen: &Vec<SiteKey>) -> (r: Option<Span>)
    ensures
        r == missing_site(views(ids@), views(seen@), 0),
{
    let mut i: usize = 0;
    while i < ids.len()
        invariant
            i <= ids@.len(),
            missing_site(views(ids@), views(seen@), 0) == missing_site(
                views(ids@),
                views(seen@),
                i as nat,
            ),
        decreases ids@.len() - i,
    {
        if !has_site(seen, ids[i].key) {
            return Some(ids[i].key.span);
        }
        i = i + 1;
    }
    None
}

fn find_missing_return(sites: &Vec<SiteKey>, seen: &Vec<SiteKey>) -> (r: Option<Span>)
    ensures
        r == missing_return(views(sites@), views(seen@), 0),
{
    let mut i: usize = 0;
    while i < sites.len()
        invariant
            i <= sites@.len(),
            missing_return(views(sites@), views(seen@), 0) == missing_return(
                views(sites@),
                views(seen@),
                i as nat,
            ),
        decreases sites@.len() - i,
    {
        if !has_site(seen, sites[i]) {
            return Some(sites[i].span);
        }
        i = i + 1;
    }
    None
}

fn count_check(
    found: usize,
    planned: usize,
    missing: Option<Span>,
    fallback: Span,
    refusal: &str,
) -> (r: Result<(), PlanError>)
    ensures
        agrees(r, same_count(found as nat, planned as nat, missing, fallback, refusal@)),
{
    if found == planned {
        Ok(())
    } else {
        let span = match missing {
            Some(span) => span,
            None => fallback,
        };
        Err(PlanError::new(span, refusal))
    }
}

fn has_index(met: &Vec<usize>, index: usize) -> (r: bool)
    ensures
        r == as_nats(met@).contains(index as nat),
{
    let mut i: usize = 0;
    while i < met.len()
        invariant
            i <= met@.len(),
            forall|k: int| 0 <= k < i ==> met@[k] != index,
        decreases met@.len() - i,
    {
        if met[i] == index {
            assert(as_nats(met@)[i as int] == index as nat);
            return true;
        }
        i = i + 1;
    }
    proof {
        if as_nats(met@).contains(index as nat) {
            let k = choose|k: int| 0 <= k < as_nats(met@).len() && as_nats(met@)[k] == index as nat;
            assert(met@[k] == index);
        }
    }
    false
}

/// Positions as plain numbers.
pub open spec fn as_nats(s: Seq<usize>) -> Seq<nat> {
    Seq::new(s.len(), |i: int| s[i] as nat)
}

impl BodyPlan {
    fn validate_scope_count(&self, inventory: &BodyInventory) -> (r: Result<(), PlanError>)
        requires
            self@.wf(),
        ensures
            agrees(r, self@.check_scope_count(inventory@.scopes)),
    {
        if inventory.scopes.len() == self.scopes.len() {
            return Ok(());
        }
        let mut span = self.scopes[self.body_scope.0].anchor;
        let mut kind = self.scopes[self.body_scope.0].kind;
        let mut found = false;
        let mut i: usize = 0;
        while i < self.scopes.len() && !found
            invariant
                i <= self.scopes@.len(),
                self@.wf(),
                !found ==> self@.missing_scope(inventory@.scopes, 0) == self@.missing_scope(
                    inventory@.scopes,
                    i as nat,
                ) && span == self@.body_anchor() && kind
                    == self@.scopes[self@.body_scope.0 as int].kind,
                found ==> (self@.missing_scope(inventory@.scopes, 0) matches Some(k) && k
                    < self@.scopes.len() && span == self@.scopes[k as int].anchor && kind
                    == self@.scopes[k as int].kind),
            decreases self.scopes@.len() - i, !found as int,
        {
            if !has_scope(&inventory.scopes, ScopeId(i)) {
                found = true;
                span = self.scopes[i].anchor;
                kind = self.scopes[i].kind;
            } else {
                i = i + 1;
            }
        }
        Err(
            PlanError {
                span,
                message: cat3(
                    "checked body no longer contains its planned ",
                    scope_kind_tag(kind),
                    " scope",
                ),
            },
        )
    }

    fn expected_drops(&self, scope: ScopeId, bindings: &Vec<SourceBinding>) -> (r: Result<
        Vec<DropId>,
        PlanError,
    >)
        requires
            self@.wf(),
        ensures
            match self@.expected_drops(scope, views(bindings@), 0, Seq::empty()) {
                Ok(drops) => r matches Ok(v) && views(v@) == drops,
                Err(e) => r matches Err(x) && x@ == e,
            },
    {
        let mut drops: Vec<DropId> = Vec::new();
        let n: usize = bindings.len();
        let mut i: usize = 0;
        while i < n
            invariant
                self@.wf(),
                n == bindings@.len(),
                i <= n,
                self@.expected_drops(scope, views(bindings@), 0, Seq::empty())
                    == self@.expected_drops(scope, views(bindings@), i as nat, views(drops@)),
            decreases n - i,
        {
            let binding = &bindings[i];
            let expected = match ValueDropAction::build(&binding.ty, binding.span) {
                Err(e) => {
                    return Err(e);
                },
                Ok(expected) => expected,
            };
            match (expected, self.candidate_for_place(&binding.place)) {
                (Some(_), None) => {
                    return Err(
                        PlanError {
                            span: binding.span,
                            message: cat3(
                                "cleanup-bearing binding `",
                                binding.place.render().as_str(),
                                "` has no planned drop candidate",
                            ),
                        },
                    );
                },
                (Some(action), Some(candidate)) => {
                    if candidate.scope != scope || !candidate.drop_action.same(&action)
                        || candidate.span != binding.span {
                        return Err(
                            PlanError {
                                span: binding.span,
                                message: cat3(
                                    "drop candidate for `",
                                    binding.place.render().as_str(),
                                    "` no longer matches its checked binding",
                                ),
                            },
                        );
                    }
                    drops.push(candidate.id);
                },
                (None, Some(_)) => {
                    return Err(
                        PlanError {
                            span: binding.span,
                            message: cat3(
                                "non-cleanup binding `",
                                binding.place.render().as_str(),
                                "` retained a stale drop candidate",
                            ),
                        },
                    );
                },
                (None, None) => {},
            }
            i = i + 1;
        }
        Ok(drops)
    }

    fn validate_scope(&self, inventory: &BodyInventory, index: usize) -> (r: Result<(), PlanError>)
        requires
            self@.wf(),
            index < self@.scopes.len(),
            inventory.fits(self@),
        ensures
            agrees(r, self@.check_scope(inventory@, index as int)),
    {
        let planned = &self.scopes[index];
        let ledger = &inventory.ledgers[index];
        if !same_vec(&planned.locals, &ledger.locals) {
            return Err(
                PlanError {
                    span: planned.anchor,
                    message: cat3(
                        "checked ",
                        scope_kind_tag(planned.kind),
                        " scope bindings no longer match its ordered control plan",
                    ),
                },
            );
        }
        if !same_vec(&planned.bindings, &ledger.bindings) {
            let span = if ledger.bindings.len() > 0 {
                ledger.bindings[0].span
            } else {
                planned.anchor
            };
            return Err(
                PlanError {
                    span,
                    message: cat3(
                        "checked ",
                        scope_kind_tag(planned.kind),
                        " source bindings no longer match their names, types, or declaration spans",
                    ),
                },
            );
        }
        let drops = match self.expected_drops(ScopeId(index), &ledger.bindings) {
            Err(e) => {
                return Err(e);
            },
            Ok(drops) => drops,
        };
        if !same_vec(&planned.drops, &drops) {
            return Err(
                PlanError {
                    span: planned.anchor,
                    message: cat3(
                        "checked ",
                        scope_kind_tag(planned.kind),
                        " drop candidates no longer match declaration order",
                    ),
                },
            );
        }
        Ok(())
    }

    fn validate_scopes(&self, inventory: &BodyInventory, with_frame: bool) -> (r: Result<
        (),
        PlanError,
    >)
        requires
            self@.wf(),
            inventory.fits(self@),
        ensures
            agrees(r, self@.check_scopes(inventory@, 0, with_frame)),
    {
        let n: usize = self.scopes.len();
        let mut i: usize = 0;
        while i < n
            invariant
                self@.wf(),
                inventory.fits(self@),
                n == self.scopes@.len(),
                i <= n,
                self@.check_scopes(inventory@, 0, with_frame) == self@.check_scopes(
                    inventory@,
                    i as nat,
                    with_frame,
                ),
            decreases n - i,
        {
            if self.frame_scope.0 == i && !with_frame {
                assert(ScopeId(i) == self@.frame_scope);
            } else {
                match self.validate_scope(inventory, i) {
                    Err(e) => {
                        return Err(e);
                    },
                    Ok(_) => {},
                }
            }
            i = i + 1;
        }
        Ok(())
    }

    fn validate_sites(&self, inventory: &BodyInventory) -> (r: Result<(), PlanError>)
        requires
            self@.wf(),
        ensures
            agrees(r, self@.check_sites(inventory@)),
    {
        let anchor = self.scopes[self.body_scope.0].anchor;
        match count_check(
            inventory.assignments.len(),
            self.assignments.len(),
            find_missing_site(&self.assignment_ids, &inventory.assignments),
            anchor,
            "checked body no longer contains its planned assignment",
        ) {
            Err(e) => {
                return Err(e);
            },
            Ok(_) => {},
        }
        match count_check(
            inventory.field_assignments.len(),
            self.field_assignments.len(),
            find_missing_site(&self.field_assignment_ids, &inventory.field_assignments),
            anchor,
            "checked body no longer contains its planned field assignment",
        ) {
            Err(e) => {
                return Err(e);
            },
            Ok(_) => {},
        }
        match count_check(
            inventory.temporary_drops.len(),
            self.temporary_drops.len(),
            find_missing_site(&self.temporary_drop_ids, &inventory.temporary_drops),
            anchor,
            "checked body no longer contains its planned discarded class temporary",
        ) {
            Err(e) => {
                return Err(e);
            },
            Ok(_) => {},
        }
        match count_check(
            inventory.returns.len(),
            self.return_sites.len(),
            find_missing_return(&self.return_sites, &inventory.returns),
            anchor,
            "checked body no longer contains its planned return",
        ) {
            Err(e) => {
                return Err(e);
            },
            Ok(_) => {},
        }
        let mut missing: Option<Span> = None;
        let mut i: usize = 0;
        while i < self.compiler_temps.len() && missing.is_none()
            invariant
                i <= self.compiler_temps@.len(),
                missing is None ==> missing_temp(
                    self@.compiler_temps,
                    inventory@.compiler_temps,
                    0,
                ) == missing_temp(self@.compiler_temps, inventory@.compiler_temps, i as nat),
                missing is Some ==> missing_temp(
                    self@.compiler_temps,
                    inventory@.compiler_temps,
                    0,
                ) == missing,
            decreases self.compiler_temps@.len() - i, (missing is None) as int,
        {
            if !has_temp(&inventory.compiler_temps, self.compiler_temps[i].key) {
                missing = Some(self.compiler_temps[i].key.anchor);
            } else {
                i = i + 1;
            }
        }
        count_check(
            inventory.compiler_temps.len(),
            self.compiler_temps.len(),
            missing,
            anchor,
            "checked body no longer contains its exact compiler-temporary sites",
        )
    }

    fn validate_traps(&self, keys: &Vec<TrapSiteKey>) -> (r: Result<(), PlanError>)
        requires
            self@.wf(),
        ensures
            agrees(r, self@.check_traps(views(keys@))),
    {
        let mut met: Vec<usize> = Vec::new();
        let n: usize = keys.len();
        let mut i: usize = 0;
        assert(as_nats(met@) =~= Seq::<nat>::empty());
        while i < n
            invariant
                n == keys@.len(),
                i <= n,
                self@.meet_traps(views(keys@), 0, Seq::empty()) == self@.meet_traps(
                    views(keys@),
                    i as nat,
                    as_nats(met@),
                ),
            decreases n - i,
        {
            let key = &keys[i];
            match self.trap_site(key) {
                Err(e) => {
                    return Err(e);
                },
                Ok(_) => {},
            }
            match find_trap(&self.trap_sites, key) {
                None => {},
                Some(index) => {
                    if has_index(&met, index) {
                        return Err(
                            PlanError::new(
                                key.span,
                                "two source operations reuse one checked trap-site identity",
                            ),
                        );
                    }
                    let ghost before = met@;
                    met.push(index);
                    assert(as_nats(met@) =~= as_nats(before).push(index as nat));
                },
            }
            i = i + 1;
        }
        let mut missing: Option<Span> = None;
        let mut j: usize = 0;
        while j < self.trap_sites.len() && missing.is_none()
            invariant
                j <= self.trap_sites@.len(),
                missing is None ==> self@.missing_trap(as_nats(met@), 0) == self@.missing_trap(
                    as_nats(met@),
                    j as nat,
                ),
                missing is Some ==> self@.missing_trap(as_nats(met@), 0) == missing,
            decreases self.trap_sites@.len() - j, (missing is None) as int,
        {
            if !has_index(&met, j) {
                missing = Some(self.trap_sites[j].key.span);
            } else {
                j = j + 1;
            }
        }
        count_check(
            met.len(),
            self.trap_sites.len(),
            missing,
            self.scopes[self.body_scope.0].anchor,
            "checked body no longer contains its planned trap site",
        )
    }

    /// Reconciles every table of the plan with a body, and with its parameters where given.
    pub fn validate_shape(&self, params: Option<&[Param]>, body: &[Stmt]) -> (r: Result<
        (),
        PlanError,
    >)
        requires
            self@.wf(),
        ensures
            agrees(
                r,
                self@.check_shape(
                    match params {
                        Some(p) => Some(p@),
                        None => None,
                    },
                    body@,
                ),
            ),
    {
        match self.validate_structural_body(body) {
            Err(e) => {
                return Err(e);
            },
            Ok(_) => {},
        }
        let mut inventory = BodyInventory::root(self);
        match params {
            Some(params) => {
                let n: usize = params.len();
                let mut i: usize = 0;
                while i < n
                    invariant
                        self@.wf(),
                        inventory.fits(self@),
                        n == params@.len(),
                        i <= n,
                        root_inventory(self@).with_params(self@.frame_scope, params@, 0)
                            == inventory@.with_params(self@.frame_scope, params@, i as nat),
                    decreases n - i,
                {
                    let p = &params[i];
                    inventory.source_binding(self.frame_scope, &p.name, p.ty.clone(), p.span);
                    i = i + 1;
                }
            },
            None => {},
        }
        match self.inventory_block(body, self.body_scope, &mut inventory) {
            Err(e) => {
                return Err(e);
            },
            Ok(_) => {},
        }
        match self.validate_scope_count(&inventory) {
            Err(e) => {
                return Err(e);
            },
            Ok(_) => {},
        }
        match self.validate_scopes(&inventory, params.is_some()) {
            Err(e) => {
                return Err(e);
            },
            Ok(_) => {},
        }
        match self.validate_sites(&inventory) {
            Err(e) => {
                return Err(e);
            },
            Ok(_) => {},
        }
        self.validate_traps(&inventory.traps)
    }

    /// Reconciles a body, its parameters aside.
    pub fn validate_body_shape(&self, body: &[Stmt]) -> (r: Result<(), PlanError>)
        requires
            self@.wf(),
        ensures
            agrees(r, self@.check_shape(None, body@)),
    {
        self.validate_shape(None, body)
    }

    /// Reconciles a callable: its ordered parameters and its body.
    pub fn validate_callable(&self, params: &[Param], body: &[Stmt]) -> (r: Result<(), PlanError>)
        requires
            self@.wf(),
        ensures
            agrees(r, self@.check_shape(Some(params@), body@)),
    {
        self.validate_shape(Some(params), body)
    }
}

} // verus!
