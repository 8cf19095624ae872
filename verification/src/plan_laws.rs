//! What holds of every plan: how the cleanup of exits composes, and that a trap runs none.
use vstd::prelude::*;

use crate::ast::{Param, Stmt};
use crate::drops::{trap_route_v, ExitKind};
use crate::lookup::trap_index;
use crate::outline::ScopeId;
use crate::plan::PlanV;
use crate::traps::TrapKeyV;

verus! {

/// The cleanup of an exit through two lists of scopes is that of the first and then that of the
/// second.
pub proof fn law_routes_compose(p: PlanV, a: Seq<ScopeId>, b: Seq<ScopeId>, kind: ExitKind)
    ensures
        p.route(kind, a + b).kind == kind,
        p.route(kind, a + b).scopes == a + b,
        p.route(kind, a + b).drops == p.route(kind, a).drops + p.route(kind, b).drops,
        p.route(kind, a + b).clears == p.route(kind, a).clears + p.route(kind, b).clears,
    decreases b.len(),
{
    let all = a + b;
    if b.len() == 0 {
        assert(all =~= a);
        assert(p.drops_of(b, 0) =~= Seq::empty());
        assert(p.clears_of(b, 0) =~= Seq::empty());
        assert(p.route(kind, a).drops + p.route(kind, b).drops =~= p.route(kind, a).drops);
        assert(p.route(kind, a).clears + p.route(kind, b).clears =~= p.route(kind, a).clears);
    } else {
        let front = b.drop_last();
        law_routes_compose(p, a, front, kind);
        assert(all.drop_last() =~= a + front);
        assert(all.last() == b.last());
        let n = (all.len() - 1) as nat;
        lemma_prefix(p, all, a + front, n);
        lemma_prefix(p, b, front, (b.len() - 1) as nat);
        let last = p.scopes[b.last().0 as int];
        assert(p.drops_of(all, all.len()) == p.drops_of(a + front, n) + last.drops.reverse());
        assert(p.clears_of(all, all.len()) == p.clears_of(a + front, n) + last.locals.reverse());
        assert(p.route(kind, all).drops =~= p.route(kind, a).drops + p.route(kind, b).drops);
        assert(p.route(kind, all).clears =~= p.route(kind, a).clears + p.route(kind, b).clears);
    }
}

proof fn lemma_prefix(p: PlanV, a: Seq<ScopeId>, b: Seq<ScopeId>, n: nat)
    requires
        n <= a.len(),
        n <= b.len(),
        forall|i: int| 0 <= i < n ==> a[i] == b[i],
    ensures
        p.drops_of(a, n) == p.drops_of(b, n),
        p.clears_of(a, n) == p.clears_of(b, n),
    decreases n,
{
    if n > 0 {
        lemma_prefix(p, a, b, (n - 1) as nat);
    }
}

/// A scope that ends destroys what was declared in it, the last declared first, and clears its
/// names in the same order.
pub proof fn law_scope_ends_last_first(p: PlanV, scope: ScopeId)
    ensures
        p.scope_exit(scope).drops == p.scopes[scope.0 as int].drops.reverse(),
        p.scope_exit(scope).clears == p.scopes[scope.0 as int].locals.reverse(),
{
    reveal_with_fuel(PlanV::drops_of, 2);
    reveal_with_fuel(PlanV::clears_of, 2);
    assert(p.scope_exit(scope).drops =~= p.scopes[scope.0 as int].drops.reverse());
    assert(p.scope_exit(scope).clears =~= p.scopes[scope.0 as int].locals.reverse());
}

/// A return leaves the innermost scope first: its cleanup is that of the scope it is in, and then
/// that of a return from the scope around it.
pub proof fn law_return_leaves_inner_scopes_first(p: PlanV, scope: ScopeId, parent: ScopeId)
    requires
        p.wf(),
        scope.0 < p.scopes.len(),
        scope != p.frame_scope,
        p.scopes[scope.0 as int].parent == Some(parent),
    ensures
        p.return_from(scope, None).lexical.drops == p.scope_exit(scope).drops + p.return_from(
            parent,
            None,
        ).lexical.drops,
        p.return_from(scope, None).lexical.clears == p.scope_exit(scope).clears + p.return_from(
            parent,
            None,
        ).lexical.clears,
        p.return_from(p.frame_scope, None).lexical.drops.len() == 0,
{
    assert(p.lexical_chain(scope) == seq![scope] + p.lexical_chain(parent));
    law_routes_compose(p, seq![scope], p.lexical_chain(parent), ExitKind::Return);
    law_scope_ends_last_first(p, scope);
    reveal_with_fuel(PlanV::drops_of, 2);
    reveal_with_fuel(PlanV::clears_of, 2);
    assert(p.route(ExitKind::Return, seq![scope]).drops =~= p.scope_exit(scope).drops);
    assert(p.route(ExitKind::Return, seq![scope]).clears =~= p.scope_exit(scope).clears);
}

proof fn lemma_met(p: PlanV, keys: Seq<TrapKeyV>, i: nat, met: Seq<nat>)
    requires
        p.meet_traps(keys, i, met) is Ok,
        met.no_duplicates(),
        forall|k: int|
            0 <= k < met.len() ==> (#[trigger] met[k]) < p.trap_sites.len() && p.trap_sites[met[k] as int].route
                == trap_route_v(),
    ensures
        ({
            let all = p.meet_traps(keys, i, met)->Ok_0;
            &&& all.no_duplicates()
            &&& forall|k: int|
                0 <= k < all.len() ==> (#[trigger] all[k]) < p.trap_sites.len()
                    && p.trap_sites[all[k] as int].route == trap_route_v()
        }),
    decreases keys.len() - i,
{
    if i < keys.len() {
        let index = trap_index(p.trap_sites, keys[i as int])->Some_0;
        lemma_trap_from(p, keys[i as int], 0);
        lemma_met(p, keys, i + 1, met.push(index));
    }
}

proof fn lemma_trap_from(p: PlanV, key: TrapKeyV, i: nat)
    ensures
        crate::lookup::trap_from(p.trap_sites, key, i) matches Some(k) ==> k < p.trap_sites.len(),
    decreases p.trap_sites.len() - i,
{
    if i < p.trap_sites.len() {
        lemma_trap_from(p, key, i + 1);
    }
}

/// As many different numbers below a bound as the bound: each number below it is among them.
proof fn lemma_all_present(s: Seq<nat>, n: nat, x: nat)
    requires
        s.no_duplicates(),
        s.len() == n,
        forall|k: int| 0 <= k < s.len() ==> (#[trigger] s[k]) < n,
        x < n,
    ensures
        s.contains(x),
    decreases n,
{
    if !s.contains(x) {
        let last = (n - 1) as nat;
        // The last number stands where `x` is missing, or nowhere.
        let t = Seq::new(
            n,
            |k: int|
                if s[k] == last {
                    x
                } else {
                    s[k]
                },
        );
        assert(t.no_duplicates()) by {
            assert forall|a: int, b: int| 0 <= a < n && 0 <= b < n && a != b implies t[a] != t[b] by {
                assert(s[a] != s[b]);
                assert(s[a] != x && s[b] != x) by {
                    assert(s.contains(s[a]) && s.contains(s[b]));
                }
            }
        }
        if n == 1 {
            assert(s[0] < 1);
            assert(s.contains(s[0]));
        } else {
            // Without the last of them there are `n - 1` different numbers below `n - 1`.
            let front = t.drop_last();
            let missing = t.last();
            assert(forall|k: int| 0 <= k < t.len() ==> (#[trigger] t[k]) < last) by {
                assert forall|k: int| 0 <= k < t.len() implies (#[trigger] t[k]) < last by {
                    assert(s[k] < n);
                    if s[k] == last {
                        assert(x != last) by {
                            assert(s.contains(s[k]));
                        }
                    }
                }
            }
            assert(front.no_duplicates()) by {
                assert forall|a: int, b: int|
                    0 <= a < front.len() && 0 <= b < front.len() && a != b implies front[a]
                    != front[b] by {
                    assert(t[a] != t[b]);
                }
            }
            assert forall|k: int| 0 <= k < front.len() implies (#[trigger] front[k]) < last by {
                assert(front[k] == t[k]);
            }
            assert(missing < last) by {
                assert(t[n - 1] < last);
            }
            lemma_all_present(front, last, missing);
            let k = choose|k: int| 0 <= k < front.len() && front[k] == missing;
            assert(t[k] != t[n - 1]);
            assert(false);
        }
    }
}

/// In a plan that reconciles with its body, every trap leaves through the empty route: it destroys
/// nothing and clears nothing.
pub proof fn law_traps_do_not_unwind(p: PlanV, params: Option<Seq<Param>>, body: Seq<Stmt>, i: int)
    requires
        p.check_shape(params, body) is Ok,
        0 <= i < p.trap_sites.len(),
    ensures
        p.trap_sites[i].route == trap_route_v(),
        p.trap_sites[i].route.drops.len() == 0,
        p.trap_sites[i].route.clears.len() == 0,
{
    let inv = p.ledger_of(params, body)->Ok_0;
    let met = p.meet_traps(inv.traps, 0, Seq::empty())->Ok_0;
    lemma_met(p, inv.traps, 0, Seq::empty());
    assert(met.len() == p.trap_sites.len());
    lemma_all_present(met, p.trap_sites.len(), i as nat);
    let k = choose|k: int| 0 <= k < met.len() && met[k] == i as nat;
    assert(p.trap_sites[met[k] as int].route == trap_route_v());
}

} // verus!
