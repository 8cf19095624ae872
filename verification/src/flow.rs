//! Normal and return reachability of statement sequences.
use vstd::prelude::*;

use crate::ast::Stmt;
use crate::repr::Repr;

verus! {

/// Where control can go after a statement sequence.
///
/// Dynamic traps are outside these facts: they end execution without cleanup and are no return
/// edge.
#[derive(Clone, Copy, Debug, PartialEq, Eq, Structural)]
pub struct FlowSummary {
    /// Control can reach what follows.
    pub reaches_next: bool,
    /// Some path from the start reaches a `return`.
    pub has_reachable_return: bool,
    /// A `return` occurs anywhere in the syntax, reachable or not.
    pub contains_return: bool,
}

impl View for FlowSummary {
    type V = FlowSummary;

    open spec fn view(&self) -> FlowSummary {
        *self
    }
}

impl Repr for FlowSummary {
    fn copy(&self) -> (r: Self) {
        *self
    }

    fn same(&self, other: &Self) -> (r: bool) {
        *self == *other
    }
}

/// Flow of a statement that always continues.
pub open spec fn fallthrough_flow() -> FlowSummary {
    FlowSummary { reaches_next: true, has_reachable_return: false, contains_return: false }
}

/// Flow of a `return`.
pub open spec fn return_flow() -> FlowSummary {
    FlowSummary { reaches_next: false, has_reachable_return: true, contains_return: true }
}

/// Flow of `first` followed by `next`.
pub open spec fn seq_flow(first: FlowSummary, next: FlowSummary) -> FlowSummary {
    FlowSummary {
        reaches_next: first.reaches_next && next.reaches_next,
        has_reachable_return: first.has_reachable_return || (first.reaches_next
            && next.has_reachable_return),
        contains_return: first.contains_return || next.contains_return,
    }
}

/// Flow of a choice between two sequences.
pub open spec fn branch_flow(a: FlowSummary, b: FlowSummary) -> FlowSummary {
    FlowSummary {
        reaches_next: a.reaches_next || b.reaches_next,
        has_reachable_return: a.has_reachable_return || b.has_reachable_return,
        contains_return: a.contains_return || b.contains_return,
    }
}

/// Flow of a loop around a body. The condition may be false before the first iteration.
pub open spec fn loop_flow(body: FlowSummary) -> FlowSummary {
    FlowSummary { reaches_next: true, ..body }
}

/// Flow of one statement.
pub open spec fn stmt_flow(s: Stmt) -> FlowSummary
    decreases s, 0nat,
{
    match s {
        Stmt::Return { .. } => return_flow(),
        Stmt::If { then_block, else_block, .. } => branch_flow(
            stmts_flow(then_block@, then_block@.len()),
            match else_block {
                Some(e) => stmts_flow(e@, e@.len()),
                None => fallthrough_flow(),
            },
        ),
        Stmt::While { body, .. } => loop_flow(stmts_flow(body@, body@.len())),
        Stmt::Unsafe { body, .. } => stmts_flow(body@, body@.len()),
        Stmt::Expose { body, .. } => stmts_flow(body@, body@.len()),
        _ => fallthrough_flow(),
    }
}

/// Flow of the first `n` statements of a sequence.
pub open spec fn stmts_flow(s: Seq<Stmt>, n: nat) -> FlowSummary
    decreases s, n,
{
    if n == 0 || n > s.len() {
        fallthrough_flow()
    } else {
        seq_flow(stmts_flow(s, (n - 1) as nat), stmt_flow(s[n - 1]))
    }
}

/// Flow of a whole block.
pub open spec fn block_flow(s: Seq<Stmt>) -> FlowSummary {
    stmts_flow(s, s.len())
}

impl FlowSummary {
    pub fn fallthrough() -> (r: FlowSummary)
        ensures
            r == fallthrough_flow(),
    {
        FlowSummary { reaches_next: true, has_reachable_return: false, contains_return: false }
    }

    pub fn returning() -> (r: FlowSummary)
        ensures
            r == return_flow(),
    {
        FlowSummary { reaches_next: false, has_reachable_return: true, contains_return: true }
    }

    pub fn followed_by(self, next: FlowSummary) -> (r: FlowSummary)
        ensures
            r == seq_flow(self, next),
    {
        FlowSummary {
            reaches_next: self.reaches_next && next.reaches_next,
            has_reachable_return: self.has_reachable_return || (self.reaches_next
                && next.has_reachable_return),
            contains_return: self.contains_return || next.contains_return,
        }
    }

    pub fn or_else(self, other: FlowSummary) -> (r: FlowSummary)
        ensures
            r == branch_flow(self, other),
    {
        FlowSummary {
            reaches_next: self.reaches_next || other.reaches_next,
            has_reachable_return: self.has_reachable_return || other.has_reachable_return,
            contains_return: self.contains_return || other.contains_return,
        }
    }

    pub fn looped(self) -> (r: FlowSummary)
        ensures
            r == loop_flow(self),
    {
        FlowSummary {
            reaches_next: true,
            has_reachable_return: self.has_reachable_return,
            contains_return: self.contains_return,
        }
    }

    /// Every normally reaching path through the sequence returns.
    pub fn definitely_returns(self) -> (r: bool)
        ensures
            r == (self.has_reachable_return && !self.reaches_next),
    {
        self.has_reachable_return && !self.reaches_next
    }

    pub fn can_fall_through(self) -> (r: bool)
        ensures
            r == self.reaches_next,
    {
        self.reaches_next
    }

    pub fn has_reachable_return(self) -> (r: bool)
        ensures
            r == self.has_reachable_return,
    {
        self.has_reachable_return
    }

    pub fn contains_return(self) -> (r: bool)
        ensures
            r == self.contains_return,
    {
        self.contains_return
    }
}

/// Flow of a block, computed statement by statement.
pub fn summarize_block(statements: &[Stmt]) -> (r: FlowSummary)
    ensures
        r == block_flow(statements@),
    decreases statements@, statements@.len() + 1,
{
    let n: usize = statements.len();
    let mut flow = FlowSummary::fallthrough();
    let mut i: usize = 0;
    while i < n
        invariant
            n == statements@.len(),
            i <= n,
            flow == stmts_flow(statements@, i as nat),
        decreases n - i,
    {
        flow = flow.followed_by(summarize_statement(&statements[i]));
        i = i + 1;
    }
    flow
}

/// Flow of one statement.
pub fn summarize_statement(statement: &Stmt) -> (r: FlowSummary)
    ensures
        r == stmt_flow(*statement),
    decreases statement, 0nat,
{
    match statement {
        Stmt::Return { .. } => FlowSummary::returning(),
        Stmt::If { then_block, else_block, .. } => {
            let then_flow = summarize_block(then_block.as_slice());
            let else_flow = match else_block {
                Some(e) => summarize_block(e.as_slice()),
                None => FlowSummary::fallthrough(),
            };
            then_flow.or_else(else_flow)
        },
        Stmt::While { body, .. } => summarize_block(body.as_slice()).looped(),
        Stmt::Unsafe { body, .. } => summarize_block(body.as_slice()),
        Stmt::Expose { body, .. } => summarize_block(body.as_slice()),
        _ => FlowSummary::fallthrough(),
    }
}

/// Running one block after another composes their flows.
pub proof fn law_flow_of_concatenation(a: Seq<Stmt>, b: Seq<Stmt>)
    ensures
        block_flow(a + b) == seq_flow(block_flow(a), block_flow(b)),
{
    lemma_flow_prefix(a, b, a.len());
    lemma_flow_suffix(a, b, b.len());
}

proof fn lemma_flow_prefix(a: Seq<Stmt>, b: Seq<Stmt>, n: nat)
    requires
        n <= a.len(),
    ensures
        stmts_flow(a + b, n) == stmts_flow(a, n),
    decreases n,
{
    if n > 0 {
        lemma_flow_prefix(a, b, (n - 1) as nat);
        assert((a + b)[n - 1] == a[n - 1]);
    }
}

proof fn lemma_flow_suffix(a: Seq<Stmt>, b: Seq<Stmt>, n: nat)
    requires
        n <= b.len(),
    ensures
        stmts_flow(a + b, a.len() + n) == seq_flow(block_flow(a), stmts_flow(b, n)),
    decreases n,
{
    if n > 0 {
        lemma_flow_suffix(a, b, (n - 1) as nat);
        assert((a + b)[a.len() + n - 1] == b[n - 1]);
    } else {
        lemma_flow_prefix(a, b, a.len());
    }
}

/// A reachable return is a return in the syntax, and control leaves every block by a return or
/// by its end.
pub proof fn law_flow_is_coherent(s: Seq<Stmt>)
    ensures
        block_flow(s).has_reachable_return ==> block_flow(s).contains_return,
        block_flow(s).reaches_next || block_flow(s).has_reachable_return,
{
    lemma_stmts_coherent(s, s.len());
}

pub open spec fn coherent(f: FlowSummary) -> bool {
    (f.has_reachable_return ==> f.contains_return) && (f.reaches_next || f.has_reachable_return)
}

proof fn lemma_stmts_coherent(s: Seq<Stmt>, n: nat)
    requires
        n <= s.len(),
    ensures
        coherent(stmts_flow(s, n)),
    decreases s, n,
{
    if n > 0 {
        lemma_stmts_coherent(s, (n - 1) as nat);
        lemma_stmt_coherent(s[n - 1]);
    }
}

proof fn lemma_stmt_coherent(s: Stmt)
    ensures
        coherent(stmt_flow(s)),
    decreases s, 0nat,
{
    match s {
        Stmt::If { then_block, else_block, .. } => {
            lemma_stmts_coherent(then_block@, then_block@.len());
            match else_block {
                Some(e) => lemma_stmts_coherent(e@, e@.len()),
                None => {},
            }
        },
        Stmt::While { body, .. } => lemma_stmts_coherent(body@, body@.len()),
        Stmt::Unsafe { body, .. } => lemma_stmts_coherent(body@, body@.len()),
        Stmt::Expose { body, .. } => lemma_stmts_coherent(body@, body@.len()),
        _ => {},
    }
}

} // verus!
