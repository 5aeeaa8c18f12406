//! How the edges of steps add up, and the outcomes of steps that may fail.

use crate::error::BuildError;
use crate::graph::{Edge, EntityGraph};
use crate::links::extended_by;
use vstd::prelude::*;

verus! {

/// How a step fails: the edges that it draws before it fails, and why it
/// fails.
pub struct Failure {
    pub drawn: Seq<Edge>,
    pub error: BuildError,
}

/// The edges that a step draws, or how it fails.
pub type Outcome = Result<Seq<Edge>, Failure>;

/// A step that fails before it draws an edge.
pub open spec fn fails(error: BuildError) -> Outcome {
    Err(Failure { drawn: Seq::empty(), error })
}

/// One step after another: the edges of both, or the first failure, behind
/// the edges drawn before it.
pub open spec fn and_then(first: Outcome, second: Outcome) -> Outcome {
    match first {
        Err(f) => Err(f),
        Ok(a) => match second {
            Err(f) => Err(Failure { drawn: a + f.drawn, error: f.error }),
            Ok(b) => Ok(a + b),
        },
    }
}

/// Whether a step with the outcome `outcome` may have made `after` of
/// `before` and returned `r`: it drew the edges of the outcome and returned
/// its failure, if it is one.
pub open spec fn follows<T>(
    outcome: Outcome,
    before: EntityGraph,
    after: EntityGraph,
    r: Result<T, BuildError>,
) -> bool {
    match r {
        Ok(_) => outcome matches Ok(added) && extended_by(before, after, added),
        Err(e) => outcome matches Err(f) && f.error == e && extended_by(before, after, f.drawn),
    }
}

/// The first `n` steps one after another.
pub open spec fn fold_outcomes(steps: Seq<Outcome>, n: int) -> Outcome
    decreases n,
{
    if n <= 0 {
        Ok(Seq::empty())
    } else {
        and_then(fold_outcomes(steps, n - 1), steps[n - 1])
    }
}

/// All steps one after another.
pub open spec fn all_outcomes(steps: Seq<Outcome>) -> Outcome {
    fold_outcomes(steps, steps.len() as int)
}

/// The edges of the first `n` parts, one part after another.
pub open spec fn concat_edges(parts: Seq<Seq<Edge>>, n: int) -> Seq<Edge>
    decreases n,
{
    if n <= 0 {
        Seq::empty()
    } else {
        concat_edges(parts, n - 1) + parts[n - 1]
    }
}

/// The edges of all parts.
pub open spec fn all_edges(parts: Seq<Seq<Edge>>) -> Seq<Edge> {
    concat_edges(parts, parts.len() as int)
}

/// Parts that agree give the same edges.
pub proof fn lemma_concat_edges_agree(a: Seq<Seq<Edge>>, b: Seq<Seq<Edge>>, n: int)
    requires
        0 <= n <= a.len(),
        n <= b.len(),
        forall|i: int| 0 <= i < n ==> a[i] == b[i],
    ensures
        concat_edges(a, n) == concat_edges(b, n),
    decreases n,
{
    if n > 0 {
        lemma_concat_edges_agree(a, b, n - 1);
    }
}

/// Every edge of a part is among the edges of the parts.
pub proof fn lemma_concat_edges_has(parts: Seq<Seq<Edge>>, n: int, k: int, i: int)
    requires
        0 <= k < n <= parts.len(),
        0 <= i < parts[k].len(),
    ensures
        concat_edges(parts, n).contains(parts[k][i]),
    decreases n,
{
    let before = concat_edges(parts, n - 1);
    let all = concat_edges(parts, n);
    if k == n - 1 {
        assert(all[before.len() + i] == parts[k][i]);
    } else {
        lemma_concat_edges_has(parts, n - 1, k, i);
        let j = choose|j: int| 0 <= j < before.len() && before[j] == parts[k][i];
        assert(all[j] == parts[k][i]);
    }
}

/// What holds of every edge of each part holds of every edge of the parts.
pub proof fn lemma_concat_edges_each(parts: Seq<Seq<Edge>>, n: int, holds: spec_fn(Edge) -> bool)
    requires
        0 <= n <= parts.len(),
        forall|k: int, i: int|
            0 <= k < n && 0 <= i < parts[k].len() ==> holds(#[trigger] parts[k][i]),
    ensures
        forall|j: int|
            0 <= j < concat_edges(parts, n).len() ==> holds(#[trigger] concat_edges(parts, n)[j]),
    decreases n,
{
    if n > 0 {
        lemma_concat_edges_each(parts, n - 1, holds);
        let before = concat_edges(parts, n - 1);
    }
}

/// Once a step has failed, the outcome is that failure, behind the edges
/// of the steps before it, however many steps follow.
pub proof fn lemma_failure_stays(steps: Seq<Outcome>, at: int, n: int)
    requires
        0 <= at < n,
        fold_outcomes(steps, at) is Ok,
        steps[at] is Err,
    ensures
        fold_outcomes(steps, n) == and_then(fold_outcomes(steps, at), steps[at]),
        fold_outcomes(steps, n) is Err,
    decreases n - at,
{
    if n > at + 1 {
        lemma_failure_stays(steps, at, n - 1);
    }
}

/// The outcome is a failure exactly where some step fails, and then it is
/// the failure of the first step that fails.
pub proof fn lemma_fold_outcomes(steps: Seq<Outcome>, n: int)
    requires
        0 <= n <= steps.len(),
    ensures
        fold_outcomes(steps, n) is Ok <==> forall|i: int| 0 <= i < n ==> steps[i] is Ok,
        fold_outcomes(steps, n) matches Err(f) ==> exists|i: int|
            0 <= i < n && (#[trigger] steps[i]) is Err && steps[i]->Err_0.error == f.error
                && forall|j: int| 0 <= j < i ==> steps[j] is Ok,
    decreases n,
{
    if n > 0 {
        lemma_fold_outcomes(steps, n - 1);
    }
}

/// Whether every edge of `part` is among `edges`.
pub open spec fn holds_all(edges: Seq<Edge>, part: Seq<Edge>) -> bool {
    forall|i: int| 0 <= i < part.len() ==> edges.contains(#[trigger] part[i])
}

/// Two sequences one after the other hold the edges of both.
pub proof fn lemma_holds_all_add(a: Seq<Edge>, b: Seq<Edge>)
    ensures
        holds_all(a + b, a),
        holds_all(a + b, b),
{
    assert forall|i: int| 0 <= i < a.len() implies (a + b).contains(#[trigger] a[i]) by {
        assert((a + b)[i] == a[i]);
    }
    assert forall|i: int| 0 <= i < b.len() implies (a + b).contains(#[trigger] b[i]) by {
        assert((a + b)[a.len() + i] == b[i]);
    }
}

/// What holds all edges of a sequence holds all edges of what that sequence
/// holds.
pub proof fn lemma_holds_all_within(edges: Seq<Edge>, part: Seq<Edge>, inner: Seq<Edge>)
    requires
        holds_all(edges, part),
        holds_all(part, inner),
    ensures
        holds_all(edges, inner),
{
    assert forall|i: int| 0 <= i < inner.len() implies edges.contains(#[trigger] inner[i]) by {
        assert(part.contains(inner[i]));
        let j = choose|j: int| 0 <= j < part.len() && part[j] == inner[i];
        assert(edges.contains(part[j]));
    }
}

/// The edges of the parts hold the edges of each part.
pub proof fn lemma_concat_edges_holds(parts: Seq<Seq<Edge>>, n: int, k: int)
    requires
        0 <= k < n <= parts.len(),
    ensures
        holds_all(concat_edges(parts, n), parts[k]),
{
    assert forall|i: int| 0 <= i < parts[k].len() implies concat_edges(parts, n).contains(
        #[trigger] parts[k][i],
    ) by {
        lemma_concat_edges_has(parts, n, k, i);
    }
}

/// Where one step after another succeeds, both do, and the edges of the
/// two hold those of each.
pub proof fn lemma_and_then_holds(first: Outcome, second: Outcome)
    requires
        and_then(first, second) is Ok,
    ensures
        first is Ok,
        second is Ok,
        holds_all(and_then(first, second)->Ok_0, first->Ok_0),
        holds_all(and_then(first, second)->Ok_0, second->Ok_0),
{
    lemma_holds_all_add(first->Ok_0, second->Ok_0);
}

/// Where the steps succeed, each does, and the edges of all hold those of
/// each.
pub proof fn lemma_fold_outcomes_holds(steps: Seq<Outcome>, n: int, k: int)
    requires
        0 <= k < n <= steps.len(),
        fold_outcomes(steps, n) is Ok,
    ensures
        steps[k] is Ok,
        holds_all(fold_outcomes(steps, n)->Ok_0, steps[k]->Ok_0),
    decreases n,
{
    let before = fold_outcomes(steps, n - 1);
    lemma_and_then_holds(before, steps[n - 1]);
    if k < n - 1 {
        lemma_fold_outcomes_holds(steps, n - 1, k);
        lemma_holds_all_within(fold_outcomes(steps, n)->Ok_0, before->Ok_0, steps[k]->Ok_0);
    }
}

} // verus!
