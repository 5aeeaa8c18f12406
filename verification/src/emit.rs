//! The SQL of the whole graph: what each entity is rendered to, in an order
//! that respects the edges.

use crate::order::{acyclic, is_linearization, on_cycle};
use crate::pgx_sql::{CycleError, PgxSql};
use vstd::prelude::*;
use vstd::string::*;

verus! {

/// Why no SQL was written.
#[derive(Debug, Clone, PartialEq, Eq)]
pub enum SqlError<E> {
    /// The entities cannot be put in order.
    Cycle(CycleError),
    /// The entity at the node `node` could not be rendered.
    Render { node: usize, reason: E },
}

/// The first `n` parts, each that is not empty followed by a line break.
pub open spec fn assembled(parts: Seq<Seq<char>>, n: int) -> Seq<char>
    decreases n,
{
    if n <= 0 {
        Seq::empty()
    } else if parts[n - 1].len() == 0 {
        assembled(parts, n - 1)
    } else {
        assembled(parts, n - 1) + parts[n - 1] + seq!['\n']
    }
}

/// The parts in one text: each part that is not empty, followed by a line
/// break.
pub fn assemble(parts: &Vec<String>) -> (text: String)
    ensures
        text@ == assembled(texts_of(parts@), parts@.len() as int),
{
    let ghost texts = texts_of(parts@);
    let mut text = String::new();
    let mut i: usize = 0;
    while i < parts.len()
        invariant
            i <= parts.len(),
            texts == texts_of(parts@),
            text@ == assembled(texts, i as int),
        decreases parts.len() - i,
    {
        if !parts[i].as_str().is_empty() {
            proof {
                reveal_strlit("\n");
            }
            text.append(parts[i].as_str());
            text.append("\n");
        }
        i += 1;
    }
    text
}

/// Whether `parts` are what `render` made of the nodes of `order`, one by
/// one.
pub open spec fn rendered<E, F: Fn(usize) -> Result<String, E>>(
    render: F,
    order: Seq<usize>,
    parts: Seq<String>,
) -> bool {
    &&& parts.len() == order.len()
    &&& forall|i: int|
        0 <= i < order.len() ==> call_ensures(render, (#[trigger] order[i],), Ok(parts[i]))
}

/// The texts of the parts.
pub open spec fn texts_of(parts: Seq<String>) -> Seq<Seq<char>> {
    Seq::new(parts.len(), |i: int| parts[i]@)
}

impl PgxSql {
    /// The SQL of every entity, in an order that respects the edges: what
    /// `render` makes of each node, each text that is not empty followed by
    /// a line break. Fails where there is a cycle, and at the first node
    /// in the order that `render` fails on: every node before it in the
    /// order was rendered.
    pub fn to_sql<E, F: Fn(usize) -> Result<String, E>>(&self, render: F) -> (r: Result<
        String,
        SqlError<E>,
    >)
        requires
            forall|node: usize| node < self@.nodes.len() ==> call_requires(render, (node,)),
        ensures
            match r {
                Ok(text) => exists|order: Seq<usize>, parts: Seq<String>|
                    {
                        &&& #[trigger] rendered(render, order, parts)
                        &&& is_linearization(order, self@.nodes.len(), self@.edges)
                        &&& text@ == assembled(texts_of(parts), parts.len() as int)
                    },
                Err(SqlError::Cycle(e)) => e.node < self@.nodes.len() && on_cycle(
                    self@.edges,
                    e.node as int,
                ),
                Err(SqlError::Render { node, reason }) => {
                    &&& acyclic(self@.edges)
                    &&& node < self@.nodes.len()
                    &&& call_ensures(render, (node,), Err(reason))
                    &&& exists|order: Seq<usize>, parts: Seq<String>|
                        {
                            &&& #[trigger] rendered(render, order.take(parts.len() as int), parts)
                            &&& is_linearization(order, self@.nodes.len(), self@.edges)
                            &&& parts.len() < order.len()
                            &&& order[parts.len() as int] == node
                        }
                },
            },
    {
        let order = match self.linearize() {
            Ok(order) => order,
            Err(e) => {
                return Err(SqlError::Cycle(e));
            },
        };
        let mut parts: Vec<String> = Vec::new();
        let mut i: usize = 0;
        while i < order.len()
            invariant
                i <= order.len(),
                parts@.len() == i,
                is_linearization(order@, self@.nodes.len(), self@.edges),
                acyclic(self@.edges),
                forall|node: usize| node < self@.nodes.len() ==> call_requires(render, (node,)),
                forall|j: int|
                    0 <= j < i ==> call_ensures(render, (#[trigger] order@[j],), Ok(parts@[j])),
            decreases order.len() - i,
        {
            let node = order[i];
            match render(node) {
                Ok(part) => {
                    parts.push(part);
                },
                Err(reason) => {
                    proof {
                        assert(rendered(render, order@.take(parts@.len() as int), parts@));
                    }
                    return Err(SqlError::Render { node, reason });
                },
            }
            i += 1;
        }
        proof {
            assert(rendered(render, order@, parts@));
        }
        Ok(assemble(&parts))
    }
}

} // verus!
