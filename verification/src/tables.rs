//! Tables of entities with the index of the node that stands for each, and
//! what "the first that matches" and "every one that matches" mean on them.

use crate::entity::{
    ExtensionSqlEntity, PgAggregateEntity, PgExternEntity, PgTriggerEntity, PostgresEnumEntity,
    PostgresHashEntity, PostgresOrdEntity, PostgresTypeEntity, SchemaEntity,
};
use vstd::prelude::*;

verus! {

/// The entities of a graph by kind, each with the index of its node; for a
/// placeholder of a type that nothing declares, the path of the type. An
/// entity that was handed over twice has two entries and two nodes: entries
/// are told apart by their nodes, not by what the entities hold. Of two
/// entries that match a search the first one is found. Only placeholders
/// are kept apart by what they hold: no two stand for one path.
pub struct EntityTables {
    pub schemas: Vec<(SchemaEntity, usize)>,
    pub extension_sqls: Vec<(ExtensionSqlEntity, usize)>,
    pub externs: Vec<(PgExternEntity, usize)>,
    pub types: Vec<(PostgresTypeEntity, usize)>,
    pub builtin_types: Vec<(String, usize)>,
    pub enums: Vec<(PostgresEnumEntity, usize)>,
    pub ords: Vec<(PostgresOrdEntity, usize)>,
    pub hashes: Vec<(PostgresHashEntity, usize)>,
    pub aggregates: Vec<(PgAggregateEntity, usize)>,
    pub triggers: Vec<(PgTriggerEntity, usize)>,
}

/// The tables as sequences.
pub struct Corpus {
    pub schemas: Seq<(SchemaEntity, usize)>,
    pub extension_sqls: Seq<(ExtensionSqlEntity, usize)>,
    pub externs: Seq<(PgExternEntity, usize)>,
    pub types: Seq<(PostgresTypeEntity, usize)>,
    pub builtin_types: Seq<(String, usize)>,
    pub enums: Seq<(PostgresEnumEntity, usize)>,
    pub ords: Seq<(PostgresOrdEntity, usize)>,
    pub hashes: Seq<(PostgresHashEntity, usize)>,
    pub aggregates: Seq<(PgAggregateEntity, usize)>,
    pub triggers: Seq<(PgTriggerEntity, usize)>,
}

impl View for EntityTables {
    type V = Corpus;

    open spec fn view(&self) -> Corpus {
        Corpus {
            schemas: self.schemas@,
            extension_sqls: self.extension_sqls@,
            externs: self.externs@,
            types: self.types@,
            builtin_types: self.builtin_types@,
            enums: self.enums@,
            ords: self.ords@,
            hashes: self.hashes@,
            aggregates: self.aggregates@,
            triggers: self.triggers@,
        }
    }
}

impl Corpus {
    /// Every node index of every table is below `n`.
    pub open spec fn all_in_bounds(&self, n: nat) -> bool {
        &&& in_bounds(self.schemas, n)
        &&& in_bounds(self.extension_sqls, n)
        &&& in_bounds(self.externs, n)
        &&& in_bounds(self.types, n)
        &&& in_bounds(self.builtin_types, n)
        &&& in_bounds(self.enums, n)
        &&& in_bounds(self.ords, n)
        &&& in_bounds(self.hashes, n)
        &&& in_bounds(self.aggregates, n)
        &&& in_bounds(self.triggers, n)
    }
}

/// Every node index of the table is below `n`.
pub open spec fn in_bounds<T>(table: Seq<(T, usize)>, n: nat) -> bool {
    forall|k: int| 0 <= k < table.len() ==> (#[trigger] table[k]).1 < n
}

/// Entry `k` satisfies `p` and no entry before it does.
pub open spec fn is_first<T>(table: Seq<(T, usize)>, p: spec_fn(T) -> bool, k: int) -> bool {
    &&& 0 <= k < table.len()
    &&& p(table[k].0)
    &&& forall|j: int| 0 <= j < k ==> !p((#[trigger] table[j]).0)
}

/// The node of the first entry that satisfies `p`.
pub open spec fn first_where<T>(table: Seq<(T, usize)>, p: spec_fn(T) -> bool) -> Option<usize> {
    if exists|k: int| is_first(table, p, k) {
        Some(table[choose|k: int| is_first(table, p, k)].1)
    } else {
        None
    }
}

/// The nodes of those of the first `n` entries that satisfy `p`, in the
/// order of the table.
pub open spec fn matching<T>(table: Seq<(T, usize)>, p: spec_fn(T) -> bool, n: int) -> Seq<usize>
    decreases n,
{
    if n <= 0 {
        Seq::empty()
    } else if p(table[n - 1].0) {
        matching(table, p, n - 1).push(table[n - 1].1)
    } else {
        matching(table, p, n - 1)
    }
}

/// The nodes of all entries that satisfy `p`, in the order of the table.
pub open spec fn all_where<T>(table: Seq<(T, usize)>, p: spec_fn(T) -> bool) -> Seq<usize> {
    matching(table, p, table.len() as int)
}

/// The first match is the only entry that is first.
pub proof fn lemma_first_where_found<T>(table: Seq<(T, usize)>, p: spec_fn(T) -> bool, k: int)
    requires
        is_first(table, p, k),
    ensures
        first_where(table, p) == Some(table[k].1),
{
    let c = choose|c: int| is_first(table, p, c);
    if c < k {
        assert(!p(table[c].0));
    } else if k < c {
        assert(!p(table[k].0));
    }
}

/// Where nothing matches there is no first match.
pub proof fn lemma_first_where_none<T>(table: Seq<(T, usize)>, p: spec_fn(T) -> bool)
    requires
        forall|j: int| 0 <= j < table.len() ==> !p((#[trigger] table[j]).0),
    ensures
        first_where(table, p) is None,
{
    if exists|k: int| is_first(table, p, k) {
        let k = choose|k: int| is_first(table, p, k);
        assert(!p(table[k].0));
    }
}

/// A first match exists exactly where some entry matches, and it is a node
/// of the table.
pub proof fn lemma_first_where_exists<T>(table: Seq<(T, usize)>, p: spec_fn(T) -> bool)
    ensures
        first_where(table, p) is Some <==> exists|j: int|
            0 <= j < table.len() && p((#[trigger] table[j]).0),
        first_where(table, p) matches Some(t) ==> exists|j: int|
            0 <= j < table.len() && p((#[trigger] table[j]).0) && table[j].1 == t,
{
    if exists|j: int| 0 <= j < table.len() && p((#[trigger] table[j]).0) {
        let j = choose|j: int| 0 <= j < table.len() && p((#[trigger] table[j]).0);
        lemma_some_is_first(table, p, j);
    }
    if first_where(table, p) is Some {
        let k = choose|k: int| is_first(table, p, k);
        assert(0 <= k < table.len() && p(table[k].0) && table[k].1 == first_where(table, p)->0);
    }
}

/// Below a matching entry there is a first one.
pub proof fn lemma_some_is_first<T>(table: Seq<(T, usize)>, p: spec_fn(T) -> bool, j: int)
    requires
        0 <= j < table.len(),
        p(table[j].0),
    ensures
        exists|k: int| 0 <= k <= j && is_first(table, p, k),
    decreases j,
{
    if forall|i: int| 0 <= i < j ==> !p((#[trigger] table[i]).0) {
        assert(is_first(table, p, j));
    } else {
        let i = choose|i: int| 0 <= i < j && p((#[trigger] table[i]).0);
        lemma_some_is_first(table, p, i);
    }
}

/// The first match of a table in bounds is in bounds.
pub proof fn lemma_first_where_in_bounds<T>(table: Seq<(T, usize)>, p: spec_fn(T) -> bool, n: nat)
    requires
        in_bounds(table, n),
    ensures
        first_where(table, p) matches Some(t) ==> t < n,
{
    if first_where(table, p) is Some {
        let k = choose|k: int| is_first(table, p, k);
        assert(table[k].1 < n);
    }
}

/// The matches of a table in bounds are in bounds.
pub proof fn lemma_matching_in_bounds<T>(
    table: Seq<(T, usize)>,
    p: spec_fn(T) -> bool,
    m: int,
    n: nat,
)
    requires
        in_bounds(table, n),
        0 <= m <= table.len(),
    ensures
        forall|i: int|
            0 <= i < matching(table, p, m).len() ==> #[trigger] matching(table, p, m)[i] < n,
    decreases m,
{
    if m > 0 {
        lemma_matching_in_bounds(table, p, m - 1, n);
        assert(table[m - 1].1 < n);
        let before = matching(table, p, m - 1);
        assert forall|i: int| 0 <= i < matching(table, p, m).len() implies #[trigger] matching(
            table,
            p,
            m,
        )[i] < n by {
            if i < before.len() {
                assert(before[i] < n);
            }
        }
    }
}

} // verus!
