//! Placeholders: the nodes that stand for used types that nothing declares.

use crate::entity::{PostgresEnumEntity, PostgresTypeEntity};
use crate::find::{find_builtin, path_is};
use crate::graph::{
    add_node, graph_compact, graph_edges, graph_nodes, EntityGraph, SqlGraphKind, SqlGraphNode,
};
use crate::outcome::{all_edges, lemma_concat_edges_agree};

use crate::nodes::{
    none_of, build_base_edges, lemma_table_matches_grows, lemma_table_matches_push, node_at,
    nodes_of, table_anchor_parts, table_matches,
};
use crate::tables::{first_where, lemma_first_where_exists, lemma_some_is_first};
use crate::uses::{all_covered, covered, declared, is_declared, TypeUse};
use vstd::prelude::*;

verus! {

/// The table of placeholders once one use is taken in. A use of a type that
/// is declared, or for whose path there is a placeholder, changes nothing;
/// any other adds a placeholder for its path, whose node is the next after
/// the `base` nodes that are no placeholders and the placeholders so far.
pub open spec fn absorb(
    builtin_types: Seq<(String, usize)>,
    used: TypeUse,
    types: Seq<(PostgresTypeEntity, usize)>,
    enums: Seq<(PostgresEnumEntity, usize)>,
    base: int,
) -> Seq<(String, usize)> {
    if is_declared(used.ty_id, types, enums) || first_where(builtin_types, path_is(used.path@))
        is Some {
        builtin_types
    } else {
        builtin_types.push((used.path, (base + builtin_types.len()) as usize))
    }
}

/// The table of placeholders once the first `n` uses are taken in, in their
/// order.
pub open spec fn absorbed(
    builtin_types: Seq<(String, usize)>,
    uses: Seq<TypeUse>,
    types: Seq<(PostgresTypeEntity, usize)>,
    enums: Seq<(PostgresEnumEntity, usize)>,
    base: int,
    n: int,
) -> Seq<(String, usize)>
    decreases n,
{
    if n <= 0 {
        builtin_types
    } else {
        absorb(
            absorbed(builtin_types, uses, types, enums, base, n - 1),
            uses[n - 1],
            types,
            enums,
            base,
        )
    }
}

/// No two placeholders of the table stand for the same path.
pub open spec fn distinct_paths(builtin_types: Seq<(String, usize)>) -> bool {
    forall|i: int, j: int|
        0 <= i < j < builtin_types.len() ==> (#[trigger] builtin_types[i]).0@
            != (#[trigger] builtin_types[j]).0@
}

/// `longer` begins with `shorter`.
pub open spec fn begins_with(longer: Seq<(String, usize)>, shorter: Seq<(String, usize)>) -> bool {
    shorter.len() <= longer.len() && forall|i: int|
        0 <= i < shorter.len() ==> #[trigger] longer[i] == shorter[i]
}

/// What has a placeholder keeps it when the table gets longer.
pub proof fn lemma_covered_stays(
    used: TypeUse,
    types: Seq<(PostgresTypeEntity, usize)>,
    enums: Seq<(PostgresEnumEntity, usize)>,
    shorter: Seq<(String, usize)>,
    longer: Seq<(String, usize)>,
)
    requires
        covered(used, types, enums, shorter),
        begins_with(longer, shorter),
    ensures
        covered(used, types, enums, longer),
{
    if !is_declared(used.ty_id, types, enums) {
        lemma_first_where_exists(shorter, path_is(used.path@));
        let j = choose|j: int|
            0 <= j < shorter.len() && path_is(used.path@)((#[trigger] shorter[j]).0);
        assert(longer[j] == shorter[j]);
        lemma_some_is_first(longer, path_is(used.path@), j);
    }
}

/// Taking uses in only adds to the table; it leaves no two placeholders for
/// one path; and each use taken in is then declared or has a placeholder.
pub proof fn lemma_absorbed(
    builtin_types: Seq<(String, usize)>,
    uses: Seq<TypeUse>,
    types: Seq<(PostgresTypeEntity, usize)>,
    enums: Seq<(PostgresEnumEntity, usize)>,
    base: int,
    n: int,
)
    requires
        0 <= n <= uses.len(),
    ensures
        begins_with(absorbed(builtin_types, uses, types, enums, base, n), builtin_types),
        distinct_paths(builtin_types) ==> distinct_paths(
            absorbed(builtin_types, uses, types, enums, base, n),
        ),
        all_covered(
            uses.take(n),
            types,
            enums,
            absorbed(builtin_types, uses, types, enums, base, n),
        ),
    decreases n,
{
    if n > 0 {
        lemma_absorbed(builtin_types, uses, types, enums, base, n - 1);
        let before = absorbed(builtin_types, uses, types, enums, base, n - 1);
        let after = absorbed(builtin_types, uses, types, enums, base, n);
        let used = uses[n - 1];
        assert(begins_with(after, before));
        if after.len() > before.len() {
            lemma_first_where_exists(before, path_is(used.path@));
            assert(after[before.len() as int].0@ == used.path@);
            if distinct_paths(builtin_types) {
                assert forall|i: int, j: int| 0 <= i < j < after.len() implies (
                #[trigger] after[i]).0@ != (#[trigger] after[j]).0@ by {
                    if j == before.len() {
                        assert(after[i] == before[i]);
                        assert(!path_is(used.path@)(before[i].0));
                    } else {
                        assert(after[i] == before[i] && after[j] == before[j]);
                    }
                }
            }
            assert(path_is(used.path@)(after[before.len() as int].0));
            lemma_some_is_first(after, path_is(used.path@), before.len() as int);
        } else {
            assert(after =~= before);
        }
        assert(covered(used, types, enums, after));
        assert forall|i: int| 0 <= i < uses.take(n).len() implies covered(
            #[trigger] uses.take(n)[i],
            types,
            enums,
            after,
        ) by {
            if i < n - 1 {
                assert(uses.take(n - 1)[i] == uses[i]);
                lemma_covered_stays(uses[i], types, enums, before, after);
            }
        }
    }
}

/// Makes a placeholder, with its node, for each used type that is not
/// declared and has none yet.
pub fn ensure_placeholders(
    graph: &mut EntityGraph,
    builtin_types: &mut Vec<(String, usize)>,
    uses: &Vec<TypeUse>,
    types: &Vec<(PostgresTypeEntity, usize)>,
    enums: &Vec<(PostgresEnumEntity, usize)>,
)
    requires
        graph_compact(*old(graph)),
        old(builtin_types)@.len() <= graph_nodes(*old(graph)).len(),
        table_matches(graph_nodes(*old(graph)), old(builtin_types)@, SqlGraphKind::BuiltinType),
    ensures
        graph_compact(*final(graph)),
        graph_edges(*final(graph)) == graph_edges(*old(graph)),
        final(builtin_types)@ == absorbed(
            old(builtin_types)@,
            uses@,
            types@,
            enums@,
            graph_nodes(*old(graph)).len() - old(builtin_types)@.len(),
            uses@.len() as int,
        ),
        graph_nodes(*final(graph)) == graph_nodes(*old(graph)) + nodes_of(
            SqlGraphKind::BuiltinType,
            old(builtin_types)@.len() as int,
            final(builtin_types)@.len() as int,
        ),
        old(builtin_types)@.len() <= final(builtin_types)@.len(),
        table_matches(
            graph_nodes(*final(graph)),
            final(builtin_types)@,
            SqlGraphKind::BuiltinType,
        ),
{
    let ghost base = graph_nodes(*graph).len() - builtin_types@.len();
    let ghost first = builtin_types@.len() as int;
    let mut i: usize = 0;
    while i < uses.len()
        invariant
            i <= uses.len(),
            graph_compact(*graph),
            graph_edges(*graph) == graph_edges(*old(graph)),
            base == graph_nodes(*old(graph)).len() - old(builtin_types)@.len(),
            first == old(builtin_types)@.len(),
            first <= builtin_types@.len(),
            graph_nodes(*graph).len() == base + builtin_types@.len(),
            builtin_types@ == absorbed(
                old(builtin_types)@,
                uses@,
                types@,
                enums@,
                base,
                i as int,
            ),
            graph_nodes(*graph) == graph_nodes(*old(graph)) + nodes_of(
                SqlGraphKind::BuiltinType,
                first,
                builtin_types@.len() as int,
            ),
            table_matches(graph_nodes(*graph), builtin_types@, SqlGraphKind::BuiltinType),
        decreases uses.len() - i,
    {
        if !declared(uses[i].ty_id, types, enums) && find_builtin(
            builtin_types,
            &uses[i].path,
        ).is_none() {
            let ghost nodes = graph_nodes(*graph);
            let ghost table = builtin_types@;
            let index = add_node(
                graph,
                SqlGraphNode { kind: SqlGraphKind::BuiltinType, position: builtin_types.len() },
            );
            builtin_types.push((uses[i].path.clone(), index));
            proof {
                lemma_table_matches_push(
                    nodes,
                    table,
                    SqlGraphKind::BuiltinType,
                    uses@[i as int].path,
                );
            }
        }
        i += 1;
    }
}

/// The uses of each user, as sequences.
pub open spec fn each_view(uses: Seq<Vec<TypeUse>>) -> Seq<Seq<TypeUse>> {
    Seq::new(uses.len(), |k: int| uses[k]@)
}

/// The table of placeholders once the uses of the first `k` users are taken
/// in. The node of each user comes before the placeholders that its uses
/// add; `start` nodes that are no placeholders come before the first user.
pub open spec fn users_absorbed(
    builtin_types: Seq<(String, usize)>,
    uses: Seq<Seq<TypeUse>>,
    types: Seq<(PostgresTypeEntity, usize)>,
    enums: Seq<(PostgresEnumEntity, usize)>,
    start: int,
    k: int,
) -> Seq<(String, usize)>
    decreases k,
{
    if k <= 0 {
        builtin_types
    } else {
        absorbed(
            users_absorbed(builtin_types, uses, types, enums, start, k - 1),
            uses[k - 1],
            types,
            enums,
            start + k,
            uses[k - 1].len() as int,
        )
    }
}

/// The table of the users: the node of each comes after the nodes of the
/// users before it and the placeholders that there are by then.
pub open spec fn user_table<T>(
    items: Seq<T>,
    builtin_types: Seq<(String, usize)>,
    uses: Seq<Seq<TypeUse>>,
    types: Seq<(PostgresTypeEntity, usize)>,
    enums: Seq<(PostgresEnumEntity, usize)>,
    start: int,
) -> Seq<(T, usize)> {
    Seq::new(
        items.len(),
        |k: int|
            (
                items[k],
                (start + k + users_absorbed(builtin_types, uses, types, enums, start, k).len())
                    as usize,
            ),
    )
}

/// Taking the uses of users in only adds to the table of placeholders; it
/// leaves no two placeholders for one path; and every use of each user
/// taken in is then declared or has a placeholder.
pub proof fn lemma_users_absorbed(
    builtin_types: Seq<(String, usize)>,
    uses: Seq<Seq<TypeUse>>,
    types: Seq<(PostgresTypeEntity, usize)>,
    enums: Seq<(PostgresEnumEntity, usize)>,
    start: int,
    k: int,
)
    requires
        0 <= k <= uses.len(),
    ensures
        begins_with(users_absorbed(builtin_types, uses, types, enums, start, k), builtin_types),
        distinct_paths(builtin_types) ==> distinct_paths(
            users_absorbed(builtin_types, uses, types, enums, start, k),
        ),
        forall|j: int|
            0 <= j < k ==> all_covered(
                #[trigger] uses[j],
                types,
                enums,
                users_absorbed(builtin_types, uses, types, enums, start, k),
            ),
    decreases k,
{
    if k > 0 {
        lemma_users_absorbed(builtin_types, uses, types, enums, start, k - 1);
        let before = users_absorbed(builtin_types, uses, types, enums, start, k - 1);
        let after = users_absorbed(builtin_types, uses, types, enums, start, k);
        lemma_absorbed(before, uses[k - 1], types, enums, start + k, uses[k - 1].len() as int);
        assert(uses[k - 1].take(uses[k - 1].len() as int) =~= uses[k - 1]);
        assert forall|j: int| 0 <= j < k implies all_covered(
            #[trigger] uses[j],
            types,
            enums,
            after,
        ) by {
            if j < k - 1 {
                assert forall|i: int| 0 <= i < uses[j].len() implies covered(
                    #[trigger] uses[j][i],
                    types,
                    enums,
                    after,
                ) by {
                    lemma_covered_stays(uses[j][i], types, enums, before, after);
                }
            }
        }
    }
}

/// Makes a node for each of `items`, which use types, in their order: ties
/// it to the anchors, and makes the placeholders that its uses need.
/// `uses[k]` are the uses of item `k`. Gives the table of the items with
/// their nodes.
pub fn initialize_users<T>(
    graph: &mut EntityGraph,
    kind: SqlGraphKind,
    root: usize,
    bootstrap: Option<usize>,
    finalize: Option<usize>,
    items: Vec<T>,
    uses: &Vec<Vec<TypeUse>>,
    builtin_types: &mut Vec<(String, usize)>,
    types: &Vec<(PostgresTypeEntity, usize)>,
    enums: &Vec<(PostgresEnumEntity, usize)>,
) -> (table: Vec<(T, usize)>)
    requires
        graph_compact(*old(graph)),
        root < graph_nodes(*old(graph)).len(),
        bootstrap matches Some(b) ==> b < graph_nodes(*old(graph)).len(),
        finalize matches Some(f) ==> f < graph_nodes(*old(graph)).len(),
        uses@.len() == items@.len(),
        kind != SqlGraphKind::BuiltinType,
        old(builtin_types)@.len() <= graph_nodes(*old(graph)).len(),
        table_matches(graph_nodes(*old(graph)), old(builtin_types)@, SqlGraphKind::BuiltinType),
        none_of(graph_nodes(*old(graph)), kind),
    ensures
        graph_compact(*final(graph)),
        final(builtin_types)@ == users_absorbed(
            old(builtin_types)@,
            each_view(uses@),
            types@,
            enums@,
            graph_nodes(*old(graph)).len() - old(builtin_types)@.len(),
            items@.len() as int,
        ),
        table@ == user_table(
            items@,
            old(builtin_types)@,
            each_view(uses@),
            types@,
            enums@,
            graph_nodes(*old(graph)).len() - old(builtin_types)@.len(),
        ),
        graph_nodes(*final(graph)).len() == graph_nodes(*old(graph)).len() + items@.len()
            + final(builtin_types)@.len() - old(builtin_types)@.len(),
        old(builtin_types)@.len() <= final(builtin_types)@.len(),
        graph_nodes(*final(graph)).take(graph_nodes(*old(graph)).len() as int) == graph_nodes(
            *old(graph),
        ),
        forall|i: int|
            graph_nodes(*old(graph)).len() <= i < graph_nodes(*final(graph)).len() ==> {
                ||| (#[trigger] graph_nodes(*final(graph))[i]).kind == kind
                ||| graph_nodes(*final(graph))[i].kind == SqlGraphKind::BuiltinType
            },
        table_matches(graph_nodes(*final(graph)), table@, kind),
        table_matches(
            graph_nodes(*final(graph)),
            final(builtin_types)@,
            SqlGraphKind::BuiltinType,
        ),
        graph_edges(*final(graph)) == graph_edges(*old(graph)) + all_edges(
            table_anchor_parts(table@, Some(root), bootstrap, finalize),
        ),
{
    let ghost nodes0 = graph_nodes(*graph);
    let ghost first = builtin_types@;
    let ghost start = nodes0.len() - first.len();
    let ghost all_uses = each_view(uses@);
    let mut table: Vec<(T, usize)> = Vec::new();
    for item in it: items
        invariant
            it.seq() == items@,
            uses@.len() == items@.len(),
            kind != SqlGraphKind::BuiltinType,
            nodes0 == graph_nodes(*old(graph)),
            first == old(builtin_types)@,
            start == nodes0.len() - first.len(),
            start >= 0,
            all_uses == each_view(uses@),
            root < nodes0.len(),
            bootstrap matches Some(b) ==> b < nodes0.len(),
            finalize matches Some(f) ==> f < nodes0.len(),
            graph_compact(*graph),
            builtin_types@ == users_absorbed(
                first,
                all_uses,
                types@,
                enums@,
                start,
                it.index() as int,
            ),
            table@ == user_table(
                items@.take(it.index() as int),
                first,
                all_uses,
                types@,
                enums@,
                start,
            ),
            graph_nodes(*graph).len() == start + it.index() + builtin_types@.len(),
            first.len() <= builtin_types@.len(),
            nodes0.len() <= graph_nodes(*graph).len(),
            graph_nodes(*graph).take(nodes0.len() as int) == nodes0,
            forall|i: int|
                nodes0.len() <= i < graph_nodes(*graph).len() ==> {
                    ||| (#[trigger] graph_nodes(*graph)[i]).kind == kind
                    ||| graph_nodes(*graph)[i].kind == SqlGraphKind::BuiltinType
                },
            table_matches(graph_nodes(*graph), table@, kind),
            table_matches(graph_nodes(*graph), builtin_types@, SqlGraphKind::BuiltinType),
            graph_edges(*graph) == graph_edges(*old(graph)) + all_edges(
                table_anchor_parts(table@, Some(root), bootstrap, finalize),
            ),
    {
        let ghost k = it.index() as int;
        let ghost nodes1 = graph_nodes(*graph);
        let ghost table1 = table@;
        let ghost builtins1 = builtin_types@;
        let at = table.len();
        let index = add_node(graph, SqlGraphNode { kind, position: at });
        proof {
            lemma_table_matches_push(nodes1, table1, kind, item);
            lemma_table_matches_grows(
                nodes1,
                seq![node_at(kind, k)],
                builtins1,
                SqlGraphKind::BuiltinType,
            );
        }
        table.push((item, index));
        let ghost nodes2 = graph_nodes(*graph);
        build_base_edges(graph, index, root, bootstrap, finalize);
        ensure_placeholders(graph, builtin_types, &uses[at], types, enums);
        proof {
            let more = nodes_of(
                SqlGraphKind::BuiltinType,
                builtins1.len() as int,
                builtin_types@.len() as int,
            );
            lemma_table_matches_grows(nodes2, more, table@, kind);
            let parts1 = table_anchor_parts(table1, Some(root), bootstrap, finalize);
            let parts2 = table_anchor_parts(table@, Some(root), bootstrap, finalize);
            lemma_concat_edges_agree(parts1, parts2, k);
        }
    }
    table
}

} // verus!
