//! Which edges a build draws, and for which entities it succeeds.

use crate::aggregates::{
    aggregate_edges, aggregate_outcome, aggregate_outcomes, support_functions, support_outcomes,
};
use crate::classes::{hash_edges, hash_parts, ord_edges, ord_parts};
use crate::classify::Classified;
use crate::connect::{
    attr_outcomes, extern_outcome, extern_outcomes, extern_rest, require_outcome,
    require_outcomes, schema_declared, schema_edges, target_of, use_edges, uses_parts,
};
use crate::entity::{ExternArgs, PositioningRef};
use crate::find::{enum_with, extern_at, path_is, schema_in, schema_named, type_with};
use crate::fragments::{
    enum_parts, root_to_schemas, sql_outcome, sql_outcomes, trigger_parts, type_parts,
};
use crate::graph::{Edge, SqlGraphRelationship};
use crate::initialize::anchor_outcomes;
use crate::laws::law_placeholders_are_there;

use crate::order::{acyclic, comes_before, has_edge, is_linearization, is_walk, on_cycle};
use crate::outcome::{
    all_edges, all_outcomes, and_then, holds_all, lemma_and_then_holds, lemma_concat_edges_holds,
    lemma_fold_outcomes, lemma_fold_outcomes_holds, lemma_holds_all_add, lemma_holds_all_within,
    Outcome,
};
use crate::plan::{
    build_outcome, connect_outcome, node_edges, planned, planned_bootstrap, planned_finalize,
};
use crate::tables::{all_where, first_where, Corpus};
use crate::text::joined;
use crate::uses::{extern_uses, is_declared};
use vstd::prelude::*;

verus! {

/// Where the edge phase succeeds, each of its passes does, and its edges
/// hold those of each pass.
pub proof fn lemma_connect_phase_holds(t: Corpus, root: usize)
    requires
        connect_outcome(t, root) is Ok,
    ensures
        all_outcomes(sql_outcomes(t)) is Ok,
        all_outcomes(extern_outcomes(t)) is Ok,
        all_outcomes(aggregate_outcomes(t)) is Ok,
        holds_all(connect_outcome(t, root)->Ok_0, root_to_schemas(t.schemas, root)),
        holds_all(connect_outcome(t, root)->Ok_0, all_outcomes(sql_outcomes(t))->Ok_0),
        holds_all(connect_outcome(t, root)->Ok_0, all_edges(enum_parts(t.enums, t.schemas))),
        holds_all(connect_outcome(t, root)->Ok_0, all_edges(type_parts(t.types, t.schemas))),
        holds_all(connect_outcome(t, root)->Ok_0, all_outcomes(extern_outcomes(t))->Ok_0),
        holds_all(connect_outcome(t, root)->Ok_0, all_edges(ord_parts(t))),
        holds_all(connect_outcome(t, root)->Ok_0, all_edges(hash_parts(t))),
        holds_all(connect_outcome(t, root)->Ok_0, all_outcomes(aggregate_outcomes(t))->Ok_0),
        holds_all(
            connect_outcome(t, root)->Ok_0,
            all_edges(trigger_parts(t.triggers, t.schemas)),
        ),
{
    let schemas: Outcome = Ok(root_to_schemas(t.schemas, root));
    let sqls = all_outcomes(sql_outcomes(t));
    let enums: Outcome = Ok(all_edges(enum_parts(t.enums, t.schemas)));
    let types: Outcome = Ok(all_edges(type_parts(t.types, t.schemas)));
    let externs = all_outcomes(extern_outcomes(t));
    let ords: Outcome = Ok(all_edges(ord_parts(t)));
    let hashes: Outcome = Ok(all_edges(hash_parts(t)));
    let aggregates = all_outcomes(aggregate_outcomes(t));
    let triggers: Outcome = Ok(all_edges(trigger_parts(t.triggers, t.schemas)));
    let upto_sqls = and_then(schemas, sqls);
    let upto_enums = and_then(upto_sqls, enums);
    let upto_types = and_then(upto_enums, types);
    let upto_externs = and_then(upto_types, externs);
    let upto_ords = and_then(upto_externs, ords);
    let upto_hashes = and_then(upto_ords, hashes);
    let upto_aggregates = and_then(upto_hashes, aggregates);
    let all = and_then(upto_aggregates, triggers);
    assert(all == connect_outcome(t, root));
    let edges = all->Ok_0;
    lemma_and_then_holds(upto_aggregates, triggers);
    lemma_and_then_holds(upto_hashes, aggregates);
    lemma_holds_all_within(edges, upto_aggregates->Ok_0, upto_hashes->Ok_0);
    lemma_holds_all_within(edges, upto_aggregates->Ok_0, aggregates->Ok_0);
    lemma_and_then_holds(upto_ords, hashes);
    lemma_holds_all_within(edges, upto_hashes->Ok_0, upto_ords->Ok_0);
    lemma_holds_all_within(edges, upto_hashes->Ok_0, hashes->Ok_0);
    lemma_and_then_holds(upto_externs, ords);
    lemma_holds_all_within(edges, upto_ords->Ok_0, upto_externs->Ok_0);
    lemma_holds_all_within(edges, upto_ords->Ok_0, ords->Ok_0);
    lemma_and_then_holds(upto_types, externs);
    lemma_holds_all_within(edges, upto_externs->Ok_0, upto_types->Ok_0);
    lemma_holds_all_within(edges, upto_externs->Ok_0, externs->Ok_0);
    lemma_and_then_holds(upto_enums, types);
    lemma_holds_all_within(edges, upto_types->Ok_0, upto_enums->Ok_0);
    lemma_holds_all_within(edges, upto_types->Ok_0, types->Ok_0);
    lemma_and_then_holds(upto_sqls, enums);
    lemma_holds_all_within(edges, upto_enums->Ok_0, upto_sqls->Ok_0);
    lemma_holds_all_within(edges, upto_enums->Ok_0, enums->Ok_0);
    lemma_and_then_holds(schemas, sqls);
    lemma_holds_all_within(edges, upto_sqls->Ok_0, schemas->Ok_0);
    lemma_holds_all_within(edges, upto_sqls->Ok_0, sqls->Ok_0);
}

/// Where a build succeeds, there is a control entity, the anchors do not
/// clash and the edge phase succeeds; the edges of the build hold those of
/// the node phase and those of the edge phase.
pub proof fn lemma_build_holds(c: Classified)
    requires
        build_outcome(c) is Ok,
    ensures
        c.control is Some,
        all_outcomes(anchor_outcomes(c.extension_sqls)) is Ok,
        connect_outcome(planned(c), 0) is Ok,
        holds_all(
            build_outcome(c)->Ok_0,
            node_edges(planned(c), 0, planned_bootstrap(c), planned_finalize(c)),
        ),
        holds_all(build_outcome(c)->Ok_0, connect_outcome(planned(c), 0)->Ok_0),
{
    let anchors = all_outcomes(anchor_outcomes(c.extension_sqls));
    let nodes: Outcome = Ok(
        node_edges(planned(c), 0, planned_bootstrap(c), planned_finalize(c)),
    );
    let connect = connect_outcome(planned(c), 0);
    lemma_and_then_holds(and_then(anchors, nodes), connect);
    lemma_and_then_holds(anchors, nodes);
    lemma_holds_all_within(build_outcome(c)->Ok_0, and_then(anchors, nodes)->Ok_0, nodes->Ok_0);
}

/// Whether each of the references names something.
pub open spec fn resolves_all(refs: Seq<PositioningRef>, t: Corpus) -> bool {
    forall|j: int| 0 <= j < refs.len() ==> target_of(t, #[trigger] refs[j]) is Some
}

/// Whether an attribute of a function can be followed: every reference
/// that it requires names something, and there is a schema of the name
/// that it gives.
pub open spec fn can_follow(attr: ExternArgs, t: Corpus) -> bool {
    match attr {
        ExternArgs::Requires(refs) => resolves_all(refs@, t),
        ExternArgs::Schema(name) => all_where(t.schemas, schema_named(name@)).len() > 0,
        _ => true,
    }
}

/// Whether every reference that SQL fragment `k` requires names
/// something.
pub open spec fn fragment_served(t: Corpus, k: int) -> bool {
    resolves_all(t.extension_sqls[k].0.requires@, t)
}

/// Whether every attribute of function `k` can be followed.
pub open spec fn function_served(t: Corpus, k: int) -> bool {
    forall|j: int|
        0 <= j < t.externs[k].0.extern_attrs@.len() ==> can_follow(
            #[trigger] t.externs[k].0.extern_attrs@[j],
            t,
        )
}

/// Whether every support function that aggregate `k` names is among the
/// functions, under the path of the aggregate's module and its name.
pub open spec fn aggregate_served(t: Corpus, k: int) -> bool {
    forall|i: int|
        0 <= i < 9 ==> (#[trigger] support_functions(t.aggregates[k].0)[i] matches Some(
            function,
        ) ==> first_where(t.externs, extern_at(joined(t.aggregates[k].0.module@, function@)))
            is Some)
}

/// Whether everything that the entities ask for is among them: every
/// reference that an SQL fragment or a function requires names something,
/// every schema that a function names is there, and so is every support
/// function that an aggregate names.
pub open spec fn requirements_met(t: Corpus) -> bool {
    &&& forall|k: int| 0 <= k < t.extension_sqls.len() ==> #[trigger] fragment_served(t, k)
    &&& forall|k: int| 0 <= k < t.externs.len() ==> #[trigger] function_served(t, k)
    &&& forall|k: int| 0 <= k < t.aggregates.len() ==> #[trigger] aggregate_served(t, k)
}

/// Following required references succeeds exactly where each names
/// something.
pub proof fn lemma_requires_succeed(
    refs: Seq<PositioningRef>,
    owner: String,
    file: String,
    line: u32,
    index: usize,
    t: Corpus,
)
    ensures
        all_outcomes(require_outcomes(refs, owner, file, line, index, t)) is Ok <==> resolves_all(
            refs,
            t,
        ),
{
    let steps = require_outcomes(refs, owner, file, line, index, t);
    lemma_fold_outcomes(steps, refs.len() as int);
    if resolves_all(refs, t) {
        assert forall|j: int| 0 <= j < refs.len() implies steps[j] is Ok by {
            assert(target_of(t, refs[j]) is Some);
        }
    } else {
        let j = choose|j: int| 0 <= j < refs.len() && !(target_of(t, #[trigger] refs[j]) is Some);
        assert(steps[j] is Err);
    }
}

/// Connecting SQL fragment `k` succeeds exactly where every reference that
/// it requires names something.
pub proof fn lemma_fragment_succeeds(t: Corpus, k: int)
    requires
        0 <= k < t.extension_sqls.len(),
    ensures
        sql_outcomes(t)[k] is Ok <==> fragment_served(t, k),
{
    let sql = t.extension_sqls[k].0;
    lemma_requires_succeed(
        sql.requires@,
        sql.full_path,
        sql.file,
        sql.line,
        t.extension_sqls[k].1,
        t,
    );
}

/// Connecting function `k` succeeds exactly where every attribute of it can
/// be followed.
pub proof fn lemma_function_succeeds(t: Corpus, k: int)
    requires
        0 <= k < t.externs.len(),
    ensures
        extern_outcomes(t)[k] is Ok <==> function_served(t, k),
{
    let f = t.externs[k].0;
    let index = t.externs[k].1;
    let steps = attr_outcomes(f, index, t);
    lemma_fold_outcomes(steps, steps.len() as int);
    assert forall|j: int| 0 <= j < steps.len() implies (steps[j] is Ok <==> can_follow(
        #[trigger] f.extern_attrs@[j],
        t,
    )) by {
        match f.extern_attrs@[j] {
            ExternArgs::Requires(refs) => {
                lemma_requires_succeed(refs@, f.full_path, f.file, f.line, index, t);
            },
            _ => {},
        }
    }
    if function_served(t, k) {
        assert forall|j: int| 0 <= j < steps.len() implies steps[j] is Ok by {
            assert(can_follow(f.extern_attrs@[j], t));
        }
    }
    if all_outcomes(steps) is Ok {
        assert forall|j: int| 0 <= j < f.extern_attrs@.len() implies can_follow(
            #[trigger] f.extern_attrs@[j],
            t,
        ) by {
            assert(steps[j] is Ok);
        }
    }
}

/// Connecting aggregate `k` succeeds exactly where every support function
/// that it names is among the functions.
pub proof fn lemma_aggregate_succeeds(t: Corpus, k: int)
    requires
        0 <= k < t.aggregates.len(),
    ensures
        aggregate_outcomes(t)[k] is Ok <==> aggregate_served(t, k),
{
    let a = t.aggregates[k].0;
    let steps = support_outcomes(a, t.aggregates[k].1, t);
    lemma_fold_outcomes(steps, steps.len() as int);
    assert(steps.len() == 9);
    if aggregate_served(t, k) {
        assert forall|i: int| 0 <= i < 9 implies steps[i] is Ok by {
            assert(support_functions(a)[i] matches Some(function) ==> first_where(
                t.externs,
                extern_at(joined(a.module@, function@)),
            ) is Some);
        }
    }
    if all_outcomes(steps) is Ok {
        assert forall|i: int| 0 <= i < 9 implies (#[trigger] support_functions(a)[i] matches Some(
            function,
        ) ==> first_where(t.externs, extern_at(joined(a.module@, function@))) is Some) by {
            assert(steps[i] is Ok);
        }
    }
}

/// The edge phase succeeds exactly where everything that the entities ask
/// for is among them.
pub proof fn law_connect_succeeds(t: Corpus, root: usize)
    ensures
        connect_outcome(t, root) is Ok <==> requirements_met(t),
{
    let sqls = sql_outcomes(t);
    let externs = extern_outcomes(t);
    let aggregates = aggregate_outcomes(t);
    lemma_fold_outcomes(sqls, sqls.len() as int);
    lemma_fold_outcomes(externs, externs.len() as int);
    lemma_fold_outcomes(aggregates, aggregates.len() as int);
    assert(connect_outcome(t, root) is Ok <==> all_outcomes(sqls) is Ok && all_outcomes(externs)
        is Ok && all_outcomes(aggregates) is Ok);
    assert forall|k: int| 0 <= k < sqls.len() implies (sqls[k] is Ok <==> #[trigger] fragment_served(
        t,
        k,
    )) by {
        lemma_fragment_succeeds(t, k);
    }
    assert forall|k: int| 0 <= k < externs.len() implies (externs[k] is Ok
        <==> #[trigger] function_served(t, k)) by {
        lemma_function_succeeds(t, k);
    }
    assert forall|k: int| 0 <= k < aggregates.len() implies (aggregates[k] is Ok
        <==> #[trigger] aggregate_served(t, k)) by {
        lemma_aggregate_succeeds(t, k);
    }
    if requirements_met(t) {
        assert forall|k: int| 0 <= k < sqls.len() implies sqls[k] is Ok by {
            assert(fragment_served(t, k));
        }
        assert forall|k: int| 0 <= k < externs.len() implies externs[k] is Ok by {
            assert(function_served(t, k));
        }
        assert forall|k: int| 0 <= k < aggregates.len() implies aggregates[k] is Ok by {
            assert(aggregate_served(t, k));
        }
    }
    if connect_outcome(t, root) is Ok {
        assert forall|k: int| 0 <= k < t.extension_sqls.len() implies #[trigger] fragment_served(
            t,
            k,
        ) by {
            assert(sqls[k] is Ok);
        }
        assert forall|k: int| 0 <= k < t.externs.len() implies #[trigger] function_served(t, k) by {
            assert(externs[k] is Ok);
        }
        assert forall|k: int| 0 <= k < t.aggregates.len() implies #[trigger] aggregate_served(
            t,
            k,
        ) by {
            assert(aggregates[k] is Ok);
        }
    }
}

/// A build succeeds exactly where there is a control entity, no two SQL
/// fragments ask for the same anchor, and everything that the entities ask
/// for is among them.
pub proof fn law_build_succeeds(c: Classified)
    ensures
        build_outcome(c) is Ok <==> {
            &&& c.control is Some
            &&& all_outcomes(anchor_outcomes(c.extension_sqls)) is Ok
            &&& requirements_met(planned(c))
        },
{
    law_connect_succeeds(planned(c), 0);
}

/// Whether an attribute asks for nothing of other entities: it neither
/// requires a reference nor names a schema.
pub open spec fn asks_nothing(attr: ExternArgs) -> bool {
    !(attr is Requires) && !(attr is Schema)
}

/// Functions that ask for nothing always build: with a control entity, and
/// without SQL fragments and aggregates, a build succeeds whatever types the
/// functions use, declared or not, if no attribute of a function requires a
/// reference or names a schema.
pub proof fn law_plain_functions_build(c: Classified)
    requires
        c.control is Some,
        c.extension_sqls.len() == 0,
        c.aggregates.len() == 0,
        forall|k: int, j: int|
            0 <= k < c.externs.len() && 0 <= j < c.externs[k].extern_attrs@.len()
                ==> asks_nothing(#[trigger] c.externs[k].extern_attrs@[j]),
    ensures
        build_outcome(c) is Ok,
{
    let t = planned(c);
    assert forall|k: int| 0 <= k < t.externs.len() implies #[trigger] function_served(t, k) by {
        assert(t.externs[k].0 == c.externs[k]);
        assert forall|j: int| 0 <= j < t.externs[k].0.extern_attrs@.len() implies can_follow(
            #[trigger] t.externs[k].0.extern_attrs@[j],
            t,
        ) by {
            assert(asks_nothing(c.externs[k].extern_attrs@[j]));
        }
    }
    assert(requirements_met(t));
    law_build_succeeds(c);
}

/// Where a build succeeds, its edges hold what connecting each entity
/// draws.
pub proof fn lemma_build_holds_each(c: Classified)
    requires
        build_outcome(c) is Ok,
    ensures
        forall|k: int|
            0 <= k < planned(c).extension_sqls.len() ==> (#[trigger] sql_outcomes(
                planned(c),
            )[k]) is Ok && holds_all(build_outcome(c)->Ok_0, sql_outcomes(planned(c))[k]->Ok_0),
        forall|k: int|
            0 <= k < planned(c).externs.len() ==> (#[trigger] extern_outcomes(planned(c))[k])
                is Ok && holds_all(build_outcome(c)->Ok_0, extern_outcomes(planned(c))[k]->Ok_0),
        forall|k: int|
            0 <= k < planned(c).aggregates.len() ==> (#[trigger] aggregate_outcomes(
                planned(c),
            )[k]) is Ok && holds_all(
                build_outcome(c)->Ok_0,
                aggregate_outcomes(planned(c))[k]->Ok_0,
            ),
        forall|k: int|
            0 <= k < planned(c).enums.len() ==> holds_all(
                build_outcome(c)->Ok_0,
                #[trigger] enum_parts(planned(c).enums, planned(c).schemas)[k],
            ),
        forall|k: int|
            0 <= k < planned(c).types.len() ==> holds_all(
                build_outcome(c)->Ok_0,
                #[trigger] type_parts(planned(c).types, planned(c).schemas)[k],
            ),
        forall|k: int|
            0 <= k < planned(c).triggers.len() ==> holds_all(
                build_outcome(c)->Ok_0,
                #[trigger] trigger_parts(planned(c).triggers, planned(c).schemas)[k],
            ),
        forall|k: int|
            0 <= k < planned(c).ords.len() ==> holds_all(
                build_outcome(c)->Ok_0,
                #[trigger] ord_parts(planned(c))[k],
            ),
        forall|k: int|
            0 <= k < planned(c).hashes.len() ==> holds_all(
                build_outcome(c)->Ok_0,
                #[trigger] hash_parts(planned(c))[k],
            ),
{
    let t = planned(c);
    let edges = build_outcome(c)->Ok_0;
    let connected = connect_outcome(t, 0)->Ok_0;
    lemma_build_holds(c);
    lemma_connect_phase_holds(t, 0);
    let sqls = sql_outcomes(t);
    let externs = extern_outcomes(t);
    let aggregates = aggregate_outcomes(t);
    let enums = enum_parts(t.enums, t.schemas);
    let types = type_parts(t.types, t.schemas);
    let triggers = trigger_parts(t.triggers, t.schemas);
    let ords = ord_parts(t);
    let hashes = hash_parts(t);
    lemma_holds_all_within(edges, connected, all_outcomes(sqls)->Ok_0);
    lemma_holds_all_within(edges, connected, all_outcomes(externs)->Ok_0);
    lemma_holds_all_within(edges, connected, all_outcomes(aggregates)->Ok_0);
    lemma_holds_all_within(edges, connected, all_edges(enums));
    lemma_holds_all_within(edges, connected, all_edges(types));
    lemma_holds_all_within(edges, connected, all_edges(triggers));
    lemma_holds_all_within(edges, connected, all_edges(ords));
    lemma_holds_all_within(edges, connected, all_edges(hashes));
    assert forall|k: int| 0 <= k < t.extension_sqls.len() implies (#[trigger] sqls[k]) is Ok
        && holds_all(edges, sqls[k]->Ok_0) by {
        lemma_fold_outcomes_holds(sqls, sqls.len() as int, k);
        lemma_holds_all_within(edges, all_outcomes(sqls)->Ok_0, sqls[k]->Ok_0);
    }
    assert forall|k: int| 0 <= k < t.externs.len() implies (#[trigger] externs[k]) is Ok
        && holds_all(edges, externs[k]->Ok_0) by {
        lemma_fold_outcomes_holds(externs, externs.len() as int, k);
        lemma_holds_all_within(edges, all_outcomes(externs)->Ok_0, externs[k]->Ok_0);
    }
    assert forall|k: int| 0 <= k < t.aggregates.len() implies (#[trigger] aggregates[k]) is Ok
        && holds_all(edges, aggregates[k]->Ok_0) by {
        lemma_fold_outcomes_holds(aggregates, aggregates.len() as int, k);
        lemma_holds_all_within(edges, all_outcomes(aggregates)->Ok_0, aggregates[k]->Ok_0);
    }
    assert forall|k: int| 0 <= k < t.enums.len() implies holds_all(edges, #[trigger] enums[k]) by {
        lemma_concat_edges_holds(enums, enums.len() as int, k);
        lemma_holds_all_within(edges, all_edges(enums), enums[k]);
    }
    assert forall|k: int| 0 <= k < t.types.len() implies holds_all(edges, #[trigger] types[k]) by {
        lemma_concat_edges_holds(types, types.len() as int, k);
        lemma_holds_all_within(edges, all_edges(types), types[k]);
    }
    assert forall|k: int| 0 <= k < t.triggers.len() implies holds_all(
        edges,
        #[trigger] triggers[k],
    ) by {
        lemma_concat_edges_holds(triggers, triggers.len() as int, k);
        lemma_holds_all_within(edges, all_edges(triggers), triggers[k]);
    }
    assert forall|k: int| 0 <= k < t.ords.len() implies holds_all(edges, #[trigger] ords[k]) by {
        lemma_concat_edges_holds(ords, ords.len() as int, k);
        lemma_holds_all_within(edges, all_edges(ords), ords[k]);
    }
    assert forall|k: int| 0 <= k < t.hashes.len() implies holds_all(edges, #[trigger] hashes[k]) by {
        lemma_concat_edges_holds(hashes, hashes.len() as int, k);
        lemma_holds_all_within(edges, all_edges(hashes), hashes[k]);
    }
}

/// Where following required references succeeds, what each names comes
/// before the node that requires it.
pub proof fn lemma_requires_hold(
    refs: Seq<PositioningRef>,
    owner: String,
    file: String,
    line: u32,
    index: usize,
    t: Corpus,
    j: int,
)
    requires
        0 <= j < refs.len(),
        all_outcomes(require_outcomes(refs, owner, file, line, index, t)) is Ok,
    ensures
        target_of(t, refs[j]) is Some,
        all_outcomes(require_outcomes(refs, owner, file, line, index, t))->Ok_0.contains(
            (target_of(t, refs[j])->0, index, SqlGraphRelationship::RequiredBy),
        ),
{
    let steps = require_outcomes(refs, owner, file, line, index, t);
    lemma_fold_outcomes_holds(steps, refs.len() as int, j);
    assert(steps[j] == require_outcome(refs[j], owner, file, line, index, t));
    assert(steps[j]->Ok_0[0] == (
        target_of(t, refs[j])->0,
        index,
        SqlGraphRelationship::RequiredBy,
    ));
}

/// In a graph that was built, what an SQL fragment requires comes before
/// it: an edge leads from what reference `j` of fragment `k` names to the
/// fragment.
pub proof fn law_fragment_behind_required(c: Classified, k: int, j: int)
    requires
        build_outcome(c) is Ok,
        0 <= k < planned(c).extension_sqls.len(),
        0 <= j < planned(c).extension_sqls[k].0.requires@.len(),
    ensures
        target_of(planned(c), planned(c).extension_sqls[k].0.requires@[j]) is Some,
        build_outcome(c)->Ok_0.contains(
            (
                target_of(planned(c), planned(c).extension_sqls[k].0.requires@[j])->0,
                planned(c).extension_sqls[k].1,
                SqlGraphRelationship::RequiredBy,
            ),
        ),
{
    let t = planned(c);
    let sql = t.extension_sqls[k].0;
    let index = t.extension_sqls[k].1;
    let edges = build_outcome(c)->Ok_0;
    lemma_build_holds_each(c);
    let step = sql_outcomes(t)[k];
    assert(step == sql_outcome(sql, index, t));
    let required = all_outcomes(
        require_outcomes(sql.requires@, sql.full_path, sql.file, sql.line, index, t),
    );
    lemma_and_then_holds(Ok(schema_edges(t.schemas, sql.module@, index)), required);
    lemma_requires_hold(sql.requires@, sql.full_path, sql.file, sql.line, index, t, j);
    lemma_holds_all_within(edges, step->Ok_0, required->Ok_0);
    let e = (target_of(t, sql.requires@[j])->0, index, SqlGraphRelationship::RequiredBy);
    let i = choose|i: int| 0 <= i < required->Ok_0.len() && required->Ok_0[i] == e;
    assert(edges.contains(required->Ok_0[i]));
}

/// Two nodes each of which has an edge to the other lie on a cycle.
pub proof fn lemma_two_way_is_cycle(edges: Seq<Edge>, a: usize, b: usize)
    requires
        has_edge(edges, a as int, b as int),
        has_edge(edges, b as int, a as int),
    ensures
        on_cycle(edges, a as int),
        on_cycle(edges, b as int),
        !acyclic(edges),
{
    let there = seq![a as int, b as int, a as int];
    assert(is_walk(edges, there));
    assert(there[0] == a && there.last() == a);
    assert(on_cycle(edges, a as int));
    let back = seq![b as int, a as int, b as int];
    assert(is_walk(edges, back));
    assert(back[0] == b && back.last() == b);
}

/// Two SQL fragments each of which requires the other make a graph with a
/// cycle, on which both lie: there is then no order in which to emit the
/// entities.
pub proof fn law_mutual_requirements_are_a_cycle(c: Classified, k: int, j: int, l: int, i: int)
    requires
        build_outcome(c) is Ok,
        0 <= k < planned(c).extension_sqls.len(),
        0 <= l < planned(c).extension_sqls.len(),
        0 <= j < planned(c).extension_sqls[k].0.requires@.len(),
        0 <= i < planned(c).extension_sqls[l].0.requires@.len(),
        target_of(planned(c), planned(c).extension_sqls[k].0.requires@[j]) == Some(
            planned(c).extension_sqls[l].1,
        ),
        target_of(planned(c), planned(c).extension_sqls[l].0.requires@[i]) == Some(
            planned(c).extension_sqls[k].1,
        ),
    ensures
        on_cycle(build_outcome(c)->Ok_0, planned(c).extension_sqls[k].1 as int),
        on_cycle(build_outcome(c)->Ok_0, planned(c).extension_sqls[l].1 as int),
        !acyclic(build_outcome(c)->Ok_0),
{
    let t = planned(c);
    let edges = build_outcome(c)->Ok_0;
    let a = t.extension_sqls[k].1;
    let b = t.extension_sqls[l].1;
    law_fragment_behind_required(c, k, j);
    law_fragment_behind_required(c, l, i);
    let x = choose|x: int|
        0 <= x < edges.len() && edges[x] == (b, a, SqlGraphRelationship::RequiredBy);
    assert(edges[x].0 == b && edges[x].1 == a);
    let y = choose|y: int|
        0 <= y < edges.len() && edges[y] == (a, b, SqlGraphRelationship::RequiredBy);
    assert(edges[y].0 == a && edges[y].1 == b);
    lemma_two_way_is_cycle(edges, a, b);
}

/// In an order that respects the edges, the source of an edge stands before
/// its target.
pub proof fn law_order_follows_edges(order: Seq<usize>, count: nat, edges: Seq<Edge>, e: Edge)
    requires
        is_linearization(order, count, edges),
        edges.contains(e),
    ensures
        comes_before(order, e.0, e.1),
{
    let k = choose|k: int| 0 <= k < edges.len() && edges[k] == e;
    assert(comes_before(order, edges[k].0, edges[k].1));
}

/// Whether the node `index` of the module `module` is behind the first
/// schema that the module declares, if it declares one.
pub open spec fn behind_schema(
    edges: Seq<Edge>,
    t: Corpus,
    module: Seq<char>,
    index: usize,
) -> bool {
    first_where(t.schemas, schema_in(module)) matches Some(schema) ==> edges.contains(
        (schema, index, SqlGraphRelationship::RequiredBy),
    )
}

/// What holds the schema edge of a node has the node behind its schema.
pub proof fn lemma_behind_schema(
    edges: Seq<Edge>,
    part: Seq<Edge>,
    rest: Seq<Edge>,
    t: Corpus,
    module: Seq<char>,
    index: usize,
)
    requires
        holds_all(edges, part),
        part == schema_edges(t.schemas, module, index) + rest,
    ensures
        behind_schema(edges, t, module, index),
{
    if first_where(t.schemas, schema_in(module)) is Some {
        let first = schema_edges(t.schemas, module, index);
        assert(part[0] == first[0]);
        assert(edges.contains(part[0]));
    }
}

/// In a graph that was built, an entity whose module declares a schema
/// comes after the first schema that the module declares; a function, if no
/// attribute of it names a schema.
pub proof fn law_behind_schemas(c: Classified)
    requires
        build_outcome(c) is Ok,
    ensures
        forall|k: int|
            0 <= k < planned(c).extension_sqls.len() ==> behind_schema(
                build_outcome(c)->Ok_0,
                planned(c),
                (#[trigger] planned(c).extension_sqls[k]).0.module@,
                planned(c).extension_sqls[k].1,
            ),
        forall|k: int|
            0 <= k < planned(c).enums.len() ==> behind_schema(
                build_outcome(c)->Ok_0,
                planned(c),
                (#[trigger] planned(c).enums[k]).0.module@,
                planned(c).enums[k].1,
            ),
        forall|k: int|
            0 <= k < planned(c).types.len() ==> behind_schema(
                build_outcome(c)->Ok_0,
                planned(c),
                (#[trigger] planned(c).types[k]).0.module@,
                planned(c).types[k].1,
            ),
        forall|k: int|
            0 <= k < planned(c).externs.len() && !schema_declared(
                (#[trigger] planned(c).externs[k]).0.extern_attrs@,
                planned(c).schemas,
                planned(c).externs[k].0.extern_attrs@.len() as int,
            ) ==> behind_schema(
                build_outcome(c)->Ok_0,
                planned(c),
                planned(c).externs[k].0.module@,
                planned(c).externs[k].1,
            ),
        forall|k: int|
            0 <= k < planned(c).ords.len() ==> behind_schema(
                build_outcome(c)->Ok_0,
                planned(c),
                (#[trigger] planned(c).ords[k]).0.module@,
                planned(c).ords[k].1,
            ),
        forall|k: int|
            0 <= k < planned(c).hashes.len() ==> behind_schema(
                build_outcome(c)->Ok_0,
                planned(c),
                (#[trigger] planned(c).hashes[k]).0.module@,
                planned(c).hashes[k].1,
            ),
        forall|k: int|
            0 <= k < planned(c).aggregates.len() ==> behind_schema(
                build_outcome(c)->Ok_0,
                planned(c),
                (#[trigger] planned(c).aggregates[k]).0.module@,
                planned(c).aggregates[k].1,
            ),
        forall|k: int|
            0 <= k < planned(c).triggers.len() ==> behind_schema(
                build_outcome(c)->Ok_0,
                planned(c),
                (#[trigger] planned(c).triggers[k]).0.module@,
                planned(c).triggers[k].1,
            ),
{
    let t = planned(c);
    let edges = build_outcome(c)->Ok_0;
    let none = Seq::<Edge>::empty();
    lemma_build_holds_each(c);
    assert forall|k: int| 0 <= k < t.extension_sqls.len() implies behind_schema(
        edges,
        t,
        (#[trigger] t.extension_sqls[k]).0.module@,
        t.extension_sqls[k].1,
    ) by {
        let sql = t.extension_sqls[k].0;
        let index = t.extension_sqls[k].1;
        let step = sql_outcomes(t)[k];
        let required = all_outcomes(
            require_outcomes(sql.requires@, sql.full_path, sql.file, sql.line, index, t),
        );
        assert(step == and_then(Ok(schema_edges(t.schemas, sql.module@, index)), required));
        lemma_behind_schema(edges, step->Ok_0, required->Ok_0, t, sql.module@, index);
    }
    assert forall|k: int| 0 <= k < t.enums.len() implies behind_schema(
        edges,
        t,
        (#[trigger] t.enums[k]).0.module@,
        t.enums[k].1,
    ) by {
        let part = enum_parts(t.enums, t.schemas)[k];
        assert(part =~= part + none);
        lemma_behind_schema(edges, part, none, t, t.enums[k].0.module@, t.enums[k].1);
    }
    assert forall|k: int| 0 <= k < t.types.len() implies behind_schema(
        edges,
        t,
        (#[trigger] t.types[k]).0.module@,
        t.types[k].1,
    ) by {
        let part = type_parts(t.types, t.schemas)[k];
        assert(part =~= part + none);
        lemma_behind_schema(edges, part, none, t, t.types[k].0.module@, t.types[k].1);
    }
    assert forall|k: int| 0 <= k < t.triggers.len() implies behind_schema(
        edges,
        t,
        (#[trigger] t.triggers[k]).0.module@,
        t.triggers[k].1,
    ) by {
        let part = trigger_parts(t.triggers, t.schemas)[k];
        assert(part =~= part + none);
        lemma_behind_schema(edges, part, none, t, t.triggers[k].0.module@, t.triggers[k].1);
    }
    assert forall|k: int| 0 <= k < t.ords.len() implies behind_schema(
        edges,
        t,
        (#[trigger] t.ords[k]).0.module@,
        t.ords[k].1,
    ) by {
        let o = t.ords[k].0;
        let index = t.ords[k].1;
        let part = ord_parts(t)[k];
        let first = schema_edges(t.schemas, o.module@, index);
        assert(part == ord_edges(o, index, t));
        let rest = part.skip(first.len() as int);
        assert(part =~= first + rest);
        lemma_behind_schema(edges, part, rest, t, o.module@, index);
    }
    assert forall|k: int| 0 <= k < t.hashes.len() implies behind_schema(
        edges,
        t,
        (#[trigger] t.hashes[k]).0.module@,
        t.hashes[k].1,
    ) by {
        let h = t.hashes[k].0;
        let index = t.hashes[k].1;
        let part = hash_parts(t)[k];
        let first = schema_edges(t.schemas, h.module@, index);
        assert(part == hash_edges(h, index, t));
        let rest = part.skip(first.len() as int);
        assert(part =~= first + rest);
        lemma_behind_schema(edges, part, rest, t, h.module@, index);
    }
    assert forall|k: int| 0 <= k < t.aggregates.len() implies behind_schema(
        edges,
        t,
        (#[trigger] t.aggregates[k]).0.module@,
        t.aggregates[k].1,
    ) by {
        let a = t.aggregates[k].0;
        let index = t.aggregates[k].1;
        let step = aggregate_outcomes(t)[k];
        assert(step == aggregate_outcome(a, index, t));
        let part = step->Ok_0;
        let first = schema_edges(t.schemas, a.module@, index);
        assert(aggregate_edges(a, index, t).take(first.len() as int) =~= first);
        let rest = part.skip(first.len() as int);
        assert(part =~= first + rest);
        lemma_behind_schema(edges, part, rest, t, a.module@, index);
    }
    assert forall|k: int|
        0 <= k < t.externs.len() && !schema_declared(
            (#[trigger] t.externs[k]).0.extern_attrs@,
            t.schemas,
            t.externs[k].0.extern_attrs@.len() as int,
        ) implies behind_schema(edges, t, t.externs[k].0.module@, t.externs[k].1) by {
        let f = t.externs[k].0;
        let index = t.externs[k].1;
        let step = extern_outcomes(t)[k];
        assert(step == extern_outcome(f, index, t));
        let attrs = all_outcomes(attr_outcomes(f, index, t));
        let rest_of = extern_rest(f, index, t);
        lemma_and_then_holds(attrs, Ok(rest_of));
        lemma_holds_all_within(edges, step->Ok_0, rest_of);
        let first = schema_edges(t.schemas, f.module@, index);
        let rest = rest_of.skip(first.len() as int);
        assert(rest_of =~= first + rest);
        lemma_behind_schema(edges, rest_of, rest, t, f.module@, index);
    }
}

/// In a graph that was built, a function comes after every type that it
/// uses: an edge leads to the function from the first type declared under
/// the identity of the use; else from the first such enumeration; else from
/// the placeholder of the path of the use, which is there.
pub proof fn law_function_behind_its_types(c: Classified, k: int, i: int)
    requires
        build_outcome(c) is Ok,
        0 <= k < planned(c).externs.len(),
        0 <= i < extern_uses(planned(c).externs[k].0).len(),
    ensures
        holds_all(
            build_outcome(c)->Ok_0,
            use_edges(
                extern_uses(planned(c).externs[k].0)[i],
                planned(c).externs[k].1,
                planned(c),
            ),
        ),
        !is_declared(
            extern_uses(planned(c).externs[k].0)[i].ty_id,
            planned(c).types,
            planned(c).enums,
        ) ==> {
            &&& first_where(
                planned(c).builtin_types,
                path_is(extern_uses(planned(c).externs[k].0)[i].path@),
            ) matches Some(placeholder)
            &&& build_outcome(c)->Ok_0.contains(
                (
                    placeholder,
                    planned(c).externs[k].1,
                    extern_uses(planned(c).externs[k].0)[i].relationship,
                ),
            )
        },
        first_where(
            planned(c).types,
            type_with(extern_uses(planned(c).externs[k].0)[i].ty_id),
        ) matches Some(ty) ==> build_outcome(c)->Ok_0.contains(
            (
                ty,
                planned(c).externs[k].1,
                extern_uses(planned(c).externs[k].0)[i].relationship,
            ),
        ),
        first_where(planned(c).types, type_with(extern_uses(planned(c).externs[k].0)[i].ty_id))
            is None ==> (first_where(
            planned(c).enums,
            enum_with(extern_uses(planned(c).externs[k].0)[i].ty_id),
        ) matches Some(en) ==> build_outcome(c)->Ok_0.contains(
            (
                en,
                planned(c).externs[k].1,
                extern_uses(planned(c).externs[k].0)[i].relationship,
            ),
        )),
{
    let t = planned(c);
    let edges = build_outcome(c)->Ok_0;
    let f = t.externs[k].0;
    let index = t.externs[k].1;
    let used = extern_uses(f)[i];
    lemma_build_holds_each(c);
    law_placeholders_are_there(c);
    let step = extern_outcomes(t)[k];
    assert(step == extern_outcome(f, index, t));
    let attrs = all_outcomes(attr_outcomes(f, index, t));
    let rest_of = extern_rest(f, index, t);
    lemma_and_then_holds(attrs, Ok(rest_of));
    lemma_holds_all_within(edges, step->Ok_0, rest_of);
    let parts = uses_parts(extern_uses(f), index, t);
    let before = rest_of.take(rest_of.len() - all_edges(parts).len());
    assert(rest_of =~= before + all_edges(parts));
    lemma_holds_all_add(before, all_edges(parts));
    lemma_holds_all_within(edges, rest_of, all_edges(parts));
    lemma_concat_edges_holds(parts, parts.len() as int, i);
    lemma_holds_all_within(edges, all_edges(parts), parts[i]);
    let drawn = use_edges(used, index, t);
    assert(parts[i] == drawn);
    assert(crate::uses::covered(used, t.types, t.enums, t.builtin_types));
    assert(drawn.len() > 0);
    assert(edges.contains(drawn[0]));
}

} // verus!
