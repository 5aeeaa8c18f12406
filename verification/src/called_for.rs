//! Where placeholders come from: each stands for a type that some function
//! or aggregate uses and that nothing declares.

use crate::classify::Classified;
use crate::entity::{PostgresEnumEntity, PostgresTypeEntity};
use crate::initialize::{uses_of_aggregates, uses_of_externs};
use crate::placeholders::{absorbed, users_absorbed};
use crate::plan::planned;
use crate::uses::{is_declared, TypeUse};
use vstd::prelude::*;

verus! {

/// Whether one of the uses is of a type under the path `path` that nothing
/// declares.
pub open spec fn asked_by(
    path: Seq<char>,
    uses: Seq<TypeUse>,
    types: Seq<(PostgresTypeEntity, usize)>,
    enums: Seq<(PostgresEnumEntity, usize)>,
) -> bool {
    exists|i: int|
        0 <= i < uses.len() && (#[trigger] uses[i]).path@ == path && !is_declared(
            uses[i].ty_id,
            types,
            enums,
        )
}

/// Whether one of the users makes a use of a type under the path `path`
/// that nothing declares.
pub open spec fn asked_for(
    path: Seq<char>,
    uses: Seq<Seq<TypeUse>>,
    types: Seq<(PostgresTypeEntity, usize)>,
    enums: Seq<(PostgresEnumEntity, usize)>,
) -> bool {
    exists|k: int| 0 <= k < uses.len() && asked_by(path, #[trigger] uses[k], types, enums)
}

/// Whether each placeholder from the place `from` on stands for a type
/// that one of the users uses and nothing declares.
pub open spec fn all_asked_for(
    builtin_types: Seq<(String, usize)>,
    from: int,
    uses: Seq<Seq<TypeUse>>,
    types: Seq<(PostgresTypeEntity, usize)>,
    enums: Seq<(PostgresEnumEntity, usize)>,
) -> bool {
    forall|j: int|
        from <= j < builtin_types.len() ==> asked_for(
            (#[trigger] builtin_types[j]).0@,
            uses,
            types,
            enums,
        )
}

/// Each placeholder that taking uses in adds stands for one of those uses,
/// of a type that nothing declares.
pub proof fn lemma_absorbed_asked(
    builtin_types: Seq<(String, usize)>,
    uses: Seq<TypeUse>,
    types: Seq<(PostgresTypeEntity, usize)>,
    enums: Seq<(PostgresEnumEntity, usize)>,
    base: int,
    n: int,
)
    requires
        0 <= n <= uses.len(),
    ensures
        builtin_types.len() <= absorbed(builtin_types, uses, types, enums, base, n).len(),
        forall|j: int|
            builtin_types.len() <= j < absorbed(builtin_types, uses, types, enums, base, n).len()
                ==> asked_by(
                (#[trigger] absorbed(builtin_types, uses, types, enums, base, n)[j]).0@,
                uses,
                types,
                enums,
            ),
    decreases n,
{
    if n > 0 {
        lemma_absorbed_asked(builtin_types, uses, types, enums, base, n - 1);
        let before = absorbed(builtin_types, uses, types, enums, base, n - 1);
        let after = absorbed(builtin_types, uses, types, enums, base, n);
        assert forall|j: int| builtin_types.len() <= j < after.len() implies asked_by(
            (#[trigger] after[j]).0@,
            uses,
            types,
            enums,
        ) by {
            if j < before.len() {
                assert(after[j] == before[j]);
            } else {
                assert(after[j].0 == uses[n - 1].path);
                assert(!is_declared(uses[n - 1].ty_id, types, enums));
            }
        }
    }
}

/// Each placeholder that taking the uses of users in adds stands for a use
/// of one of them, of a type that nothing declares.
pub proof fn lemma_users_absorbed_asked(
    builtin_types: Seq<(String, usize)>,
    uses: Seq<Seq<TypeUse>>,
    types: Seq<(PostgresTypeEntity, usize)>,
    enums: Seq<(PostgresEnumEntity, usize)>,
    start: int,
    k: int,
)
    requires
        0 <= k <= uses.len(),
    ensures
        builtin_types.len() <= users_absorbed(builtin_types, uses, types, enums, start, k).len(),
        all_asked_for(
            users_absorbed(builtin_types, uses, types, enums, start, k),
            builtin_types.len() as int,
            uses,
            types,
            enums,
        ),
    decreases k,
{
    if k > 0 {
        lemma_users_absorbed_asked(builtin_types, uses, types, enums, start, k - 1);
        let before = users_absorbed(builtin_types, uses, types, enums, start, k - 1);
        let after = users_absorbed(builtin_types, uses, types, enums, start, k);
        lemma_absorbed_asked(before, uses[k - 1], types, enums, start + k, uses[k - 1].len() as int);
        crate::placeholders::lemma_absorbed(
            before,
            uses[k - 1],
            types,
            enums,
            start + k,
            uses[k - 1].len() as int,
        );
        assert forall|j: int| builtin_types.len() <= j < after.len() implies asked_for(
            (#[trigger] after[j]).0@,
            uses,
            types,
            enums,
        ) by {
            if j < before.len() {
                assert(after[j] == before[j]);
                assert(asked_for(before[j].0@, uses, types, enums));
            } else {
                assert(asked_by(after[j].0@, uses[k - 1], types, enums));
            }
        }
    }
}

/// A placeholder stands only for what is used and not declared: for each
/// placeholder of a build, some function or some aggregate uses a type
/// under its path that no type and no enumeration declares. A path that is
/// used for declared types only has no placeholder.
pub proof fn law_placeholders_are_asked_for(c: Classified, j: int)
    requires
        0 <= j < planned(c).builtin_types.len(),
    ensures
        asked_for(
            planned(c).builtin_types[j].0@,
            uses_of_externs(c.externs),
            planned(c).types,
            planned(c).enums,
        ) || asked_for(
            planned(c).builtin_types[j].0@,
            uses_of_aggregates(c.aggregates),
            planned(c).types,
            planned(c).enums,
        ),
{
    let t = planned(c);
    let externs_at = 1int + c.extension_sqls.len() + c.schemas.len() + c.enums.len()
        + c.types.len();
    lemma_users_absorbed_asked(
        Seq::empty(),
        uses_of_externs(c.externs),
        t.types,
        t.enums,
        externs_at,
        c.externs.len() as int,
    );
    let after_externs = users_absorbed(
        Seq::empty(),
        uses_of_externs(c.externs),
        t.types,
        t.enums,
        externs_at,
        c.externs.len() as int,
    );
    let others = externs_at + c.externs.len() + c.ords.len() + c.hashes.len();
    lemma_users_absorbed_asked(
        after_externs,
        uses_of_aggregates(c.aggregates),
        t.types,
        t.enums,
        others,
        c.aggregates.len() as int,
    );
    crate::placeholders::lemma_users_absorbed(
        after_externs,
        uses_of_aggregates(c.aggregates),
        t.types,
        t.enums,
        others,
        c.aggregates.len() as int,
    );
    if j < after_externs.len() {
        assert(t.builtin_types[j] == after_externs[j]);
    }
}

} // verus!
