//! What a weak reference names.

use crate::entity::{
    ExtensionSqlEntity, PgExternEntity, PgTriggerEntity, PositioningRef, PostgresEnumEntity,
    PostgresTypeEntity, SchemaEntity,
};
use crate::find::{
    enum_named_in, extern_named_in, find_enum_named_in, find_extern_named_in,
    find_schema_named_in, find_sql_named, find_trigger_named_in, find_type_named_in,
    schema_named_in, sql_named, trigger_named_in, type_named_in,
};
use crate::tables::{first_where, in_bounds, lemma_first_where_exists, lemma_first_where_in_bounds};
use crate::text::{last_segment, module_part, split_path};
use vstd::prelude::*;

verus! {

/// The first of the options that is there.
pub open spec fn first_of(options: Seq<Option<usize>>) -> Option<usize>
    decreases options.len(),
{
    if options.len() == 0 {
        None
    } else if options[0] is Some {
        options[0]
    } else {
        first_of(options.drop_first())
    }
}

/// The node that a path names: the first type, else the first enumeration,
/// else the first function, else the first schema, else the first trigger,
/// of the path's last segment as name and in a module that ends with the
/// rest of the path. A function goes by its name before any alias.
pub open spec fn resolve_path(
    path: Seq<char>,
    types: Seq<(PostgresTypeEntity, usize)>,
    enums: Seq<(PostgresEnumEntity, usize)>,
    externs: Seq<(PgExternEntity, usize)>,
    schemas: Seq<(SchemaEntity, usize)>,
    triggers: Seq<(PgTriggerEntity, usize)>,
) -> Option<usize> {
    let name = last_segment(path);
    let module = module_part(path);
    first_of(
        seq![
            first_where(types, type_named_in(name, module)),
            first_where(enums, enum_named_in(name, module)),
            first_where(externs, extern_named_in(name, module)),
            first_where(schemas, schema_named_in(name, module)),
            first_where(triggers, trigger_named_in(name, module)),
        ],
    )
}

/// The node that a reference names: for a path see `resolve_path`; for a
/// name, the first SQL fragment of exactly that name.
pub open spec fn resolve(
    positioning_ref: PositioningRef,
    types: Seq<(PostgresTypeEntity, usize)>,
    enums: Seq<(PostgresEnumEntity, usize)>,
    externs: Seq<(PgExternEntity, usize)>,
    schemas: Seq<(SchemaEntity, usize)>,
    extension_sqls: Seq<(ExtensionSqlEntity, usize)>,
    triggers: Seq<(PgTriggerEntity, usize)>,
) -> Option<usize> {
    match positioning_ref {
        PositioningRef::FullPath(path) => resolve_path(
            path@,
            types,
            enums,
            externs,
            schemas,
            triggers,
        ),
        PositioningRef::Name(name) => first_where(extension_sqls, sql_named(name@)),
    }
}

/// A best effort to find the node that a reference names.
pub fn find_positioning_ref_target(
    positioning_ref: &PositioningRef,
    types: &Vec<(PostgresTypeEntity, usize)>,
    enums: &Vec<(PostgresEnumEntity, usize)>,
    externs: &Vec<(PgExternEntity, usize)>,
    schemas: &Vec<(SchemaEntity, usize)>,
    extension_sqls: &Vec<(ExtensionSqlEntity, usize)>,
    triggers: &Vec<(PgTriggerEntity, usize)>,
) -> (target: Option<usize>)
    ensures
        target == resolve(
            *positioning_ref,
            types@,
            enums@,
            externs@,
            schemas@,
            extension_sqls@,
            triggers@,
        ),
{
    match positioning_ref {
        PositioningRef::FullPath(path) => {
            let (module, name) = split_path(path);
            let ghost options = seq![
                first_where(types@, type_named_in(name@, module@)),
                first_where(enums@, enum_named_in(name@, module@)),
                first_where(externs@, extern_named_in(name@, module@)),
                first_where(schemas@, schema_named_in(name@, module@)),
                first_where(triggers@, trigger_named_in(name@, module@)),
            ];
            proof {
                lemma_first_of_five(options);
            }
            let found = find_type_named_in(types, &name, &module);
            if found.is_some() {
                return found;
            }
            let found = find_enum_named_in(enums, &name, &module);
            if found.is_some() {
                return found;
            }
            let found = find_extern_named_in(externs, &name, &module);
            if found.is_some() {
                return found;
            }
            let found = find_schema_named_in(schemas, &name, &module);
            if found.is_some() {
                return found;
            }
            find_trigger_named_in(triggers, &name, &module)
        },
        PositioningRef::Name(name) => find_sql_named(extension_sqls, name),
    }
}

/// What the first of five options is.
pub proof fn lemma_first_of_five(options: Seq<Option<usize>>)
    requires
        options.len() == 5,
    ensures
        first_of(options) == if options[0] is Some {
            options[0]
        } else if options[1] is Some {
            options[1]
        } else if options[2] is Some {
            options[2]
        } else if options[3] is Some {
            options[3]
        } else {
            options[4]
        },
{
    reveal_with_fuel(first_of, 6);
    let a = options.drop_first();
    let b = a.drop_first();
    let c = b.drop_first();
    let d = c.drop_first();
    assert(d.drop_first().len() == 0);
}

/// What a reference names is a node of one of the tables.
pub proof fn lemma_resolve_in_bounds(
    positioning_ref: PositioningRef,
    types: Seq<(PostgresTypeEntity, usize)>,
    enums: Seq<(PostgresEnumEntity, usize)>,
    externs: Seq<(PgExternEntity, usize)>,
    schemas: Seq<(SchemaEntity, usize)>,
    extension_sqls: Seq<(ExtensionSqlEntity, usize)>,
    triggers: Seq<(PgTriggerEntity, usize)>,
    n: nat,
)
    requires
        in_bounds(types, n),
        in_bounds(enums, n),
        in_bounds(externs, n),
        in_bounds(schemas, n),
        in_bounds(extension_sqls, n),
        in_bounds(triggers, n),
    ensures
        resolve(
            positioning_ref,
            types,
            enums,
            externs,
            schemas,
            extension_sqls,
            triggers,
        ) matches Some(t) ==> t < n,
{
    match positioning_ref {
        PositioningRef::FullPath(path) => {
            let name = last_segment(path@);
            let module = module_part(path@);
            lemma_first_of_five(
                seq![
                    first_where(types, type_named_in(name, module)),
                    first_where(enums, enum_named_in(name, module)),
                    first_where(externs, extern_named_in(name, module)),
                    first_where(schemas, schema_named_in(name, module)),
                    first_where(triggers, trigger_named_in(name, module)),
                ],
            );
            lemma_first_where_in_bounds(types, type_named_in(name, module), n);
            lemma_first_where_in_bounds(enums, enum_named_in(name, module), n);
            lemma_first_where_in_bounds(externs, extern_named_in(name, module), n);
            lemma_first_where_in_bounds(schemas, schema_named_in(name, module), n);
            lemma_first_where_in_bounds(triggers, trigger_named_in(name, module), n);
        },
        PositioningRef::Name(name) => {
            lemma_first_where_in_bounds(extension_sqls, sql_named(name@), n);
        },
    }
}

/// A path names a type wherever one type has the path's last segment as
/// name and a module that ends with the rest of the path, whatever
/// enumerations, functions, schemas and triggers match as well: the first
/// such type.
pub proof fn law_types_come_first(
    path: Seq<char>,
    types: Seq<(PostgresTypeEntity, usize)>,
    enums: Seq<(PostgresEnumEntity, usize)>,
    externs: Seq<(PgExternEntity, usize)>,
    schemas: Seq<(SchemaEntity, usize)>,
    triggers: Seq<(PgTriggerEntity, usize)>,
    k: int,
)
    requires
        0 <= k < types.len(),
        types[k].0.name@ == last_segment(path),
        module_part(path).is_suffix_of(types[k].0.module@),
    ensures
        resolve_path(path, types, enums, externs, schemas, triggers) == first_where(
            types,
            type_named_in(last_segment(path), module_part(path)),
        ),
        resolve_path(path, types, enums, externs, schemas, triggers) is Some,
{
    let name = last_segment(path);
    let module = module_part(path);
    lemma_first_of_five(
        seq![
            first_where(types, type_named_in(name, module)),
            first_where(enums, enum_named_in(name, module)),
            first_where(externs, extern_named_in(name, module)),
            first_where(schemas, schema_named_in(name, module)),
            first_where(triggers, trigger_named_in(name, module)),
        ],
    );
    lemma_first_where_exists(types, type_named_in(name, module));
}

} // verus!
