//! Looking entities up in the tables: by module, by name, by identity.

use crate::entity::{
    ExtensionSqlEntity, PgExternEntity, PgTriggerEntity, PostgresEnumEntity, PostgresHashEntity,
    PostgresTypeEntity, SchemaEntity,
};
use crate::tables::{
    all_where, first_where, lemma_first_where_found, lemma_first_where_none, matching,
};
use crate::text::{ends_with, lowercase_of, to_lowercase, with_suffix};
use vstd::prelude::*;

verus! {

/// Schemas declared by the module `module`.
pub open spec fn schema_in(module: Seq<char>) -> spec_fn(SchemaEntity) -> bool {
    |s: SchemaEntity| s.module@ == module
}

/// Schemas of the name `name`.
pub open spec fn schema_named(name: Seq<char>) -> spec_fn(SchemaEntity) -> bool {
    |s: SchemaEntity| s.name@ == name
}

/// Schemas of the name `name` in a module whose path ends with `module`.
pub open spec fn schema_named_in(name: Seq<char>, module: Seq<char>) -> spec_fn(
    SchemaEntity,
) -> bool {
    |s: SchemaEntity| s.name@ == name && module.is_suffix_of(s.module@)
}

/// Types one of whose spellings has the identity `id`.
pub open spec fn type_with(id: u64) -> spec_fn(PostgresTypeEntity) -> bool {
    |t: PostgresTypeEntity| t.matches(id)
}

/// Types of the name `name` in a module whose path ends with `module`.
pub open spec fn type_named_in(name: Seq<char>, module: Seq<char>) -> spec_fn(
    PostgresTypeEntity,
) -> bool {
    |t: PostgresTypeEntity| t.name@ == name && module.is_suffix_of(t.module@)
}

/// Enumerations one of whose spellings has the identity `id`.
pub open spec fn enum_with(id: u64) -> spec_fn(PostgresEnumEntity) -> bool {
    |e: PostgresEnumEntity| e.matches(id)
}

/// Enumerations of the name `name` in a module whose path ends with
/// `module`.
pub open spec fn enum_named_in(name: Seq<char>, module: Seq<char>) -> spec_fn(
    PostgresEnumEntity,
) -> bool {
    |e: PostgresEnumEntity| e.name@ == name && module.is_suffix_of(e.module@)
}

/// Functions of the full path `full_path`.
pub open spec fn extern_at(full_path: Seq<char>) -> spec_fn(PgExternEntity) -> bool {
    |f: PgExternEntity| f.full_path@ == full_path
}

/// Functions of the name `name`, before any alias, in a module whose path
/// ends with `module`.
pub open spec fn extern_named_in(name: Seq<char>, module: Seq<char>) -> spec_fn(
    PgExternEntity,
) -> bool {
    |f: PgExternEntity| f.unaliased_name@ == name && module.is_suffix_of(f.module@)
}

/// Functions of the module `module` under the SQL name `name`.
pub open spec fn extern_called(module: Seq<char>, name: Seq<char>) -> spec_fn(
    PgExternEntity,
) -> bool {
    |f: PgExternEntity| f.module@ == module && f.name@ == name
}

/// Triggers of the function name `name` in a module whose path ends with
/// `module`.
pub open spec fn trigger_named_in(name: Seq<char>, module: Seq<char>) -> spec_fn(
    PgTriggerEntity,
) -> bool {
    |t: PgTriggerEntity| t.function_name@ == name && module.is_suffix_of(t.module@)
}

/// SQL fragments of the name `name`.
pub open spec fn sql_named(name: Seq<char>) -> spec_fn(ExtensionSqlEntity) -> bool {
    |e: ExtensionSqlEntity| e.name@ == name
}

/// SQL fragments that declare a type or an enumeration of the name `path`.
pub open spec fn sql_declaring(path: Seq<char>) -> spec_fn(ExtensionSqlEntity) -> bool {
    |e: ExtensionSqlEntity| e.declares_type_or_enum(path)
}

/// Placeholders of the path `path`.
pub open spec fn path_is(path: Seq<char>) -> spec_fn(String) -> bool {
    |s: String| s@ == path
}

/// Hash operator classes of the module `module` whose equality function is
/// called `name`: the lower-case name of the class and `_eq`.
pub open spec fn hash_with_equality(module: Seq<char>, name: Seq<char>) -> spec_fn(
    PostgresHashEntity,
) -> bool {
    |h: PostgresHashEntity| h.module@ == module && name == lowercase_of(h.name@) + "_eq"@
}

/// The first schema that the module `module` declares.
pub fn find_schema_in(schemas: &Vec<(SchemaEntity, usize)>, module: &String) -> (r: Option<usize>)
    ensures
        r == first_where(schemas@, schema_in(module@)),
{
    let mut i: usize = 0;
    while i < schemas.len()
        invariant
            i <= schemas.len(),
            forall|j: int| 0 <= j < i ==> !schema_in(module@)((#[trigger] schemas@[j]).0),
        decreases schemas.len() - i,
    {
        if *module == schemas[i].0.module {
            proof {
                lemma_first_where_found(schemas@, schema_in(module@), i as int);
            }
            return Some(schemas[i].1);
        }
        i += 1;
    }
    proof {
        lemma_first_where_none(schemas@, schema_in(module@));
    }
    None
}

/// Every schema of the name `name`.
pub fn find_schemas_named(schemas: &Vec<(SchemaEntity, usize)>, name: &String) -> (r: Vec<usize>)
    ensures
        r@ == all_where(schemas@, schema_named(name@)),
{
    let mut found: Vec<usize> = Vec::new();
    let mut i: usize = 0;
    while i < schemas.len()
        invariant
            i <= schemas.len(),
            found@ == matching(schemas@, schema_named(name@), i as int),
        decreases schemas.len() - i,
    {
        if schemas[i].0.name == *name {
            found.push(schemas[i].1);
        }
        i += 1;
    }
    found
}

/// The first schema of the name `name` in a module whose path ends with
/// `module`.
pub fn find_schema_named_in(
    schemas: &Vec<(SchemaEntity, usize)>,
    name: &String,
    module: &String,
) -> (r: Option<usize>)
    ensures
        r == first_where(schemas@, schema_named_in(name@, module@)),
{
    let mut i: usize = 0;
    while i < schemas.len()
        invariant
            i <= schemas.len(),
            forall|j: int|
                0 <= j < i ==> !schema_named_in(name@, module@)((#[trigger] schemas@[j]).0),
        decreases schemas.len() - i,
    {
        if *name == schemas[i].0.name && ends_with(&schemas[i].0.module, module) {
            proof {
                lemma_first_where_found(schemas@, schema_named_in(name@, module@), i as int);
            }
            return Some(schemas[i].1);
        }
        i += 1;
    }
    proof {
        lemma_first_where_none(schemas@, schema_named_in(name@, module@));
    }
    None
}

/// The first type one of whose spellings has the identity `id`.
pub fn find_type(types: &Vec<(PostgresTypeEntity, usize)>, id: u64) -> (r: Option<usize>)
    ensures
        r == first_where(types@, type_with(id)),
{
    let mut i: usize = 0;
    while i < types.len()
        invariant
            i <= types.len(),
            forall|j: int| 0 <= j < i ==> !type_with(id)((#[trigger] types@[j]).0),
        decreases types.len() - i,
    {
        if types[i].0.id_matches(id) {
            proof {
                lemma_first_where_found(types@, type_with(id), i as int);
            }
            return Some(types[i].1);
        }
        i += 1;
    }
    proof {
        lemma_first_where_none(types@, type_with(id));
    }
    None
}

/// The first type of the name `name` in a module whose path ends with
/// `module`.
pub fn find_type_named_in(
    types: &Vec<(PostgresTypeEntity, usize)>,
    name: &String,
    module: &String,
) -> (r: Option<usize>)
    ensures
        r == first_where(types@, type_named_in(name@, module@)),
{
    let mut i: usize = 0;
    while i < types.len()
        invariant
            i <= types.len(),
            forall|j: int|
                0 <= j < i ==> !type_named_in(name@, module@)((#[trigger] types@[j]).0),
        decreases types.len() - i,
    {
        if *name == types[i].0.name && ends_with(&types[i].0.module, module) {
            proof {
                lemma_first_where_found(types@, type_named_in(name@, module@), i as int);
            }
            return Some(types[i].1);
        }
        i += 1;
    }
    proof {
        lemma_first_where_none(types@, type_named_in(name@, module@));
    }
    None
}

/// The first enumeration one of whose spellings has the identity `id`.
pub fn find_enum(enums: &Vec<(PostgresEnumEntity, usize)>, id: u64) -> (r: Option<usize>)
    ensures
        r == first_where(enums@, enum_with(id)),
{
    let mut i: usize = 0;
    while i < enums.len()
        invariant
            i <= enums.len(),
            forall|j: int| 0 <= j < i ==> !enum_with(id)((#[trigger] enums@[j]).0),
        decreases enums.len() - i,
    {
        if enums[i].0.id_matches(id) {
            proof {
                lemma_first_where_found(enums@, enum_with(id), i as int);
            }
            return Some(enums[i].1);
        }
        i += 1;
    }
    proof {
        lemma_first_where_none(enums@, enum_with(id));
    }
    None
}

/// The first enumeration of the name `name` in a module whose path ends
/// with `module`.
pub fn find_enum_named_in(
    enums: &Vec<(PostgresEnumEntity, usize)>,
    name: &String,
    module: &String,
) -> (r: Option<usize>)
    ensures
        r == first_where(enums@, enum_named_in(name@, module@)),
{
    let mut i: usize = 0;
    while i < enums.len()
        invariant
            i <= enums.len(),
            forall|j: int|
                0 <= j < i ==> !enum_named_in(name@, module@)((#[trigger] enums@[j]).0),
        decreases enums.len() - i,
    {
        if *name == enums[i].0.name && ends_with(&enums[i].0.module, module) {
            proof {
                lemma_first_where_found(enums@, enum_named_in(name@, module@), i as int);
            }
            return Some(enums[i].1);
        }
        i += 1;
    }
    proof {
        lemma_first_where_none(enums@, enum_named_in(name@, module@));
    }
    None
}

/// The first function of the full path `full_path`.
pub fn find_extern_at(externs: &Vec<(PgExternEntity, usize)>, full_path: &String) -> (r: Option<
    usize,
>)
    ensures
        r == first_where(externs@, extern_at(full_path@)),
{
    let mut i: usize = 0;
    while i < externs.len()
        invariant
            i <= externs.len(),
            forall|j: int| 0 <= j < i ==> !extern_at(full_path@)((#[trigger] externs@[j]).0),
        decreases externs.len() - i,
    {
        if *full_path == externs[i].0.full_path {
            proof {
                lemma_first_where_found(externs@, extern_at(full_path@), i as int);
            }
            return Some(externs[i].1);
        }
        i += 1;
    }
    proof {
        lemma_first_where_none(externs@, extern_at(full_path@));
    }
    None
}

/// The first function of the name `name`, before any alias, in a module
/// whose path ends with `module`.
pub fn find_extern_named_in(
    externs: &Vec<(PgExternEntity, usize)>,
    name: &String,
    module: &String,
) -> (r: Option<usize>)
    ensures
        r == first_where(externs@, extern_named_in(name@, module@)),
{
    let mut i: usize = 0;
    while i < externs.len()
        invariant
            i <= externs.len(),
            forall|j: int|
                0 <= j < i ==> !extern_named_in(name@, module@)((#[trigger] externs@[j]).0),
        decreases externs.len() - i,
    {
        if *name == externs[i].0.unaliased_name && ends_with(&externs[i].0.module, module) {
            proof {
                lemma_first_where_found(externs@, extern_named_in(name@, module@), i as int);
            }
            return Some(externs[i].1);
        }
        i += 1;
    }
    proof {
        lemma_first_where_none(externs@, extern_named_in(name@, module@));
    }
    None
}

/// The first function of the module `module` under the SQL name `name`.
pub fn find_extern_called(
    externs: &Vec<(PgExternEntity, usize)>,
    module: &String,
    name: &String,
) -> (r: Option<usize>)
    ensures
        r == first_where(externs@, extern_called(module@, name@)),
{
    let mut i: usize = 0;
    while i < externs.len()
        invariant
            i <= externs.len(),
            forall|j: int|
                0 <= j < i ==> !extern_called(module@, name@)((#[trigger] externs@[j]).0),
        decreases externs.len() - i,
    {
        if *module == externs[i].0.module && externs[i].0.name == *name {
            proof {
                lemma_first_where_found(externs@, extern_called(module@, name@), i as int);
            }
            return Some(externs[i].1);
        }
        i += 1;
    }
    proof {
        lemma_first_where_none(externs@, extern_called(module@, name@));
    }
    None
}

/// The first trigger of the function name `name` in a module whose path
/// ends with `module`.
pub fn find_trigger_named_in(
    triggers: &Vec<(PgTriggerEntity, usize)>,
    name: &String,
    module: &String,
) -> (r: Option<usize>)
    ensures
        r == first_where(triggers@, trigger_named_in(name@, module@)),
{
    let mut i: usize = 0;
    while i < triggers.len()
        invariant
            i <= triggers.len(),
            forall|j: int|
                0 <= j < i ==> !trigger_named_in(name@, module@)((#[trigger] triggers@[j]).0),
        decreases triggers.len() - i,
    {
        if *name == triggers[i].0.function_name && ends_with(&triggers[i].0.module, module) {
            proof {
                lemma_first_where_found(triggers@, trigger_named_in(name@, module@), i as int);
            }
            return Some(triggers[i].1);
        }
        i += 1;
    }
    proof {
        lemma_first_where_none(triggers@, trigger_named_in(name@, module@));
    }
    None
}

/// The first SQL fragment of the name `name`.
pub fn find_sql_named(sqls: &Vec<(ExtensionSqlEntity, usize)>, name: &String) -> (r: Option<
    usize,
>)
    ensures
        r == first_where(sqls@, sql_named(name@)),
{
    let mut i: usize = 0;
    while i < sqls.len()
        invariant
            i <= sqls.len(),
            forall|j: int| 0 <= j < i ==> !sql_named(name@)((#[trigger] sqls@[j]).0),
        decreases sqls.len() - i,
    {
        if sqls[i].0.name == *name {
            proof {
                lemma_first_where_found(sqls@, sql_named(name@), i as int);
            }
            return Some(sqls[i].1);
        }
        i += 1;
    }
    proof {
        lemma_first_where_none(sqls@, sql_named(name@));
    }
    None
}

/// Every SQL fragment that declares a type or an enumeration of the name
/// `path`.
pub fn find_sqls_declaring(sqls: &Vec<(ExtensionSqlEntity, usize)>, path: &String) -> (r: Vec<
    usize,
>)
    ensures
        r@ == all_where(sqls@, sql_declaring(path@)),
{
    let mut found: Vec<usize> = Vec::new();
    let mut i: usize = 0;
    while i < sqls.len()
        invariant
            i <= sqls.len(),
            found@ == matching(sqls@, sql_declaring(path@), i as int),
        decreases sqls.len() - i,
    {
        if sqls[i].0.has_type_or_enum(path) {
            found.push(sqls[i].1);
        }
        i += 1;
    }
    found
}

/// The placeholder of the path `path`.
pub fn find_builtin(builtin_types: &Vec<(String, usize)>, path: &String) -> (r: Option<usize>)
    ensures
        r == first_where(builtin_types@, path_is(path@)),
{
    let mut i: usize = 0;
    while i < builtin_types.len()
        invariant
            i <= builtin_types.len(),
            forall|j: int| 0 <= j < i ==> !path_is(path@)((#[trigger] builtin_types@[j]).0),
        decreases builtin_types.len() - i,
    {
        if builtin_types[i].0 == *path {
            proof {
                lemma_first_where_found(builtin_types@, path_is(path@), i as int);
            }
            return Some(builtin_types[i].1);
        }
        i += 1;
    }
    proof {
        lemma_first_where_none(builtin_types@, path_is(path@));
    }
    None
}

/// Whether `name` is `lowered` followed by `suffix`.
pub fn is_suffixed(name: &String, lowered: &String, suffix: &str) -> (r: bool)
    ensures
        r == (name@ == lowered@ + suffix@),
{
    let expected = with_suffix(lowered, suffix);
    *name == expected
}

/// Every hash operator class of the module `module` whose equality function
/// is called `name`.
pub fn find_hashes_with_equality(
    hashes: &Vec<(PostgresHashEntity, usize)>,
    module: &String,
    name: &String,
) -> (r: Vec<usize>)
    ensures
        r@ == all_where(hashes@, hash_with_equality(module@, name@)),
{
    let mut found: Vec<usize> = Vec::new();
    let mut i: usize = 0;
    while i < hashes.len()
        invariant
            i <= hashes.len(),
            found@ == matching(hashes@, hash_with_equality(module@, name@), i as int),
        decreases hashes.len() - i,
    {
        if *module == hashes[i].0.module {
            let lowered = to_lowercase(&hashes[i].0.name);
            if is_suffixed(name, &lowered, "_eq") {
                found.push(hashes[i].1);
            }
        }
        i += 1;
    }
    found
}

} // verus!
