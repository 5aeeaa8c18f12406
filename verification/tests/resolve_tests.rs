use sql_entity_graph::entity::{
    ExtensionSqlEntity, PgExternEntity, PgExternReturnEntity, PgTriggerEntity, PositioningRef,
    PostgresEnumEntity, PostgresTypeEntity, SchemaEntity,
};
use sql_entity_graph::resolve::find_positioning_ref_target;

fn s(text: &str) -> String {
    text.to_string()
}

fn ty(module: &str, name: &str) -> PostgresTypeEntity {
    PostgresTypeEntity {
        name: s(name),
        file: s("src/lib.rs"),
        line: 1,
        full_path: format!("{}::{}", module, name),
        module: s(module),
        mappings: vec![],
        in_fn: s("in"),
        in_fn_module: s(module),
        out_fn: s("out"),
        out_fn_module: s(module),
    }
}

fn en(module: &str, name: &str) -> PostgresEnumEntity {
    PostgresEnumEntity {
        name: s(name),
        file: s("src/lib.rs"),
        line: 2,
        full_path: format!("{}::{}", module, name),
        module: s(module),
        mappings: vec![],
        variants: vec![],
    }
}

fn func(module: &str, name: &str, unaliased: &str) -> PgExternEntity {
    PgExternEntity {
        name: s(name),
        unaliased_name: s(unaliased),
        module: s(module),
        full_path: format!("{}::{}", module, unaliased),
        file: s("src/lib.rs"),
        line: 3,
        extern_attrs: vec![],
        search_path: None,
        fn_args: vec![],
        fn_return: PgExternReturnEntity::Nothing,
    }
}

fn schema(module: &str, name: &str) -> SchemaEntity {
    SchemaEntity { module: s(module), name: s(name), file: s("src/lib.rs"), line: 4 }
}

fn trigger(module: &str, name: &str) -> PgTriggerEntity {
    PgTriggerEntity {
        function_name: s(name),
        file: s("src/lib.rs"),
        line: 5,
        module: s(module),
        full_path: format!("{}::{}", module, name),
    }
}

fn sql(name: &str) -> ExtensionSqlEntity {
    ExtensionSqlEntity {
        module: s("m"),
        full_path: format!("m::{}", name),
        sql: s("SELECT 1;"),
        file: s("src/lib.rs"),
        line: 6,
        name: s(name),
        bootstrap: false,
        finalize: false,
        requires: vec![],
        creates: vec![],
    }
}

struct Tables {
    types: Vec<(PostgresTypeEntity, usize)>,
    enums: Vec<(PostgresEnumEntity, usize)>,
    externs: Vec<(PgExternEntity, usize)>,
    schemas: Vec<(SchemaEntity, usize)>,
    sqls: Vec<(ExtensionSqlEntity, usize)>,
    triggers: Vec<(PgTriggerEntity, usize)>,
}

fn tables() -> Tables {
    Tables {
        types: vec![(ty("crate::zoo", "Cat"), 10), (ty("crate::farm", "Cat"), 11)],
        enums: vec![(en("crate::zoo", "Cat"), 20), (en("crate::zoo", "Mood"), 21)],
        externs: vec![(func("crate::zoo", "purr", "Cat"), 30), (func("crate::zoo", "feed_sql", "feed"), 31)],
        schemas: vec![(schema("crate::zoo", "zoo"), 40)],
        sqls: vec![(sql("setup"), 50), (sql("Cat"), 51)],
        triggers: vec![(trigger("crate::zoo", "on_feed"), 60)],
    }
}

fn resolve(t: &Tables, reference: PositioningRef) -> Option<usize> {
    find_positioning_ref_target(
        &reference,
        &t.types,
        &t.enums,
        &t.externs,
        &t.schemas,
        &t.sqls,
        &t.triggers,
    )
}

#[test]
fn a_type_is_found_before_an_enum_and_a_function_of_the_same_name() {
    let t = tables();
    assert_eq!(resolve(&t, PositioningRef::FullPath(s("zoo::Cat"))), Some(10));
    assert_eq!(resolve(&t, PositioningRef::FullPath(s("Cat"))), Some(10));
    assert_eq!(resolve(&t, PositioningRef::FullPath(s("farm::Cat"))), Some(11));
}

#[test]
fn an_enum_is_found_where_no_type_matches() {
    let mut t = tables();
    t.types.clear();
    assert_eq!(resolve(&t, PositioningRef::FullPath(s("zoo::Cat"))), Some(20));
    assert_eq!(resolve(&t, PositioningRef::FullPath(s("crate::zoo::Mood"))), Some(21));
}

#[test]
fn a_function_is_found_by_its_name_before_any_alias() {
    let t = tables();
    assert_eq!(resolve(&t, PositioningRef::FullPath(s("zoo::feed"))), Some(31));
    assert_eq!(resolve(&t, PositioningRef::FullPath(s("zoo::feed_sql"))), None);
}

#[test]
fn a_schema_is_found_by_its_name_and_the_module_around_it() {
    let mut t = tables();
    t.schemas.push((schema("crate::farm", "barn"), 41));
    assert_eq!(resolve(&t, PositioningRef::FullPath(s("farm::barn"))), Some(41));
    assert_eq!(resolve(&t, PositioningRef::FullPath(s("barn"))), Some(41));
    assert_eq!(resolve(&t, PositioningRef::FullPath(s("zoo"))), Some(40));
    // the module of the schema `zoo` is `crate::zoo`, which does not end
    // with `crate`
    assert_eq!(resolve(&t, PositioningRef::FullPath(s("crate::zoo"))), None);
    assert_eq!(resolve(&t, PositioningRef::FullPath(s("crate::farm"))), None);
}

#[test]
fn a_trigger_is_found_last() {
    let t = tables();
    assert_eq!(resolve(&t, PositioningRef::FullPath(s("zoo::on_feed"))), Some(60));
}

#[test]
fn a_path_that_matches_nothing_names_nothing() {
    let t = tables();
    assert_eq!(resolve(&t, PositioningRef::FullPath(s("zoo::Dog"))), None);
    assert_eq!(resolve(&t, PositioningRef::FullPath(s("park::Cat"))), None);
}

#[test]
fn a_name_is_matched_against_sql_fragments_only_and_exactly() {
    let t = tables();
    assert_eq!(resolve(&t, PositioningRef::Name(s("setup"))), Some(50));
    assert_eq!(resolve(&t, PositioningRef::Name(s("Cat"))), Some(51));
    assert_eq!(resolve(&t, PositioningRef::Name(s("set"))), None);
    assert_eq!(resolve(&t, PositioningRef::Name(s("Mood"))), None);
}
