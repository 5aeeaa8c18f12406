use sql_entity_graph::dot::{edge_attributes, node_attributes};
use sql_entity_graph::emit::{assemble, SqlError};
use sql_entity_graph::entity::{
    ControlFile, ExtensionSqlEntity, PgExternEntity, PgExternReturnEntity, PositioningRef,
    PostgresTypeEntity, RustSourceOnlySqlMapping, RustToSqlMapping, SchemaEntity, SqlDeclared,
    SqlDeclaredEntity, SqlDeclaredEntityData, SqlGraphEntity,
};
use sql_entity_graph::graph::{SqlGraphKind, SqlGraphRelationship};
use sql_entity_graph::pgx_sql::{CycleError, PgxSql};

fn s(text: &str) -> String {
    text.to_string()
}

fn control_with(relocatable: bool, schema: Option<&str>) -> SqlGraphEntity {
    SqlGraphEntity::ExtensionRoot(ControlFile {
        comment: s("an extension"),
        default_version: s("1.2.3"),
        module_pathname: None,
        relocatable,
        superuser: false,
        schema: schema.map(s),
    })
}

fn schema(module: &str, name: &str) -> SqlGraphEntity {
    SqlGraphEntity::Schema(SchemaEntity { module: s(module), name: s(name), file: s("a.rs"), line: 1 })
}

fn ty(module: &str, name: &str, file: &str, line: u32) -> SqlGraphEntity {
    SqlGraphEntity::Type(PostgresTypeEntity {
        name: s(name),
        file: s(file),
        line,
        full_path: format!("{}::{}", module, name),
        module: s(module),
        mappings: vec![],
        in_fn: s("in"),
        in_fn_module: s(module),
        out_fn: s("out"),
        out_fn_module: s(module),
    })
}

fn func(module: &str, name: &str) -> SqlGraphEntity {
    SqlGraphEntity::Function(PgExternEntity {
        name: s(name),
        unaliased_name: s(name),
        module: s(module),
        full_path: format!("{}::{}", module, name),
        file: s("a.rs"),
        line: 4,
        extern_attrs: vec![],
        search_path: None,
        fn_args: vec![],
        fn_return: PgExternReturnEntity::Nothing,
    })
}

fn declared(name: &str) -> SqlDeclaredEntityData {
    SqlDeclaredEntityData { sql: name.to_lowercase(), name: s(name) }
}

fn sql(name: &str, requires: Vec<PositioningRef>, creates: Vec<SqlDeclaredEntity>) -> SqlGraphEntity {
    SqlGraphEntity::CustomSql(ExtensionSqlEntity {
        module: s("q"),
        full_path: format!("q::{}", name),
        sql: s("SELECT 1;"),
        file: s("a.rs"),
        line: 5,
        name: s(name),
        bootstrap: false,
        finalize: false,
        requires,
        creates,
    })
}

fn build_with(
    mappings: Vec<RustSourceOnlySqlMapping>,
    entities: Vec<SqlGraphEntity>,
    versioned_so: bool,
) -> PgxSql {
    PgxSql::build(RustToSqlMapping { rust_source_to_sql: mappings }, entities, s("zoo"), versioned_so)
        .expect("the build succeeds")
}

fn build(entities: Vec<SqlGraphEntity>) -> PgxSql {
    build_with(vec![], entities, false)
}

fn position(order: &[usize], node: usize) -> usize {
    order.iter().position(|n| *n == node).expect("every node is in the order")
}

#[test]
fn without_a_schema_the_control_entity_gives_the_schema() {
    let graph = build(vec![control_with(false, Some("public")), ty("m", "T", "a.rs", 1)]);
    assert_eq!(graph.schema_alias_of(1), Some(s("public")));
    assert_eq!(graph.schema_prefix_for(1), "public.");
}

#[test]
fn a_relocatable_extension_gives_the_token_for_its_name() {
    let graph = build(vec![control_with(true, Some("public")), ty("m", "T", "a.rs", 1)]);
    assert_eq!(graph.schema_alias_of(1), Some(s("@extname@")));
    assert_eq!(graph.schema_prefix_for(1), "@extname@.");
}

#[test]
fn the_schema_of_the_module_comes_before_that_of_the_control_entity() {
    let graph = build(vec![
        control_with(false, Some("public")),
        schema("m", "animals"),
        ty("m", "T", "a.rs", 1),
    ]);
    assert_eq!(graph.schema_alias_of(graph.tables().types[0].1), Some(s("animals")));
    // a schema itself has the root for a neighbour
    assert_eq!(graph.schema_alias_of(graph.tables().schemas[0].1), Some(s("public")));
}

#[test]
fn what_is_no_node_has_no_schema() {
    let graph = build(vec![control_with(false, Some("public"))]);
    assert_eq!(graph.schema_alias_of(0), None);
    assert_eq!(graph.schema_alias_of(17), None);
    assert_eq!(graph.schema_prefix_for(17), "");
}

#[test]
fn the_first_fragment_that_declares_a_thing_gives_it() {
    let graph = build(vec![
        control_with(false, None),
        sql("one", vec![], vec![SqlDeclaredEntity::Enum(declared("Cat"))]),
        sql(
            "two",
            vec![],
            vec![
                SqlDeclaredEntity::Function(declared("Cat")),
                SqlDeclaredEntity::Type(declared("Cat")),
                SqlDeclaredEntity::Type(declared("Dog")),
            ],
        ),
    ]);
    assert_eq!(
        graph.has_sql_declared_entity(&SqlDeclared::Type(s("Cat"))),
        Some(&SqlDeclaredEntity::Type(declared("Cat")))
    );
    assert_eq!(
        graph.has_sql_declared_entity(&SqlDeclared::Enum(s("Cat"))),
        Some(&SqlDeclaredEntity::Enum(declared("Cat")))
    );
    assert_eq!(
        graph.has_sql_declared_entity(&SqlDeclared::Function(s("Cat"))),
        Some(&SqlDeclaredEntity::Function(declared("Cat")))
    );
    assert_eq!(graph.has_sql_declared_entity(&SqlDeclared::Enum(s("Dog"))), None);
    assert_eq!(graph.has_sql_declared_entity(&SqlDeclared::Type(s("cat"))), None);
}

#[test]
fn the_last_mapping_for_a_source_text_counts() {
    let graph = build_with(
        vec![
            RustSourceOnlySqlMapping { rust: s("i32"), sql: s("integer") },
            RustSourceOnlySqlMapping { rust: s("String"), sql: s("text") },
            RustSourceOnlySqlMapping { rust: s("i32"), sql: s("int4") },
        ],
        vec![control_with(false, None)],
        false,
    );
    assert_eq!(graph.source_only_to_sql_type("i32"), Some(s("int4")));
    assert_eq!(graph.source_only_to_sql_type("String"), Some(s("text")));
    assert_eq!(graph.source_only_to_sql_type("u8"), None);
    assert_eq!(graph.source_mappings().len(), 3);
}

#[test]
fn the_module_path_names_the_version_where_the_library_does() {
    let versioned = build_with(vec![], vec![control_with(false, None)], true);
    assert_eq!(versioned.get_module_pathname(), "$libdir/zoo-1.2.3");
    assert!(versioned.versioned_so());
    let plain = build_with(vec![], vec![control_with(false, None)], false);
    assert_eq!(plain.get_module_pathname(), "MODULE_PATHNAME");
    assert_eq!(plain.extension_name(), "zoo");
}

#[test]
fn parts_are_put_together_line_by_line() {
    assert_eq!(assemble(&vec![s("a;"), s(""), s("b;\nc;"), s("")]), "a;\nb;\nc;\n");
    assert_eq!(assemble(&vec![]), "");
    assert_eq!(assemble(&vec![s(""), s("")]), "");
}

#[test]
fn the_sql_of_a_graph_is_that_of_its_nodes_in_order() {
    let graph = build(vec![
        control_with(false, None),
        func("m", "f"),
        sql("after_f", vec![PositioningRef::FullPath(s("m::f"))], vec![]),
    ]);
    let text = graph
        .to_sql(|node| -> Result<String, String> {
            Ok(match graph.node(node).map(|n| n.kind) {
                Some(SqlGraphKind::ExtensionRoot) => s(""),
                _ => graph.dot_identifier(node).unwrap_or_default(),
            })
        })
        .expect("the SQL is written");
    assert_eq!(text, "fn f\nsql after_f\n");
}

#[test]
fn the_sql_of_a_graph_fails_where_rendering_fails() {
    let graph = build(vec![control_with(false, None), func("m", "f")]);
    let r = graph.to_sql(|node| if node == 1 { Err(s("no")) } else { Ok(s("")) });
    assert_eq!(r, Err(SqlError::Render { node: 1, reason: s("no") }));
}

#[test]
fn the_sql_of_a_graph_fails_where_there_is_a_cycle() {
    let graph = build(vec![
        control_with(false, None),
        sql("one", vec![PositioningRef::Name(s("one"))], vec![]),
    ]);
    let r = graph.to_sql(|_| -> Result<String, String> { Ok(s("x")) });
    assert_eq!(r, Err(SqlError::Cycle(CycleError { node: 1 })));
}

#[test]
fn entities_of_one_kind_come_by_the_place_of_their_declaration() {
    let graph = build(vec![
        ty("m", "D", "src/b.rs", 1),
        ty("m", "C", "src/a.rs", 20),
        ty("m", "B", "src/a.rs", 3),
        ty("m", "B2", "src/a.rs", 3),
        ty("m", "A", "src/a.rs", 100),
        control_with(false, None),
    ]);
    let names: Vec<&str> = graph.tables().types.iter().map(|t| t.0.name.as_str()).collect();
    assert_eq!(names, vec!["B", "B2", "C", "A", "D"]);
    let nodes: Vec<usize> = graph.tables().types.iter().map(|t| t.1).collect();
    assert_eq!(nodes, vec![1, 2, 3, 4, 5]);
}

#[test]
fn an_order_holds_every_node_once_and_respects_the_edges() {
    let graph = build(vec![
        control_with(false, None),
        schema("m", "s"),
        ty("m", "T", "a.rs", 1),
        func("m", "f"),
        sql("late", vec![PositioningRef::FullPath(s("m::f"))], vec![]),
    ]);
    let order = graph.linearize().expect("there is no cycle");
    let mut seen = order.clone();
    seen.sort();
    assert_eq!(seen, vec![0, 1, 2, 3, 4]);
    assert!(position(&order, 0) < position(&order, 2));
    assert!(position(&order, 2) < position(&order, 3));
    assert!(position(&order, 2) < position(&order, 4));
    assert!(position(&order, 4) < position(&order, 1));
}

#[test]
fn nodes_are_labelled_by_kind_and_name() {
    let graph = build(vec![
        control_with(false, None),
        schema("m", "s"),
        ty("m", "T", "a.rs", 1),
        func("m", "f"),
    ]);
    assert_eq!(graph.dot_identifier(0), Some(s("extension root")));
    assert_eq!(graph.dot_identifier(1), Some(s("schema s")));
    assert_eq!(graph.dot_identifier(2), Some(s("type m::T")));
    assert_eq!(graph.dot_identifier(3), Some(s("fn f")));
    assert_eq!(graph.dot_identifier(4), None);
}

#[test]
fn nodes_and_edges_are_drawn_by_kind() {
    assert_eq!(
        node_attributes(SqlGraphKind::Schema, &s("schema s")),
        "label = \"schema s\", weight = 6, shape = \"tab\""
    );
    assert_eq!(
        node_attributes(SqlGraphKind::BuiltinType, &s("preexisting type i32")),
        "label = \"preexisting type i32\", shape = \"plain\""
    );
    assert_eq!(edge_attributes(SqlGraphRelationship::RequiredBy), "color = \"gray\"");
    assert_eq!(
        edge_attributes(SqlGraphRelationship::RequiredByReturn),
        "dir = \"back\", color = \"black\""
    );
}

#[test]
fn the_graph_is_written_as_graphviz_text() {
    let graph = build(vec![control_with(false, None), schema("m", "s")]);
    assert_eq!(
        graph.to_dot(),
        "digraph {\n    0 [ label = \"extension root\", shape = \"cylinder\"]\n    1 [ label = \"schema s\", weight = 6, shape = \"tab\"]\n    0 -> 1 [ color = \"gray\"]\n}\n"
    );
}
