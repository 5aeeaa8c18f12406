use petgraph::visit::{EdgeRef, IntoEdgeReferences};
use sql_entity_graph::entity::{
    AggregateTypeEntity, ControlFile, ExtensionSqlEntity, ExternArgs, PgAggregateEntity,
    PgExternArgumentEntity, PgExternEntity, PgExternReturnEntity,
    PgExternReturnEntityIteratedItem, PgTriggerEntity, PositioningRef, PostgresEnumEntity,
    PostgresHashEntity, PostgresTypeEntity, RustSqlMapping, RustToSqlMapping, SchemaEntity,
    SqlDeclaredEntity, SqlDeclaredEntityData, SqlGraphEntity, UsedTypeEntity,
};
use sql_entity_graph::graph::SqlGraphRelationship::{RequiredBy, RequiredByArg, RequiredByReturn};
use sql_entity_graph::graph::{SqlGraphKind, SqlGraphNode, SqlGraphRelationship};
use sql_entity_graph::pgx_sql::PgxSql;

fn s(text: &str) -> String {
    text.to_string()
}

fn control() -> SqlGraphEntity {
    SqlGraphEntity::ExtensionRoot(ControlFile {
        comment: s("an extension"),
        default_version: s("1.0"),
        module_pathname: None,
        relocatable: false,
        superuser: false,
        schema: None,
    })
}

fn schema(module: &str, name: &str) -> SqlGraphEntity {
    SqlGraphEntity::Schema(SchemaEntity { module: s(module), name: s(name), file: s("a.rs"), line: 1 })
}

fn mapping(name: &str, id: u64) -> RustSqlMapping {
    RustSqlMapping { rust: s(name), sql: name.to_lowercase(), id }
}

fn ty(module: &str, name: &str, ids: &[u64]) -> SqlGraphEntity {
    SqlGraphEntity::Type(PostgresTypeEntity {
        name: s(name),
        file: s("a.rs"),
        line: 2,
        full_path: format!("{}::{}", module, name),
        module: s(module),
        mappings: ids.iter().map(|id| mapping(name, *id)).collect(),
        in_fn: s("in"),
        in_fn_module: s(module),
        out_fn: s("out"),
        out_fn_module: s(module),
    })
}

fn en(module: &str, name: &str, id: u64) -> SqlGraphEntity {
    SqlGraphEntity::Enum(PostgresEnumEntity {
        name: s(name),
        file: s("a.rs"),
        line: 3,
        full_path: format!("{}::{}", module, name),
        module: s(module),
        mappings: vec![mapping(name, id)],
        variants: vec![],
    })
}

fn used(path: &str, id: u64) -> UsedTypeEntity {
    UsedTypeEntity {
        ty_source: format!("{} as written", path),
        ty_id: id,
        full_path: s(path),
        module: s(""),
        optional: false,
        variadic: false,
        default: None,
    }
}

fn func(
    module: &str,
    name: &str,
    attrs: Vec<ExternArgs>,
    args: Vec<UsedTypeEntity>,
    returned: PgExternReturnEntity,
) -> SqlGraphEntity {
    SqlGraphEntity::Function(PgExternEntity {
        name: s(name),
        unaliased_name: s(name),
        module: s(module),
        full_path: format!("{}::{}", module, name),
        file: s("a.rs"),
        line: 4,
        extern_attrs: attrs,
        search_path: None,
        fn_args: args
            .into_iter()
            .map(|used_ty| PgExternArgumentEntity { pattern: s("x"), used_ty })
            .collect(),
        fn_return: returned,
    })
}

fn sql(name: &str, bootstrap: bool, finalize: bool, creates: Vec<SqlDeclaredEntity>) -> SqlGraphEntity {
    SqlGraphEntity::CustomSql(ExtensionSqlEntity {
        module: s("m"),
        full_path: format!("m::{}", name),
        sql: s("SELECT 1;"),
        file: s("a.rs"),
        line: 5,
        name: s(name),
        bootstrap,
        finalize,
        requires: vec![],
        creates,
    })
}

fn hash(module: &str, name: &str, id: u64) -> SqlGraphEntity {
    SqlGraphEntity::Hash(PostgresHashEntity {
        name: s(name),
        file: s("a.rs"),
        line: 7,
        full_path: format!("{}::{}", module, name),
        module: s(module),
        id,
    })
}

fn trigger(module: &str, name: &str) -> SqlGraphEntity {
    SqlGraphEntity::Trigger(PgTriggerEntity {
        function_name: s(name),
        file: s("a.rs"),
        line: 9,
        module: s(module),
        full_path: format!("{}::{}", module, name),
    })
}

fn aggregate(module: &str, name: &str) -> PgAggregateEntity {
    PgAggregateEntity {
        full_path: format!("{}::{}", module, name),
        module: s(module),
        file: s("a.rs"),
        line: 8,
        ty_id: 500,
        name: s(name),
        ordered_set: false,
        args: vec![],
        direct_args: None,
        stype: AggregateTypeEntity { used_ty: used("i32", 900), name: None },
        sfunc: s("state"),
        finalfunc: None,
        combinefunc: None,
        serialfunc: None,
        deserialfunc: None,
        initcond: None,
        msfunc: None,
        minvfunc: None,
        mstype: None,
        mfinalfunc: None,
        minitcond: None,
        sortop: None,
        hypothetical: false,
    }
}

fn build(entities: Vec<SqlGraphEntity>) -> PgxSql {
    PgxSql::build(RustToSqlMapping { rust_source_to_sql: vec![] }, entities, s("ext"), false)
        .expect("the build succeeds")
}

fn edges(graph: &PgxSql) -> Vec<(usize, usize, SqlGraphRelationship)> {
    graph
        .graph()
        .edge_references()
        .map(|e| (e.source().index(), e.target().index(), *e.weight()))
        .collect()
}

#[test]
fn the_root_alone_is_one_node_without_edges() {
    let graph = build(vec![control()]);
    assert_eq!(graph.node_count(), 1);
    assert_eq!(graph.graph_root(), 0);
    assert_eq!(graph.node(0), Some(SqlGraphNode { kind: SqlGraphKind::ExtensionRoot, position: 0 }));
    assert_eq!(graph.node(1), None);
    assert_eq!(edges(&graph), vec![]);
}

#[test]
fn nodes_follow_kind_by_kind() {
    let graph = build(vec![
        trigger("m", "t"),
        hash("m", "H", 1),
        func("m", "f", vec![], vec![used("u8", 77)], PgExternReturnEntity::Nothing),
        ty("m", "T", &[1]),
        en("m", "E", 2),
        schema("m", "s"),
        sql("q", false, false, vec![]),
        control(),
    ]);
    assert_eq!(graph.tables().extension_sqls[0].1, 1);
    assert_eq!(graph.tables().schemas[0].1, 2);
    assert_eq!(graph.tables().enums[0].1, 3);
    assert_eq!(graph.tables().types[0].1, 4);
    assert_eq!(graph.tables().externs[0].1, 5);
    assert_eq!(graph.tables().builtin_types[0], (s("u8"), 6));
    assert_eq!(graph.tables().hashes[0].1, 7);
    assert_eq!(graph.tables().triggers[0].1, 8);
    assert_eq!(graph.node_count(), 9);
    assert_eq!(graph.node(4), Some(SqlGraphNode { kind: SqlGraphKind::Type, position: 0 }));
    assert_eq!(graph.node(6), Some(SqlGraphNode { kind: SqlGraphKind::BuiltinType, position: 0 }));
}

#[test]
fn the_anchors_stand_first_and_last() {
    let graph = build(vec![
        control(),
        sql("first", true, false, vec![]),
        sql("last", false, true, vec![]),
        sql("between", false, false, vec![]),
        schema("m", "s"),
        ty("x", "T", &[1]),
    ]);
    // the fragments come by their paths: `between`, `first`, `last`
    let (between, first, last, s, t) = (1, 2, 3, 4, 5);
    assert_eq!(graph.graph_bootstrap(), Some(first));
    assert_eq!(graph.graph_finalize(), Some(last));
    assert_eq!(
        edges(&graph),
        vec![
            // any fragment: behind the root and the bootstrap, before the
            // finalize
            (0, between, RequiredBy),
            (first, between, RequiredBy),
            (between, last, RequiredBy),
            // the bootstrap: behind the root, before the finalize
            (0, first, RequiredBy),
            (first, last, RequiredBy),
            // the finalize: behind the root and the bootstrap
            (0, last, RequiredBy),
            (first, last, RequiredBy),
            // a schema is tied to the anchors, and to the root only later
            (first, s, RequiredBy),
            (s, last, RequiredBy),
            // a type
            (0, t, RequiredBy),
            (first, t, RequiredBy),
            (t, last, RequiredBy),
            // the edge phase: the schema behind the root, the fragments
            // behind the schema of their module
            (0, s, RequiredBy),
            (s, between, RequiredBy),
            (s, first, RequiredBy),
            (s, last, RequiredBy),
        ]
    );
    // the bootstrap is of the module of the schema: each of the two has to
    // come before the other
    let cycle = graph.linearize().expect_err("there is a cycle");
    assert!(cycle.node == first || cycle.node == s);
}

#[test]
fn a_function_is_wired_to_the_types_that_it_uses() {
    let graph = build(vec![
        control(),
        ty("m", "T", &[1, 11]),
        en("m", "E", 2),
        sql(
            "declares",
            false,
            false,
            vec![
                SqlDeclaredEntity::Type(SqlDeclaredEntityData { sql: s("json"), name: s("Json") }),
                SqlDeclaredEntity::Function(SqlDeclaredEntityData { sql: s("f"), name: s("u8") }),
            ],
        ),
        func(
            "m",
            "f",
            vec![],
            vec![used("m::T", 11), used("m::E", 2), used("Json", 3), used("u8", 4)],
            PgExternReturnEntity::SetOf { ty: used("u8", 4), optional: false },
        ),
    ]);
    let (q, e, t, f) = (1, 2, 3, 4);
    let (json, u8_) = (5, 6);
    assert_eq!(graph.tables().builtin_types, vec![(s("Json"), json), (s("u8"), u8_)]);
    assert_eq!(
        edges(&graph),
        vec![
            (0, q, RequiredBy),
            (0, e, RequiredBy),
            (0, t, RequiredBy),
            (0, f, RequiredBy),
            (t, f, RequiredByArg),
            (e, f, RequiredByArg),
            (json, f, RequiredByArg),
            (q, f, RequiredByArg),
            (u8_, f, RequiredByArg),
            (u8_, f, RequiredByReturn),
        ]
    );
}

#[test]
fn the_columns_of_a_returned_table_go_by_their_full_paths() {
    let graph = build(vec![
        control(),
        func(
            "m",
            "f",
            vec![],
            vec![],
            PgExternReturnEntity::Iterated {
                tys: vec![
                    PgExternReturnEntityIteratedItem { ty: used("a", 1), name: Some(s("x")) },
                    PgExternReturnEntityIteratedItem { ty: used("a", 1), name: None },
                ],
                optional: false,
            },
        ),
    ]);
    assert_eq!(graph.tables().builtin_types, vec![(s("a"), 2)]);
    assert_eq!(
        edges(&graph),
        vec![(0, 1, RequiredBy), (2, 1, RequiredByReturn), (2, 1, RequiredByReturn)]
    );
}

#[test]
fn an_argument_and_a_column_of_one_type_share_one_placeholder() {
    let mut column = used("a::B", 1);
    column.ty_source = s("B");
    let graph = build(vec![
        control(),
        func(
            "m",
            "f",
            vec![],
            vec![used("a::B", 1)],
            PgExternReturnEntity::Iterated {
                tys: vec![PgExternReturnEntityIteratedItem { ty: column, name: None }],
                optional: false,
            },
        ),
    ]);
    assert_eq!(graph.tables().builtin_types, vec![(s("a::B"), 2)]);
    assert_eq!(graph.node_count(), 3);
    assert_eq!(
        edges(&graph),
        vec![(0, 1, RequiredBy), (2, 1, RequiredByArg), (2, 1, RequiredByReturn)]
    );
}

#[test]
fn a_named_schema_takes_the_place_of_the_schema_of_the_module() {
    let graph = build(vec![
        control(),
        schema("m", "mine"),
        schema("other", "theirs"),
        schema("third", "theirs"),
        func("m", "f", vec![ExternArgs::Schema(s("theirs"))], vec![], PgExternReturnEntity::Nothing),
        func("m", "g", vec![], vec![], PgExternReturnEntity::Nothing),
    ]);
    assert_eq!(
        edges(&graph),
        vec![
            (0, 4, RequiredBy),
            (0, 5, RequiredBy),
            (0, 1, RequiredBy),
            (0, 2, RequiredBy),
            (0, 3, RequiredBy),
            (2, 4, RequiredBy),
            (3, 4, RequiredBy),
            (1, 5, RequiredBy),
        ]
    );
    assert_eq!(graph.schema_alias_of(4), Some(s("theirs")));
    assert_eq!(graph.schema_alias_of(5), Some(s("mine")));
}

#[test]
fn a_function_requires_what_its_attribute_lists() {
    let graph = build(vec![
        control(),
        ty("m", "T", &[1]),
        func(
            "m",
            "f",
            vec![
                ExternArgs::Immutable,
                ExternArgs::Requires(vec![
                    PositioningRef::FullPath(s("m::T")),
                    PositioningRef::FullPath(s("g")),
                ]),
            ],
            vec![],
            PgExternReturnEntity::Nothing,
        ),
        func("m", "g", vec![], vec![], PgExternReturnEntity::Trigger),
    ]);
    assert_eq!(
        edges(&graph),
        vec![
            (0, 1, RequiredBy),
            (0, 2, RequiredBy),
            (0, 3, RequiredBy),
            (1, 2, RequiredBy),
            (3, 2, RequiredBy),
        ]
    );
}

#[test]
fn an_equality_function_comes_before_the_hash_operator_class() {
    let graph = build(vec![
        control(),
        hash("m", "Animal", 1),
        func("m", "animal_eq", vec![], vec![], PgExternReturnEntity::Nothing),
        func("m", "animal_hash", vec![], vec![], PgExternReturnEntity::Nothing),
        func("m", "Animal_eq", vec![], vec![], PgExternReturnEntity::Nothing),
    ]);
    // capitals stand before small letters
    let (other, eq, hasher, h) = (1, 2, 3, 4);
    assert_eq!(
        edges(&graph),
        vec![
            (0, other, RequiredBy),
            (0, eq, RequiredBy),
            (0, hasher, RequiredBy),
            (0, h, RequiredBy),
            (eq, h, RequiredBy),
            (hasher, h, RequiredBy),
        ]
    );
}

#[test]
fn an_aggregate_is_wired_to_its_types_and_functions() {
    let mut a = aggregate("m", "Avg");
    a.args = vec![
        AggregateTypeEntity { used_ty: used("m::T", 1), name: None },
        AggregateTypeEntity { used_ty: used("i32", 9), name: None },
    ];
    a.direct_args = Some(vec![AggregateTypeEntity { used_ty: used("f64", 8), name: None }]);
    a.mstype = Some(used("i32", 9));
    a.finalfunc = Some(s("last"));
    a.ty_id = 1;
    let graph = build(vec![
        control(),
        ty("m", "T", &[1]),
        func("m", "state", vec![], vec![], PgExternReturnEntity::Nothing),
        func("m", "last", vec![], vec![], PgExternReturnEntity::Nothing),
        SqlGraphEntity::Aggregate(a),
    ]);
    // entities of one kind declared at one place come by their paths
    let (t, last, state, agg, i32_, f64_) = (1, 2, 3, 4, 5, 6);
    assert_eq!(graph.tables().builtin_types, vec![(s("i32"), i32_), (s("f64"), f64_)]);
    assert_eq!(
        edges(&graph),
        vec![
            (0, t, RequiredBy),
            (0, last, RequiredBy),
            (0, state, RequiredBy),
            (0, agg, RequiredBy),
            // the type that the aggregate is declared on
            (t, agg, RequiredBy),
            // its arguments, its direct arguments, its moving state
            (t, agg, RequiredBy),
            (i32_, agg, RequiredByArg),
            (f64_, agg, RequiredByArg),
            (i32_, agg, RequiredByArg),
            // its support functions
            (state, agg, RequiredBy),
            (last, agg, RequiredBy),
        ]
    );
}

#[test]
fn placeholders_that_come_in_are_dropped() {
    let graph = build(vec![control(), SqlGraphEntity::BuiltinType(s("i32"))]);
    assert_eq!(graph.node_count(), 1);
    assert!(graph.tables().builtin_types.is_empty());
}

#[test]
fn the_last_control_entity_counts() {
    let mut other = ControlFile {
        comment: s("another"),
        default_version: s("2.0"),
        module_pathname: None,
        relocatable: true,
        superuser: false,
        schema: None,
    };
    let graph = build(vec![control(), SqlGraphEntity::ExtensionRoot(other.clone())]);
    assert_eq!(graph.control(), &other);
    other.relocatable = false;
    assert!(graph.control() != &other);
}
