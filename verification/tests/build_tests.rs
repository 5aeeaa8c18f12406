use sql_entity_graph::entity::{
    ControlFile, ExtensionSqlEntity, ExternArgs, PgAggregateEntity, PgExternArgumentEntity,
    PgExternEntity, PgExternReturnEntity, PositioningRef, PostgresEnumEntity, PostgresHashEntity,
    PostgresOrdEntity, PostgresTypeEntity, RustSqlMapping, RustToSqlMapping, SchemaEntity,
    SqlGraphEntity, UsedTypeEntity, AggregateTypeEntity,
};
use sql_entity_graph::error::BuildError;
use sql_entity_graph::graph::{SqlGraphKind, SqlGraphNode};
use sql_entity_graph::pgx_sql::PgxSql;

fn control() -> SqlGraphEntity {
    SqlGraphEntity::ExtensionRoot(ControlFile {
        comment: "an extension".to_string(),
        default_version: "1.0".to_string(),
        module_pathname: None,
        relocatable: false,
        superuser: false,
        schema: None,
    })
}

fn schema(module: &str, name: &str) -> SqlGraphEntity {
    SqlGraphEntity::Schema(SchemaEntity {
        module: module.to_string(),
        name: name.to_string(),
        file: "src/lib.rs".to_string(),
        line: 1,
    })
}

fn ty(module: &str, name: &str, id: u64) -> SqlGraphEntity {
    SqlGraphEntity::Type(PostgresTypeEntity {
        name: name.to_string(),
        file: "src/lib.rs".to_string(),
        line: 2,
        full_path: format!("{}::{}", module, name),
        module: module.to_string(),
        mappings: vec![RustSqlMapping {
            rust: name.to_string(),
            sql: name.to_lowercase(),
            id,
        }],
        in_fn: format!("{}_in", name.to_lowercase()),
        in_fn_module: module.to_string(),
        out_fn: format!("{}_out", name.to_lowercase()),
        out_fn_module: module.to_string(),
    })
}

fn en(module: &str, name: &str, id: u64) -> SqlGraphEntity {
    SqlGraphEntity::Enum(PostgresEnumEntity {
        name: name.to_string(),
        file: "src/lib.rs".to_string(),
        line: 3,
        full_path: format!("{}::{}", module, name),
        module: module.to_string(),
        mappings: vec![RustSqlMapping {
            rust: name.to_string(),
            sql: name.to_lowercase(),
            id,
        }],
        variants: vec!["A".to_string(), "B".to_string()],
    })
}

fn used(path: &str, id: u64) -> UsedTypeEntity {
    UsedTypeEntity {
        ty_source: path.to_string(),
        ty_id: id,
        full_path: path.to_string(),
        module: "".to_string(),
        optional: false,
        variadic: false,
        default: None,
    }
}

fn func(
    module: &str,
    name: &str,
    attrs: Vec<ExternArgs>,
    args: Vec<UsedTypeEntity>,
    returned: PgExternReturnEntity,
) -> SqlGraphEntity {
    SqlGraphEntity::Function(PgExternEntity {
        name: name.to_string(),
        unaliased_name: name.to_string(),
        module: module.to_string(),
        full_path: format!("{}::{}", module, name),
        file: "src/lib.rs".to_string(),
        line: 4,
        extern_attrs: attrs,
        search_path: None,
        fn_args: args
            .into_iter()
            .map(|used_ty| PgExternArgumentEntity { pattern: "x".to_string(), used_ty })
            .collect(),
        fn_return: returned,
    })
}

fn sql(
    module: &str,
    name: &str,
    bootstrap: bool,
    finalize: bool,
    requires: Vec<PositioningRef>,
) -> SqlGraphEntity {
    SqlGraphEntity::CustomSql(ExtensionSqlEntity {
        module: module.to_string(),
        full_path: format!("{}::{}", module, name),
        sql: "SELECT 1;".to_string(),
        file: "src/lib.rs".to_string(),
        line: 5,
        name: name.to_string(),
        bootstrap,
        finalize,
        requires,
        creates: vec![],
    })
}

fn ord(module: &str, name: &str, id: u64) -> SqlGraphEntity {
    SqlGraphEntity::Ord(PostgresOrdEntity {
        name: name.to_string(),
        file: "src/lib.rs".to_string(),
        line: 6,
        full_path: format!("{}::{}", module, name),
        module: module.to_string(),
        id,
    })
}

fn hash(module: &str, name: &str, id: u64) -> SqlGraphEntity {
    SqlGraphEntity::Hash(PostgresHashEntity {
        name: name.to_string(),
        file: "src/lib.rs".to_string(),
        line: 7,
        full_path: format!("{}::{}", module, name),
        module: module.to_string(),
        id,
    })
}

fn aggregate(module: &str, name: &str, id: u64, sfunc: &str, args: Vec<UsedTypeEntity>) -> SqlGraphEntity {
    SqlGraphEntity::Aggregate(PgAggregateEntity {
        full_path: format!("{}::{}", module, name),
        module: module.to_string(),
        file: "src/lib.rs".to_string(),
        line: 8,
        ty_id: id,
        name: name.to_string(),
        ordered_set: false,
        args: args.into_iter().map(|used_ty| AggregateTypeEntity { used_ty, name: None }).collect(),
        direct_args: None,
        stype: AggregateTypeEntity { used_ty: used("i32", 900), name: None },
        sfunc: sfunc.to_string(),
        finalfunc: None,
        combinefunc: None,
        serialfunc: None,
        deserialfunc: None,
        initcond: None,
        msfunc: None,
        minvfunc: None,
        mstype: None,
        mfinalfunc: None,
        minitcond: None,
        sortop: None,
        hypothetical: false,
    })
}

fn build(entities: Vec<SqlGraphEntity>) -> Result<PgxSql, BuildError> {
    PgxSql::build(
        RustToSqlMapping { rust_source_to_sql: vec![] },
        entities,
        "ext".to_string(),
        false,
    )
}

fn position(order: &[usize], node: usize) -> usize {
    order.iter().position(|n| *n == node).expect("every node is in the order")
}

fn edges_between(graph: &PgxSql, a: usize, b: usize) -> usize {
    graph.graph().edges_connecting(a.into(), b.into()).count()
}

#[test]
fn schema_type_and_function_come_in_this_order() {
    let graph = build(vec![
        func(
            "s",
            "f",
            vec![ExternArgs::Requires(vec![])],
            vec![used("s::T", 1)],
            PgExternReturnEntity::Type { ty: used("s::T", 1) },
        ),
        ty("s", "T", 1),
        schema("s", "s"),
        control(),
    ])
    .expect("the build succeeds");
    let order = graph.linearize().expect("there is no cycle");
    assert_eq!(order.len(), 4);
    let s = graph.tables().schemas[0].1;
    let t = graph.tables().types[0].1;
    let f = graph.tables().externs[0].1;
    assert!(position(&order, graph.graph_root()) < position(&order, s));
    assert!(position(&order, s) < position(&order, t));
    assert!(position(&order, t) < position(&order, f));
    assert!(position(&order, s) < position(&order, f));
    // the type is required both as argument and as what is returned
    assert_eq!(edges_between(&graph, t, f), 2);
    assert!(graph.tables().builtin_types.is_empty());
}

#[test]
fn two_bootstraps_are_refused() {
    let r = build(vec![
        control(),
        sql("m", "one", true, false, vec![]),
        sql("m", "two", true, false, vec![]),
    ]);
    assert_eq!(
        r.err(),
        Some(BuildError::MultipleBootstrap {
            found: "m::two".to_string(),
            other: "m::one".to_string(),
        })
    );
}

#[test]
fn two_finalizes_are_refused() {
    let r = build(vec![
        control(),
        sql("m", "one", false, true, vec![]),
        sql("m", "two", false, false, vec![]),
        sql("m", "three", false, true, vec![]),
    ]);
    assert_eq!(
        r.err(),
        Some(BuildError::MultipleFinalize {
            found: "m::three".to_string(),
            other: "m::one".to_string(),
        })
    );
}

#[test]
fn without_anchors_every_edge_of_a_lone_type_comes_from_the_root() {
    let graph = build(vec![control(), ty("m", "T", 1)]).expect("the build succeeds");
    assert_eq!(graph.graph_bootstrap(), None);
    assert_eq!(graph.graph_finalize(), None);
    assert_eq!(graph.graph().edge_count(), 1);
    assert_eq!(edges_between(&graph, graph.graph_root(), graph.tables().types[0].1), 1);
}

#[test]
fn a_missing_control_entity_is_refused() {
    let r = build(vec![ty("m", "T", 1)]);
    assert_eq!(r.err(), Some(BuildError::MissingControlFile));
}

#[test]
fn two_functions_share_one_placeholder() {
    let graph = build(vec![
        control(),
        func("m", "f", vec![], vec![used("core::i32", 7)], PgExternReturnEntity::Nothing),
        func("m", "g", vec![], vec![used("core::i32", 7)], PgExternReturnEntity::Nothing),
    ])
    .expect("the build succeeds");
    assert_eq!(graph.tables().builtin_types.len(), 1);
    let placeholder = graph.tables().builtin_types[0].1;
    assert_eq!(graph.tables().builtin_types[0].0, "core::i32");
    assert_eq!(
        graph.node(placeholder),
        Some(SqlGraphNode { kind: SqlGraphKind::BuiltinType, position: 0 })
    );
    assert_eq!(graph.node_count(), 4);
    assert_eq!(edges_between(&graph, placeholder, graph.tables().externs[0].1), 1);
    assert_eq!(edges_between(&graph, placeholder, graph.tables().externs[1].1), 1);
}

#[test]
fn a_path_names_the_type_before_the_enum_and_the_function() {
    let graph = build(vec![
        control(),
        func("a::m", "thing", vec![], vec![], PgExternReturnEntity::Nothing),
        en("a::m", "thing", 2),
        ty("a::m", "thing", 1),
        sql("x", "late", false, false, vec![PositioningRef::FullPath("m::thing".to_string())]),
    ])
    .expect("the build succeeds");
    let late = graph.tables().extension_sqls[0].1;
    assert_eq!(edges_between(&graph, graph.tables().types[0].1, late), 1);
    assert_eq!(edges_between(&graph, graph.tables().enums[0].1, late), 0);
    assert_eq!(edges_between(&graph, graph.tables().externs[0].1, late), 0);
}

#[test]
fn an_aggregate_without_its_state_function_is_refused() {
    let r = build(vec![control(), aggregate("m", "Sum", 5, "sum_state", vec![used("i32", 9)])]);
    assert_eq!(
        r.err(),
        Some(BuildError::FunctionNotFound {
            entity: "m::Sum".to_string(),
            module: "m".to_string(),
            function: "sum_state".to_string(),
        })
    );
}

#[test]
fn an_aggregate_comes_after_its_state_function() {
    let graph = build(vec![
        control(),
        aggregate("m", "Sum", 5, "sum_state", vec![used("i32", 9)]),
        func("m", "sum_state", vec![], vec![], PgExternReturnEntity::Nothing),
    ])
    .expect("the build succeeds");
    let order = graph.linearize().expect("there is no cycle");
    let a = graph.tables().aggregates[0].1;
    let f = graph.tables().externs[0].1;
    assert!(position(&order, f) < position(&order, a));
    // the argument of the aggregate is of a type that nothing declares
    assert_eq!(graph.tables().builtin_types.len(), 1);
    assert_eq!(edges_between(&graph, graph.tables().builtin_types[0].1, a), 1);
}

#[test]
fn an_operator_class_without_its_functions_is_no_failure() {
    let graph = build(vec![control(), ty("m", "Animal", 1), ord("m", "Animal", 1)])
        .expect("the build succeeds");
    let o = graph.tables().ords[0].1;
    let t = graph.tables().types[0].1;
    assert_eq!(edges_between(&graph, t, o), 1);
    assert_eq!(edges_between(&graph, graph.graph_root(), o), 1);
    assert_eq!(graph.graph().edge_count(), 3);
}

#[test]
fn an_operator_class_comes_after_the_functions_that_compare_for_it() {
    let graph = build(vec![
        control(),
        ty("m", "Animal", 1),
        ord("m", "Animal", 1),
        func("m", "animal_lt", vec![], vec![], PgExternReturnEntity::Nothing),
        func("m", "animal_cmp", vec![], vec![], PgExternReturnEntity::Nothing),
        func("m", "animal_hash", vec![], vec![], PgExternReturnEntity::Nothing),
        func("other", "animal_eq", vec![], vec![], PgExternReturnEntity::Nothing),
        hash("m", "Animal", 1),
    ])
    .expect("the build succeeds");
    let o = graph.tables().ords[0].1;
    let h = graph.tables().hashes[0].1;
    let node_of = |path: &str| {
        let found = graph.tables().externs.iter().find(|f| f.0.full_path == path);
        found.expect("the function is in the table").1
    };
    assert_eq!(edges_between(&graph, node_of("m::animal_lt"), o), 1);
    assert_eq!(edges_between(&graph, node_of("m::animal_cmp"), o), 1);
    assert_eq!(edges_between(&graph, node_of("m::animal_hash"), o), 0);
    assert_eq!(edges_between(&graph, node_of("other::animal_eq"), o), 0);
    assert_eq!(edges_between(&graph, node_of("m::animal_hash"), h), 1);
}

#[test]
fn mutual_requirements_are_a_cycle() {
    let graph = build(vec![
        control(),
        sql("m", "one", false, false, vec![PositioningRef::Name("two".to_string())]),
        sql("m", "two", false, false, vec![PositioningRef::Name("one".to_string())]),
    ])
    .expect("the build succeeds");
    let e = graph.linearize().expect_err("there is a cycle");
    let one = graph.tables().extension_sqls[0].1;
    let two = graph.tables().extension_sqls[1].1;
    assert!(e.node == one || e.node == two);
}

#[test]
fn a_required_reference_that_names_nothing_is_refused() {
    let r = build(vec![
        control(),
        sql("m", "one", false, false, vec![PositioningRef::Name("nothing".to_string())]),
    ]);
    assert_eq!(
        r.err(),
        Some(BuildError::RequiresNotFound {
            entity: "m::one".to_string(),
            file: "src/lib.rs".to_string(),
            line: 5,
            reference: PositioningRef::Name("nothing".to_string()),
        })
    );
}

#[test]
fn a_named_schema_that_is_not_there_is_refused() {
    let r = build(vec![
        control(),
        func(
            "m",
            "f",
            vec![ExternArgs::Schema("elsewhere".to_string())],
            vec![],
            PgExternReturnEntity::Nothing,
        ),
    ]);
    assert_eq!(
        r.err(),
        Some(BuildError::SchemaNotFound {
            entity: "m::f".to_string(),
            schema: "elsewhere".to_string(),
        })
    );
}

#[test]
fn the_schema_of_a_node_is_that_of_its_module() {
    let graph = build(vec![control(), schema("m", "animals"), ty("m", "T", 1), ty("n", "U", 2)])
        .expect("the build succeeds");
    assert_eq!(graph.schema_alias_of(graph.tables().types[0].1), Some("animals".to_string()));
    assert_eq!(graph.schema_prefix_for(graph.tables().types[0].1), "animals.");
    assert_eq!(graph.schema_alias_of(graph.tables().types[1].1), None);
    assert_eq!(graph.schema_prefix_for(graph.tables().types[1].1), "");
}

#[test]
fn without_a_control_entity_two_bootstraps_fail_for_its_absence() {
    let r = build(vec![sql("m", "one", true, false, vec![]), sql("m", "two", true, false, vec![])]);
    assert_eq!(r.err(), Some(BuildError::MissingControlFile));
}

#[test]
fn an_anchor_clash_comes_before_any_missing_requirement() {
    let r = build(vec![
        control(),
        sql("m", "a", false, true, vec![PositioningRef::Name("nothing".to_string())]),
        sql("m", "b", false, true, vec![]),
    ]);
    assert_eq!(
        r.err(),
        Some(BuildError::MultipleFinalize {
            found: "m::b".to_string(),
            other: "m::a".to_string(),
        })
    );
}

#[test]
fn a_named_schema_that_is_not_there_is_refused_after_one_that_is() {
    let r = build(vec![
        control(),
        schema("elsewhere", "a"),
        func(
            "m",
            "f",
            vec![ExternArgs::Schema("a".to_string()), ExternArgs::Schema("b".to_string())],
            vec![],
            PgExternReturnEntity::Nothing,
        ),
    ]);
    assert_eq!(
        r.err(),
        Some(BuildError::SchemaNotFound { entity: "m::f".to_string(), schema: "b".to_string() })
    );
}

#[test]
fn a_named_schema_that_is_not_there_is_refused_though_the_module_has_a_schema() {
    let r = build(vec![
        control(),
        schema("m", "mine"),
        func(
            "m",
            "f",
            vec![ExternArgs::Schema("b".to_string())],
            vec![],
            PgExternReturnEntity::Nothing,
        ),
    ]);
    assert_eq!(
        r.err(),
        Some(BuildError::SchemaNotFound { entity: "m::f".to_string(), schema: "b".to_string() })
    );
}

#[test]
fn no_edge_leads_to_the_root() {
    let graph = build(vec![
        control(),
        schema("s", "s"),
        ty("s", "T", 1),
        en("s", "E", 2),
        ord("s", "T", 1),
        hash("s", "T", 1),
        sql("s", "first", true, false, vec![]),
        sql("s", "last", false, true, vec![PositioningRef::Name("first".to_string())]),
        func(
            "s",
            "f",
            vec![ExternArgs::Schema("s".to_string())],
            vec![used("s::T", 1), used("i64", 7)],
            PgExternReturnEntity::Type { ty: used("s::E", 2) },
        ),
        aggregate("s", "Sum", 5, "f", vec![used("s::T", 1)]),
    ])
    .expect("the build succeeds");
    let root = graph.graph_root();
    assert_eq!(root, 0);
    let nodes = graph.graph().node_count();
    assert_eq!(nodes, 11);
    for node in 0..nodes {
        assert_eq!(edges_between(&graph, node, root), 0);
    }
    assert!(edges_between(&graph, root, graph.tables().schemas[0].1) > 0);
}
