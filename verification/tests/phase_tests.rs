use petgraph::visit::{EdgeRef, IntoEdgeReferences};
use sql_entity_graph::classify::classify;
use sql_entity_graph::entity::{
    AggregateTypeEntity, ControlFile, PgAggregateEntity, PgExternArgumentEntity, PgExternEntity,
    PgExternReturnEntity, PostgresTypeEntity, RustSqlMapping, SchemaEntity, SqlGraphEntity,
    UsedTypeEntity,
};
use sql_entity_graph::graph::{SqlGraphKind, SqlGraphRelationship};
use sql_entity_graph::phases::{connect_phase, node_phase};
use sql_entity_graph::sorting::{arrange, declared_before, sort_by_place};

fn s(text: &str) -> String {
    text.to_string()
}

fn control() -> SqlGraphEntity {
    SqlGraphEntity::ExtensionRoot(ControlFile {
        comment: s("an extension"),
        default_version: s("1.0"),
        module_pathname: None,
        relocatable: false,
        superuser: false,
        schema: None,
    })
}

fn schema_at(name: &str, file: &str, line: u32) -> SchemaEntity {
    SchemaEntity { module: s("m"), name: s(name), file: s(file), line }
}

fn used(path: &str, id: u64) -> UsedTypeEntity {
    UsedTypeEntity {
        ty_source: s(path),
        ty_id: id,
        full_path: s(path),
        module: s(""),
        optional: false,
        variadic: false,
        default: None,
    }
}

fn ty(name: &str, id: u64) -> SqlGraphEntity {
    SqlGraphEntity::Type(PostgresTypeEntity {
        name: s(name),
        file: s("a.rs"),
        line: 2,
        full_path: format!("m::{}", name),
        module: s("m"),
        mappings: vec![RustSqlMapping { rust: s(name), sql: s(name), id }],
        in_fn: s("in"),
        in_fn_module: s("m"),
        out_fn: s("out"),
        out_fn_module: s("m"),
    })
}

fn func(name: &str, args: Vec<UsedTypeEntity>, returned: PgExternReturnEntity) -> SqlGraphEntity {
    SqlGraphEntity::Function(PgExternEntity {
        name: s(name),
        unaliased_name: s(name),
        module: s("m"),
        full_path: format!("m::{}", name),
        file: s("a.rs"),
        line: 4,
        extern_attrs: vec![],
        search_path: None,
        fn_args: args
            .into_iter()
            .map(|used_ty| PgExternArgumentEntity { pattern: s("x"), used_ty })
            .collect(),
        fn_return: returned,
    })
}

fn aggregate(name: &str, args: Vec<UsedTypeEntity>, mstype: Option<UsedTypeEntity>) -> SqlGraphEntity {
    SqlGraphEntity::Aggregate(PgAggregateEntity {
        full_path: format!("m::{}", name),
        module: s("m"),
        file: s("a.rs"),
        line: 8,
        ty_id: 500,
        name: s(name),
        ordered_set: false,
        args: args.into_iter().map(|used_ty| AggregateTypeEntity { used_ty, name: None }).collect(),
        direct_args: Some(vec![AggregateTypeEntity { used_ty: used("direct", 31), name: None }]),
        stype: AggregateTypeEntity { used_ty: used("i32", 900), name: None },
        sfunc: s("f"),
        finalfunc: None,
        combinefunc: None,
        serialfunc: None,
        deserialfunc: None,
        initcond: None,
        msfunc: None,
        minvfunc: None,
        mstype,
        mfinalfunc: None,
        minitcond: None,
        sortop: None,
        hypothetical: false,
    })
}

#[test]
fn every_placeholder_is_there_before_any_entity_is_connected() {
    let buckets = arrange(classify(vec![
        control(),
        ty("T", 1),
        func(
            "f",
            vec![used("m::T", 1), used("i64", 2), used("i64", 2)],
            PgExternReturnEntity::Type { ty: used("bool", 3) },
        ),
        aggregate("a", vec![used("i64", 2), used("text", 4)], Some(used("moving", 5))),
    ]));
    let mut phase = node_phase(buckets).expect("the anchors do not clash");
    let placeholders: Vec<&str> =
        phase.tables.builtin_types.iter().map(|p| p.0.as_str()).collect();
    assert_eq!(placeholders, vec!["i64", "bool", "text", "direct", "moving"]);
    for (_, node) in &phase.tables.builtin_types {
        assert_eq!(
            phase.graph.node_weight((*node).into()).map(|n| n.kind),
            Some(SqlGraphKind::BuiltinType)
        );
    }
    // so far every edge leads from the root
    assert!(phase.graph.edge_references().all(|e| e.source().index() == 0));
    assert_eq!(phase.graph.edge_count(), 3);
    connect_phase(&mut phase.graph, &phase.tables, 0).expect("everything required is there");
    let f = phase.tables.externs[0].1;
    let a = phase.tables.aggregates[0].1;
    for (path, from, to) in [
        ("i64", 0, f),
        ("bool", 1, f),
        ("i64", 0, a),
        ("text", 2, a),
        ("direct", 3, a),
        ("moving", 4, a),
    ] {
        let node = phase.tables.builtin_types[from].1;
        assert_eq!(phase.tables.builtin_types[from].0, path);
        assert!(phase.graph.edges_connecting(node.into(), to.into()).count() >= 1);
    }
    // no placeholder is behind the root
    for (_, node) in &phase.tables.builtin_types {
        assert_eq!(phase.graph.edges_connecting(0.into(), (*node).into()).count(), 0);
    }
    let by_return: Vec<usize> = phase
        .graph
        .edge_references()
        .filter(|e| *e.weight() == SqlGraphRelationship::RequiredByReturn)
        .map(|e| e.source().index())
        .collect();
    assert_eq!(by_return, vec![phase.tables.builtin_types[1].1]);
}

#[test]
fn sorting_goes_by_file_then_line_then_name_and_keeps_ties_as_they_came() {
    let mut first = schema_at("d", "src/b.rs", 7);
    first.module = s("first");
    let mut second = schema_at("d", "src/b.rs", 7);
    second.module = s("second");
    let sorted = sort_by_place(vec![
        schema_at("e", "src/z.rs", 1),
        first,
        schema_at("c", "src/b.rs", 7),
        schema_at("a2", "src/a.rs", 30),
        second,
        schema_at("b", "src/b.rs", 2),
        schema_at("a", "src/a.rs", 30),
    ]);
    let names: Vec<(&str, &str)> =
        sorted.iter().map(|x| (x.name.as_str(), x.module.as_str())).collect();
    assert_eq!(
        names,
        vec![
            ("a", "m"),
            ("a2", "m"),
            ("b", "m"),
            ("c", "m"),
            ("d", "first"),
            ("d", "second"),
            ("e", "m")
        ]
    );
    assert!(sort_by_place::<SchemaEntity>(vec![]).is_empty());
}

#[test]
fn one_place_is_before_another_by_file_then_line_then_name() {
    assert!(declared_before(&schema_at("x", "a.rs", 9), &schema_at("y", "b.rs", 1)));
    assert!(declared_before(&schema_at("y", "a.rs", 1), &schema_at("x", "a.rs", 2)));
    assert!(declared_before(&schema_at("x", "a.rs", 2), &schema_at("y", "a.rs", 2)));
    assert!(!declared_before(&schema_at("y", "a.rs", 2), &schema_at("x", "a.rs", 2)));
    assert!(!declared_before(&schema_at("x", "a.rs", 2), &schema_at("x", "a.rs", 2)));
    assert!(!declared_before(&schema_at("x", "b.rs", 1), &schema_at("y", "a.rs", 2)));
    assert!(!declared_before(&schema_at("x", "a.rs", 3), &schema_at("y", "a.rs", 2)));
}
