use sql_entity_graph::entity::PositioningRef;
use sql_entity_graph::error::{decimal, show_reference, BuildError};

fn s(text: &str) -> String {
    text.to_string()
}

#[test]
fn numbers_are_written_in_decimal() {
    assert_eq!(decimal(0), "0");
    assert_eq!(decimal(7), "7");
    assert_eq!(decimal(10), "10");
    assert_eq!(decimal(4096), "4096");
    assert_eq!(decimal(u32::MAX), "4294967295");
}

#[test]
fn a_path_is_shown_as_it_is_and_a_name_in_quotes() {
    assert_eq!(show_reference(&PositioningRef::FullPath(s("a::b"))), "a::b");
    assert_eq!(show_reference(&PositioningRef::Name(s("setup"))), "\"setup\"");
}

#[test]
fn every_failure_says_what_is_wrong() {
    assert_eq!(BuildError::MissingControlFile.message(), "No control file found");
    assert_eq!(
        BuildError::MultipleBootstrap { found: s("m::two"), other: s("m::one") }.message(),
        "Cannot have multiple `extension_sql!()` with `bootstrap` positioning, found `m::two`, other was `m::one`"
    );
    assert_eq!(
        BuildError::MultipleFinalize { found: s("m::two"), other: s("m::one") }.message(),
        "Cannot have multiple `extension_sql!()` with `finalize` positioning, found `m::two`, other was `m::one`"
    );
    assert_eq!(
        BuildError::RequiresNotFound {
            entity: s("m::late"),
            file: s("src/lib.rs"),
            line: 120,
            reference: PositioningRef::Name(s("early")),
        }
        .message(),
        "Could not find `requires` target of `m::late` (src/lib.rs:120): \"early\""
    );
    assert_eq!(
        BuildError::RequiresNotFound {
            entity: s("m::late"),
            file: s("src/lib.rs"),
            line: 3,
            reference: PositioningRef::FullPath(s("m::early")),
        }
        .message(),
        "Could not find `requires` target of `m::late` (src/lib.rs:3): m::early"
    );
    assert_eq!(
        BuildError::SchemaNotFound { entity: s("m::f"), schema: s("elsewhere") }.message(),
        "Got manual `schema = \"elsewhere\"` setting on `m::f`, but that schema did not exist."
    );
    assert_eq!(
        BuildError::FunctionNotFound { entity: s("m::Sum"), module: s("m"), function: s("state") }
            .message(),
        "Did not find connection `m::state` of `m::Sum`"
    );
}
