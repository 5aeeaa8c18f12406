//! Entities in buckets by kind.

use crate::entity::{
    ControlFile, ExtensionSqlEntity, PgAggregateEntity, PgExternEntity, PgTriggerEntity,
    PostgresEnumEntity, PostgresHashEntity, PostgresOrdEntity, PostgresTypeEntity, SchemaEntity,
    SqlGraphEntity,
};
use vstd::prelude::*;

verus! {

/// The entities of a build by kind, in the order in which they were handed
/// over.
pub struct EntityBuckets {
    pub control: Option<ControlFile>,
    pub schemas: Vec<SchemaEntity>,
    pub extension_sqls: Vec<ExtensionSqlEntity>,
    pub externs: Vec<PgExternEntity>,
    pub types: Vec<PostgresTypeEntity>,
    pub enums: Vec<PostgresEnumEntity>,
    pub ords: Vec<PostgresOrdEntity>,
    pub hashes: Vec<PostgresHashEntity>,
    pub aggregates: Vec<PgAggregateEntity>,
    pub triggers: Vec<PgTriggerEntity>,
}

/// The buckets as sequences.
pub struct Classified {
    pub control: Option<ControlFile>,
    pub schemas: Seq<SchemaEntity>,
    pub extension_sqls: Seq<ExtensionSqlEntity>,
    pub externs: Seq<PgExternEntity>,
    pub types: Seq<PostgresTypeEntity>,
    pub enums: Seq<PostgresEnumEntity>,
    pub ords: Seq<PostgresOrdEntity>,
    pub hashes: Seq<PostgresHashEntity>,
    pub aggregates: Seq<PgAggregateEntity>,
    pub triggers: Seq<PgTriggerEntity>,
}

impl View for EntityBuckets {
    type V = Classified;

    open spec fn view(&self) -> Classified {
        Classified {
            control: self.control,
            schemas: self.schemas@,
            extension_sqls: self.extension_sqls@,
            externs: self.externs@,
            types: self.types@,
            enums: self.enums@,
            ords: self.ords@,
            hashes: self.hashes@,
            aggregates: self.aggregates@,
            triggers: self.triggers@,
        }
    }
}

/// The buckets once one more entity is put in: an entity joins the end of
/// the bucket of its kind; a control entity takes the place of the one
/// before it; a placeholder is dropped.
pub open spec fn put_in(c: Classified, entity: SqlGraphEntity) -> Classified {
    match entity {
        SqlGraphEntity::ExtensionRoot(control) => Classified { control: Some(control), ..c },
        SqlGraphEntity::Schema(item) => Classified { schemas: c.schemas.push(item), ..c },
        SqlGraphEntity::CustomSql(item) => Classified {
            extension_sqls: c.extension_sqls.push(item),
            ..c
        },
        SqlGraphEntity::Function(item) => Classified { externs: c.externs.push(item), ..c },
        SqlGraphEntity::Type(item) => Classified { types: c.types.push(item), ..c },
        SqlGraphEntity::BuiltinType(_) => c,
        SqlGraphEntity::Enum(item) => Classified { enums: c.enums.push(item), ..c },
        SqlGraphEntity::Ord(item) => Classified { ords: c.ords.push(item), ..c },
        SqlGraphEntity::Hash(item) => Classified { hashes: c.hashes.push(item), ..c },
        SqlGraphEntity::Aggregate(item) => Classified {
            aggregates: c.aggregates.push(item),
            ..c
        },
        SqlGraphEntity::Trigger(item) => Classified { triggers: c.triggers.push(item), ..c },
    }
}

/// Buckets with nothing in them.
pub open spec fn no_entities() -> Classified {
    Classified {
        control: None,
        schemas: Seq::empty(),
        extension_sqls: Seq::empty(),
        externs: Seq::empty(),
        types: Seq::empty(),
        enums: Seq::empty(),
        ords: Seq::empty(),
        hashes: Seq::empty(),
        aggregates: Seq::empty(),
        triggers: Seq::empty(),
    }
}

/// The buckets of the first `n` entities.
pub open spec fn classified_upto(entities: Seq<SqlGraphEntity>, n: int) -> Classified
    decreases n,
{
    if n <= 0 {
        no_entities()
    } else {
        put_in(classified_upto(entities, n - 1), entities[n - 1])
    }
}

/// The buckets of all the entities.
pub open spec fn classified(entities: Seq<SqlGraphEntity>) -> Classified {
    classified_upto(entities, entities.len() as int)
}

/// Puts the entities into buckets by kind, each bucket in the order of the
/// entities.
pub fn classify(entities: Vec<SqlGraphEntity>) -> (buckets: EntityBuckets)
    ensures
        buckets@ == classified(entities@),
{
    let mut buckets = EntityBuckets {
        control: None,
        schemas: Vec::new(),
        extension_sqls: Vec::new(),
        externs: Vec::new(),
        types: Vec::new(),
        enums: Vec::new(),
        ords: Vec::new(),
        hashes: Vec::new(),
        aggregates: Vec::new(),
        triggers: Vec::new(),
    };
    for entity in it: entities
        invariant
            it.seq() == entities@,
            buckets@ == classified_upto(entities@, it.index() as int),
    {
        match entity {
            SqlGraphEntity::ExtensionRoot(control) => {
                buckets.control = Some(control);
            },
            SqlGraphEntity::Schema(item) => {
                buckets.schemas.push(item);
            },
            SqlGraphEntity::CustomSql(item) => {
                buckets.extension_sqls.push(item);
            },
            SqlGraphEntity::Function(item) => {
                buckets.externs.push(item);
            },
            SqlGraphEntity::Type(item) => {
                buckets.types.push(item);
            },
            SqlGraphEntity::BuiltinType(_) => {},
            SqlGraphEntity::Enum(item) => {
                buckets.enums.push(item);
            },
            SqlGraphEntity::Ord(item) => {
                buckets.ords.push(item);
            },
            SqlGraphEntity::Hash(item) => {
                buckets.hashes.push(item);
            },
            SqlGraphEntity::Aggregate(item) => {
                buckets.aggregates.push(item);
            },
            SqlGraphEntity::Trigger(item) => {
                buckets.triggers.push(item);
            },
        }
    }
    buckets
}

} // verus!
