//! The entities that a graph is built from.

use vstd::prelude::*;

verus! {

/// The control data of the extension: the root of every graph.
#[derive(Debug, Clone, PartialEq, Eq, Hash)]
pub struct ControlFile {
    pub comment: String,
    pub default_version: String,
    pub module_pathname: Option<String>,
    pub relocatable: bool,
    pub superuser: bool,
    pub schema: Option<String>,
}

/// A schema, declared by a module.
#[derive(Debug, Clone, PartialEq, Eq, Hash)]
pub struct SchemaEntity {
    pub module: String,
    pub name: String,
    pub file: String,
    pub line: u32,
}

/// A weak reference to another entity: by path, or by the name of an SQL
/// fragment.
#[derive(Debug, Clone, PartialEq, Eq, Hash)]
pub enum PositioningRef {
    FullPath(String),
    Name(String),
}

/// The identifier of something that an SQL fragment declares.
#[derive(Debug, Clone, PartialEq, Eq, Hash)]
pub enum SqlDeclared {
    Type(String),
    Enum(String),
    Function(String),
}

/// What is known of something that an SQL fragment declares.
#[derive(Debug, Clone, PartialEq, Eq, Hash)]
pub struct SqlDeclaredEntityData {
    pub sql: String,
    pub name: String,
}

/// Something that an SQL fragment declares.
#[derive(Debug, Clone, PartialEq, Eq, Hash)]
pub enum SqlDeclaredEntity {
    Type(SqlDeclaredEntityData),
    Enum(SqlDeclaredEntityData),
    Function(SqlDeclaredEntityData),
}

/// A free-form SQL fragment.
#[derive(Debug, Clone, PartialEq, Eq, Hash)]
pub struct ExtensionSqlEntity {
    pub module: String,
    pub full_path: String,
    pub sql: String,
    pub file: String,
    pub line: u32,
    pub name: String,
    pub bootstrap: bool,
    pub finalize: bool,
    pub requires: Vec<PositioningRef>,
    pub creates: Vec<SqlDeclaredEntity>,
}

/// A type as a function or an aggregate uses it.
#[derive(Debug, Clone, PartialEq, Eq, Hash)]
pub struct UsedTypeEntity {
    pub ty_source: String,
    pub ty_id: u64,
    pub full_path: String,
    pub module: String,
    pub optional: bool,
    pub variadic: bool,
    pub default: Option<String>,
}

/// An argument of a function.
#[derive(Debug, Clone, PartialEq, Eq, Hash)]
pub struct PgExternArgumentEntity {
    pub pattern: String,
    pub used_ty: UsedTypeEntity,
}

/// One column of what a table function returns.
#[derive(Debug, Clone, PartialEq, Eq, Hash)]
pub struct PgExternReturnEntityIteratedItem {
    pub ty: UsedTypeEntity,
    pub name: Option<String>,
}

/// What a function returns.
#[derive(Debug, Clone, PartialEq, Eq, Hash)]
pub enum PgExternReturnEntity {
    Nothing,
    Type { ty: UsedTypeEntity },
    SetOf { ty: UsedTypeEntity, optional: bool },
    Iterated { tys: Vec<PgExternReturnEntityIteratedItem>, optional: bool },
    Trigger,
}

/// An attribute of a function.
#[derive(Debug, Clone, PartialEq, Eq, Hash)]
pub enum ExternArgs {
    CreateOrReplace,
    Immutable,
    Strict,
    Stable,
    Volatile,
    Raw,
    NoGuard,
    ParallelSafe,
    ParallelUnsafe,
    ParallelRestricted,
    Error(String),
    Schema(String),
    Name(String),
    Cost(String),
    Requires(Vec<PositioningRef>),
}

/// A callable function.
#[derive(Debug, Clone, PartialEq, Eq, Hash)]
pub struct PgExternEntity {
    pub name: String,
    pub unaliased_name: String,
    pub module: String,
    pub full_path: String,
    pub file: String,
    pub line: u32,
    pub extern_attrs: Vec<ExternArgs>,
    pub search_path: Option<Vec<String>>,
    pub fn_args: Vec<PgExternArgumentEntity>,
    pub fn_return: PgExternReturnEntity,
}

/// One spelling of a declared type, with the identity of that spelling.
#[derive(Debug, Clone, PartialEq, Eq, Hash)]
pub struct RustSqlMapping {
    pub rust: String,
    pub sql: String,
    pub id: u64,
}

/// A declared data type.
#[derive(Debug, Clone, PartialEq, Eq, Hash)]
pub struct PostgresTypeEntity {
    pub name: String,
    pub file: String,
    pub line: u32,
    pub full_path: String,
    pub module: String,
    pub mappings: Vec<RustSqlMapping>,
    pub in_fn: String,
    pub in_fn_module: String,
    pub out_fn: String,
    pub out_fn_module: String,
}

/// A declared enumeration.
#[derive(Debug, Clone, PartialEq, Eq, Hash)]
pub struct PostgresEnumEntity {
    pub name: String,
    pub file: String,
    pub line: u32,
    pub full_path: String,
    pub module: String,
    pub mappings: Vec<RustSqlMapping>,
    pub variants: Vec<String>,
}

/// An operator class that orders a type.
#[derive(Debug, Clone, PartialEq, Eq, Hash)]
pub struct PostgresOrdEntity {
    pub name: String,
    pub file: String,
    pub line: u32,
    pub full_path: String,
    pub module: String,
    pub id: u64,
}

/// An operator class that hashes a type.
#[derive(Debug, Clone, PartialEq, Eq, Hash)]
pub struct PostgresHashEntity {
    pub name: String,
    pub file: String,
    pub line: u32,
    pub full_path: String,
    pub module: String,
    pub id: u64,
}

/// A type as an aggregate uses it, with the name of the argument.
#[derive(Debug, Clone, PartialEq, Eq, Hash)]
pub struct AggregateTypeEntity {
    pub used_ty: UsedTypeEntity,
    pub name: Option<String>,
}

/// An aggregate.
#[derive(Debug, Clone, PartialEq, Eq, Hash)]
pub struct PgAggregateEntity {
    pub full_path: String,
    pub module: String,
    pub file: String,
    pub line: u32,
    pub ty_id: u64,
    pub name: String,
    pub ordered_set: bool,
    pub args: Vec<AggregateTypeEntity>,
    pub direct_args: Option<Vec<AggregateTypeEntity>>,
    pub stype: AggregateTypeEntity,
    pub sfunc: String,
    pub finalfunc: Option<String>,
    pub combinefunc: Option<String>,
    pub serialfunc: Option<String>,
    pub deserialfunc: Option<String>,
    pub initcond: Option<String>,
    pub msfunc: Option<String>,
    pub minvfunc: Option<String>,
    pub mstype: Option<UsedTypeEntity>,
    pub mfinalfunc: Option<String>,
    pub minitcond: Option<String>,
    pub sortop: Option<String>,
    pub hypothetical: bool,
}

/// A trigger function.
#[derive(Debug, Clone, PartialEq, Eq, Hash)]
pub struct PgTriggerEntity {
    pub function_name: String,
    pub file: String,
    pub line: u32,
    pub module: String,
    pub full_path: String,
}

/// Any entity that can be handed to the builder.
#[derive(Debug, Clone, PartialEq, Eq, Hash)]
pub enum SqlGraphEntity {
    ExtensionRoot(ControlFile),
    Schema(SchemaEntity),
    CustomSql(ExtensionSqlEntity),
    Function(PgExternEntity),
    Type(PostgresTypeEntity),
    BuiltinType(String),
    Enum(PostgresEnumEntity),
    Ord(PostgresOrdEntity),
    Hash(PostgresHashEntity),
    Aggregate(PgAggregateEntity),
    Trigger(PgTriggerEntity),
}

/// A source-only spelling of a type and the SQL type it stands for.
#[derive(Debug, Clone, PartialEq, Eq, Hash)]
pub struct RustSourceOnlySqlMapping {
    pub rust: String,
    pub sql: String,
}

/// The source-only type mappings that a build starts from.
#[derive(Debug, Clone)]
pub struct RustToSqlMapping {
    pub rust_source_to_sql: Vec<RustSourceOnlySqlMapping>,
}

/// Whether one of `mappings` has the identity `id`.
pub open spec fn mappings_hold(mappings: Seq<RustSqlMapping>, id: u64) -> bool {
    exists|i: int| 0 <= i < mappings.len() && (#[trigger] mappings[i]).id == id
}

/// Whether one of `mappings` has the identity `id`.
pub fn find_mapping(mappings: &Vec<RustSqlMapping>, id: u64) -> (r: bool)
    ensures
        r == mappings_hold(mappings@, id),
{
    let mut i: usize = 0;
    while i < mappings.len()
        invariant
            i <= mappings.len(),
            forall|j: int| 0 <= j < i ==> (#[trigger] mappings@[j]).id != id,
        decreases mappings.len() - i,
    {
        if mappings[i].id == id {
            return true;
        }
        i += 1;
    }
    false
}

impl PostgresTypeEntity {
    /// Whether `candidate` is the identity of one spelling of this type.
    pub open spec fn matches(&self, candidate: u64) -> bool {
        mappings_hold(self.mappings@, candidate)
    }

    /// Whether `candidate` is the identity of one spelling of this type.
    pub fn id_matches(&self, candidate: u64) -> (r: bool)
        ensures
            r == self.matches(candidate),
    {
        find_mapping(&self.mappings, candidate)
    }
}

impl PostgresEnumEntity {
    /// Whether `candidate` is the identity of one spelling of this
    /// enumeration.
    pub open spec fn matches(&self, candidate: u64) -> bool {
        mappings_hold(self.mappings@, candidate)
    }

    /// Whether `candidate` is the identity of one spelling of this
    /// enumeration.
    pub fn id_matches(&self, candidate: u64) -> (r: bool)
        ensures
            r == self.matches(candidate),
    {
        find_mapping(&self.mappings, candidate)
    }
}

impl SqlDeclaredEntity {
    /// Whether this stands for `identifier`: the same kind of thing under
    /// the same name.
    pub open spec fn declares(&self, identifier: SqlDeclared) -> bool {
        match (identifier, *self) {
            (SqlDeclared::Type(name), SqlDeclaredEntity::Type(data)) => name@ == data.name@,
            (SqlDeclared::Enum(name), SqlDeclaredEntity::Enum(data)) => name@ == data.name@,
            (SqlDeclared::Function(name), SqlDeclaredEntity::Function(data)) => name@
                == data.name@,
            _ => false,
        }
    }

    /// Whether this is a type or an enumeration of the name `path`.
    pub open spec fn declares_type_or_enum(&self, path: Seq<char>) -> bool {
        match *self {
            SqlDeclaredEntity::Type(data) => data.name@ == path,
            SqlDeclaredEntity::Enum(data) => data.name@ == path,
            SqlDeclaredEntity::Function(_) => false,
        }
    }

    /// Whether this stands for `identifier`.
    pub fn has_sql_declared_entity(&self, identifier: &SqlDeclared) -> (r: bool)
        ensures
            r == self.declares(*identifier),
    {
        match (identifier, self) {
            (SqlDeclared::Type(name), SqlDeclaredEntity::Type(data)) => *name == data.name,
            (SqlDeclared::Enum(name), SqlDeclaredEntity::Enum(data)) => *name == data.name,
            (SqlDeclared::Function(name), SqlDeclaredEntity::Function(data)) => *name
                == data.name,
            _ => false,
        }
    }

    /// Whether this is a type or an enumeration of the name `path`.
    pub fn is_type_or_enum_named(&self, path: &String) -> (r: bool)
        ensures
            r == self.declares_type_or_enum(path@),
    {
        match self {
            SqlDeclaredEntity::Type(data) => data.name == *path,
            SqlDeclaredEntity::Enum(data) => data.name == *path,
            SqlDeclaredEntity::Function(_) => false,
        }
    }
}

impl ExtensionSqlEntity {
    /// The place of the first thing this fragment declares that stands for
    /// `identifier`.
    pub open spec fn declared_at(&self, identifier: SqlDeclared, at: int) -> bool {
        &&& 0 <= at < self.creates@.len()
        &&& self.creates@[at].declares(identifier)
        &&& forall|j: int| 0 <= j < at ==> !(#[trigger] self.creates@[j]).declares(identifier)
    }

    /// Whether this fragment declares a type or an enumeration of the name
    /// `path`.
    pub open spec fn declares_type_or_enum(&self, path: Seq<char>) -> bool {
        exists|j: int|
            0 <= j < self.creates@.len() && (#[trigger] self.creates@[j]).declares_type_or_enum(
                path,
            )
    }

    /// The first thing this fragment declares that stands for `identifier`.
    pub fn has_sql_declared_entity(&self, identifier: &SqlDeclared) -> (r: Option<
        &SqlDeclaredEntity,
    >)
        ensures
            match r {
                Some(found) => exists|at: int|
                    self.declared_at(*identifier, at) && *found == self.creates@[at],
                None => forall|j: int|
                    0 <= j < self.creates@.len() ==> !(#[trigger] self.creates@[j]).declares(
                        *identifier,
                    ),
            },
    {
        let mut i: usize = 0;
        while i < self.creates.len()
            invariant
                i <= self.creates.len(),
                forall|j: int|
                    0 <= j < i ==> !(#[trigger] self.creates@[j]).declares(*identifier),
            decreases self.creates.len() - i,
        {
            if self.creates[i].has_sql_declared_entity(identifier) {
                assert(self.declared_at(*identifier, i as int));
                return Some(&self.creates[i]);
            }
            i += 1;
        }
        None
    }

    /// Whether this fragment declares a type or an enumeration of the name
    /// `path`.
    pub fn has_type_or_enum(&self, path: &String) -> (r: bool)
        ensures
            r == self.declares_type_or_enum(path@),
    {
        let mut i: usize = 0;
        while i < self.creates.len()
            invariant
                i <= self.creates.len(),
                forall|j: int|
                    0 <= j < i ==> !(#[trigger] self.creates@[j]).declares_type_or_enum(path@),
            decreases self.creates.len() - i,
        {
            if self.creates[i].is_type_or_enum_named(path) {
                return true;
            }
            i += 1;
        }
        false
    }
}

} // verus!
