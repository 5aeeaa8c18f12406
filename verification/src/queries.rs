//! What the entities ask of the finished graph while they are emitted.

use crate::entity::{ExtensionSqlEntity, RustSourceOnlySqlMapping, SqlDeclared, SqlDeclaredEntity};
use crate::graph::{neighbors_of, neighbors_undirected, node_weight, SqlGraphKind, SqlGraphNode};
use crate::pgx_sql::PgxSql;
use crate::plan::kind_matches;
use vstd::prelude::*;
use vstd::string::*;

verus! {

/// The text of a string that may be there.
pub open spec fn text_of(s: Option<String>) -> Option<Seq<char>> {
    match s {
        Some(s) => Some(s@),
        None => None,
    }
}

/// Whether the SQL fragment declares something that stands for
/// `identifier`.
pub open spec fn declares_some(sql: ExtensionSqlEntity, identifier: SqlDeclared) -> bool {
    exists|j: int| 0 <= j < sql.creates@.len() && (#[trigger] sql.creates@[j]).declares(identifier)
}

/// Whether mapping `i` is the last for the source text `ty_source`.
pub open spec fn is_last_mapping(
    mappings: Seq<RustSourceOnlySqlMapping>,
    ty_source: Seq<char>,
    i: int,
) -> bool {
    &&& 0 <= i < mappings.len()
    &&& mappings[i].rust@ == ty_source
    &&& forall|j: int| i < j < mappings.len() ==> (#[trigger] mappings[j]).rust@ != ty_source
}

impl PgxSql {
    /// The schema name that a neighbour gives to a node: a schema its
    /// name; the root the schema of the control entity, or the token for
    /// the name of the extension where the extension is relocatable; any
    /// other node none.
    pub open spec fn alias_from(&self, node: SqlGraphNode) -> Option<Seq<char>> {
        match node.kind {
            SqlGraphKind::Schema => Some(self@.tables.schemas[node.position as int].0.name@),
            SqlGraphKind::ExtensionRoot => if !self@.control.relocatable {
                text_of(self@.control.schema)
            } else {
                Some("@extname@"@)
            },
            _ => None,
        }
    }

    /// The first schema name that one of `neighbors`, from `from` on,
    /// gives.
    pub open spec fn first_alias(&self, neighbors: Seq<usize>, from: int) -> Option<Seq<char>>
        decreases neighbors.len() - from,
    {
        if from < 0 || from >= neighbors.len() {
            None
        } else {
            match self.alias_from(self@.nodes[neighbors[from] as int]) {
                Some(alias) => Some(alias),
                None => self.first_alias(neighbors, from + 1),
            }
        }
    }

    /// The schema that the node `item_index` is emitted into: what the
    /// first of its neighbours that gives a schema name gives.
    pub open spec fn schema_alias(&self, item_index: usize) -> Option<Seq<char>> {
        self.first_alias(neighbors_of(self@.edges, item_index), 0)
    }

    /// The prefix for the names of what the node declares: the schema and
    /// a dot, or nothing.
    pub open spec fn schema_prefix(&self, target: usize) -> Seq<char> {
        match self.schema_alias(target) {
            Some(alias) => alias + "."@,
            None => Seq::empty(),
        }
    }

    /// The name of the schema that the node `item_index` is emitted into.
    pub fn schema_alias_of(&self, item_index: usize) -> (r: Option<String>)
        ensures
            text_of(r) == self.schema_alias(item_index),
    {
        proof {
            use_type_invariant(self);
        }
        let neighbors = neighbors_undirected(self.graph(), item_index);
        let mut i: usize = 0;
        while i < neighbors.len()
            invariant
                i <= neighbors.len(),
                neighbors@ == neighbors_of(self@.edges, item_index),
                forall|k: int| 0 <= k < neighbors@.len() ==> neighbors@[k] < self@.nodes.len(),
                self.first_alias(neighbors@, i as int) == self.schema_alias(item_index),
            decreases neighbors.len() - i,
        {
            proof {
                use_type_invariant(self);
            }
            let node = node_weight(self.graph(), neighbors[i]);
            match node.kind {
                SqlGraphKind::Schema => {
                    proof {
                        assert(kind_matches(self@.nodes, self@.tables, SqlGraphKind::Schema));
                    }
                    return Some(self.tables().schemas[node.position].0.name.clone());
                },
                SqlGraphKind::ExtensionRoot => {
                    if !self.control().relocatable {
                        match &self.control().schema {
                            Some(schema) => {
                                return Some(schema.clone());
                            },
                            None => {},
                        }
                    } else {
                        return Some("@extname@".to_owned());
                    }
                },
                _ => {},
            }
            i += 1;
        }
        None
    }

    /// The prefix for the names of what the node `target` declares.
    pub fn schema_prefix_for(&self, target: usize) -> (r: String)
        ensures
            r@ == self.schema_prefix(target),
    {
        match self.schema_alias_of(target) {
            Some(alias) => alias.concat("."),
            None => String::new(),
        }
    }

    /// What the SQL fragments declare for `identifier`: the first such
    /// thing of the first fragment that declares one.
    pub fn has_sql_declared_entity(&self, identifier: &SqlDeclared) -> (r: Option<
        &SqlDeclaredEntity,
    >)
        ensures
            match r {
                Some(found) => exists|k: int, at: int|
                    {
                        &&& 0 <= k < self@.tables.extension_sqls.len()
                        &&& #[trigger] self@.tables.extension_sqls[k].0.declared_at(
                            *identifier,
                            at,
                        )
                        &&& *found == self@.tables.extension_sqls[k].0.creates@[at]
                        &&& forall|j: int|
                            0 <= j < k ==> !declares_some(
                                (#[trigger] self@.tables.extension_sqls[j]).0,
                                *identifier,
                            )
                    },
                None => forall|k: int|
                    0 <= k < self@.tables.extension_sqls.len() ==> !declares_some(
                        (#[trigger] self@.tables.extension_sqls[k]).0,
                        *identifier,
                    ),
            },
    {
        let sqls = &self.tables().extension_sqls;
        let mut k: usize = 0;
        while k < sqls.len()
            invariant
                k <= sqls.len(),
                sqls@ == self@.tables.extension_sqls,
                forall|j: int|
                    0 <= j < k ==> !declares_some(
                        (#[trigger] self@.tables.extension_sqls[j]).0,
                        *identifier,
                    ),
            decreases sqls.len() - k,
        {
            let found = sqls[k].0.has_sql_declared_entity(identifier);
            if found.is_some() {
                return found;
            }
            k += 1;
        }
        None
    }

    /// The SQL type that stands for the source text `ty_source`: that of
    /// the last mapping for it.
    pub fn source_only_to_sql_type(&self, ty_source: &str) -> (r: Option<String>)
        ensures
            match r {
                Some(sql) => exists|i: int|
                    is_last_mapping(self@.source_mappings, ty_source@, i)
                        && sql@ == self@.source_mappings[i].sql@,
                None => forall|i: int|
                    0 <= i < self@.source_mappings.len() ==> (
                    #[trigger] self@.source_mappings[i]).rust@ != ty_source@,
            },
    {
        let wanted = ty_source.to_owned();
        let mappings = self.source_mappings();
        let mut i: usize = mappings.len();
        while i > 0
            invariant
                i <= mappings.len(),
                mappings@ == self@.source_mappings,
                wanted@ == ty_source@,
                forall|j: int|
                    i <= j < self@.source_mappings.len() ==> (
                    #[trigger] self@.source_mappings[j]).rust@ != ty_source@,
            decreases i,
        {
            i -= 1;
            if mappings[i].rust == wanted {
                assert(is_last_mapping(self@.source_mappings, ty_source@, i as int));
                return Some(mappings[i].sql.clone());
            }
        }
        None
    }

    /// The path of the module as SQL names it: with a versioned library,
    /// the library directory, the name of the extension, a hyphen and the
    /// default version; else the token for the path.
    pub open spec fn module_pathname(&self) -> Seq<char> {
        if self@.versioned_so {
            "$libdir/"@ + self@.extension_name + "-"@ + self@.control.default_version@
        } else {
            "MODULE_PATHNAME"@
        }
    }

    /// The path of the module as SQL names it.
    pub fn get_module_pathname(&self) -> (r: String)
        ensures
            r@ == self.module_pathname(),
    {
        if self.versioned_so() {
            "$libdir/".to_owned().concat(self.extension_name().as_str()).concat("-").concat(
                self.control().default_version.as_str(),
            )
        } else {
            "MODULE_PATHNAME".to_owned()
        }
    }
}

} // verus!
