//! The graph as graphviz text.

use crate::graph::{
    count_nodes, dot_text, node_weight, write_dot, Edge, SqlGraphKind, SqlGraphNode,
    SqlGraphRelationship,
};
use crate::pgx_sql::PgxSql;
use crate::plan::kind_matches;
use crate::queries::text_of;
use vstd::prelude::*;
use vstd::string::*;

verus! {

/// The attributes with which an edge is drawn: a plain ordering in gray, a
/// use in black, a use by what is returned with its arrow turned round.
pub open spec fn edge_attribute_text(relationship: SqlGraphRelationship) -> Seq<char> {
    match relationship {
        SqlGraphRelationship::RequiredBy => "color = \"gray\""@,
        SqlGraphRelationship::RequiredByArg => "color = \"black\""@,
        SqlGraphRelationship::RequiredByReturn => "dir = \"back\", color = \"black\""@,
    }
}

/// The attributes with which an edge is drawn.
pub fn edge_attributes(relationship: SqlGraphRelationship) -> (text: String)
    ensures
        text@ == edge_attribute_text(relationship),
{
    match relationship {
        SqlGraphRelationship::RequiredBy => "color = \"gray\"".to_owned(),
        SqlGraphRelationship::RequiredByArg => "color = \"black\"".to_owned(),
        SqlGraphRelationship::RequiredByReturn => "dir = \"back\", color = \"black\"".to_owned(),
    }
}

/// The edges with the attributes with which each is drawn.
pub open spec fn drawn_edges(edges: Seq<Edge>) -> Seq<(usize, usize, Seq<char>)> {
    Seq::new(edges.len(), |k: int| (edges[k].0, edges[k].1, edge_attribute_text(edges[k].2)))
}

/// The texts as sequences of characters.
pub open spec fn each_text(texts: Seq<String>) -> Seq<Seq<char>> {
    Seq::new(texts.len(), |k: int| texts[k]@)
}

/// The text at `index`, or no text where there is none.
pub fn text_at(texts: &Vec<String>, index: usize) -> (text: String)
    ensures
        text@ == if index < texts@.len() {
            texts@[index as int]@
        } else {
            Seq::empty()
        },
{
    if index < texts.len() {
        texts[index].clone()
    } else {
        String::new()
    }
}

/// What follows the label among the attributes of a node: how nodes of the
/// kind are drawn.
pub open spec fn attribute_tail_text(kind: SqlGraphKind) -> Seq<char> {
    match kind {
        SqlGraphKind::Schema => "\", weight = 6, shape = \"tab\""@,
        SqlGraphKind::Function => "\", penwidth = 0, style = \"filled\", fillcolor = \"#ADC7C6\", weight = 4, shape = \"box\""@,
        SqlGraphKind::Type => "\", penwidth = 0, style = \"filled\", fillcolor = \"#AE9BBD\", weight = 5, shape = \"oval\""@,
        SqlGraphKind::BuiltinType => "\", shape = \"plain\""@,
        SqlGraphKind::Enum => "\", penwidth = 0, style = \"filled\", fillcolor = \"#C9A7C8\", weight = 5, shape = \"oval\""@,
        SqlGraphKind::Ord => "\", penwidth = 0, style = \"filled\", fillcolor = \"#FFCFD3\", weight = 5, shape = \"diamond\""@,
        SqlGraphKind::Hash => "\", penwidth = 0, style = \"filled\", fillcolor = \"#FFE4E0\", weight = 5, shape = \"diamond\""@,
        SqlGraphKind::Aggregate => "\", penwidth = 0, style = \"filled\", fillcolor = \"#FFE4E0\", weight = 5, shape = \"diamond\""@,
        SqlGraphKind::Trigger => "\", penwidth = 0, style = \"filled\", fillcolor = \"#FFE4E0\", weight = 5, shape = \"diamond\""@,
        SqlGraphKind::CustomSql => "\", weight = 3, shape = \"signature\""@,
        SqlGraphKind::ExtensionRoot => "\", shape = \"cylinder\""@,
    }
}

/// What follows the label among the attributes of a node.
pub fn attribute_tail(kind: SqlGraphKind) -> (tail: &'static str)
    ensures
        tail@ == attribute_tail_text(kind),
{
    match kind {
        SqlGraphKind::Schema => "\", weight = 6, shape = \"tab\"",
        SqlGraphKind::Function => "\", penwidth = 0, style = \"filled\", fillcolor = \"#ADC7C6\", weight = 4, shape = \"box\"",
        SqlGraphKind::Type => "\", penwidth = 0, style = \"filled\", fillcolor = \"#AE9BBD\", weight = 5, shape = \"oval\"",
        SqlGraphKind::BuiltinType => "\", shape = \"plain\"",
        SqlGraphKind::Enum => "\", penwidth = 0, style = \"filled\", fillcolor = \"#C9A7C8\", weight = 5, shape = \"oval\"",
        SqlGraphKind::Ord => "\", penwidth = 0, style = \"filled\", fillcolor = \"#FFCFD3\", weight = 5, shape = \"diamond\"",
        SqlGraphKind::Hash => "\", penwidth = 0, style = \"filled\", fillcolor = \"#FFE4E0\", weight = 5, shape = \"diamond\"",
        SqlGraphKind::Aggregate => "\", penwidth = 0, style = \"filled\", fillcolor = \"#FFE4E0\", weight = 5, shape = \"diamond\"",
        SqlGraphKind::Trigger => "\", penwidth = 0, style = \"filled\", fillcolor = \"#FFE4E0\", weight = 5, shape = \"diamond\"",
        SqlGraphKind::CustomSql => "\", weight = 3, shape = \"signature\"",
        SqlGraphKind::ExtensionRoot => "\", shape = \"cylinder\"",
    }
}

/// The attributes of a node of the kind `kind` under the label
/// `identifier`.
pub open spec fn node_attribute_text(kind: SqlGraphKind, identifier: Seq<char>) -> Seq<char> {
    "label = \""@ + identifier + attribute_tail_text(kind)
}

/// The attributes of a node of the kind `kind` under the label
/// `identifier`.
pub fn node_attributes(kind: SqlGraphKind, identifier: &String) -> (text: String)
    ensures
        text@ == node_attribute_text(kind, identifier@),
{
    "label = \"".to_owned().concat(identifier.as_str()).concat(attribute_tail(kind))
}

impl PgxSql {
    /// The label of a node: a word for its kind and the name or path of
    /// the entity that it stands for.
    pub open spec fn identifier_text(&self, node: SqlGraphNode) -> Seq<char> {
        let at = node.position as int;
        match node.kind {
            SqlGraphKind::ExtensionRoot => "extension root"@,
            SqlGraphKind::Schema => "schema "@ + self@.tables.schemas[at].0.name@,
            SqlGraphKind::CustomSql => "sql "@ + self@.tables.extension_sqls[at].0.name@,
            SqlGraphKind::Function => "fn "@ + self@.tables.externs[at].0.name@,
            SqlGraphKind::Type => "type "@ + self@.tables.types[at].0.full_path@,
            SqlGraphKind::BuiltinType => "preexisting type "@ + self@.tables.builtin_types[at].0@,
            SqlGraphKind::Enum => "enum "@ + self@.tables.enums[at].0.full_path@,
            SqlGraphKind::Ord => "ord "@ + self@.tables.ords[at].0.full_path@,
            SqlGraphKind::Hash => "hash "@ + self@.tables.hashes[at].0.full_path@,
            SqlGraphKind::Aggregate => "aggregate "@ + self@.tables.aggregates[at].0.full_path@,
            SqlGraphKind::Trigger => "trigger fn "@ + self@.tables.triggers[at].0.full_path@,
        }
    }

    /// The attributes with which each node is drawn.
    pub open spec fn node_attribute_texts(&self) -> Seq<Seq<char>> {
        Seq::new(
            self@.nodes.len(),
            |i: int|
                node_attribute_text(self@.nodes[i].kind, self.identifier_text(self@.nodes[i])),
        )
    }

    /// The label of the node `index`; none for an index that is no node.
    pub fn dot_identifier(&self, index: usize) -> (r: Option<String>)
        ensures
            text_of(r) == if index < self@.nodes.len() {
                Some(self.identifier_text(self@.nodes[index as int]))
            } else {
                None
            },
    {
        proof {
            use_type_invariant(self);
        }
        if index < count_nodes(self.graph()) {
            Some(self.label(index))
        } else {
            None
        }
    }

    /// The label of the node `index`.
    fn label(&self, index: usize) -> (text: String)
        requires
            index < self@.nodes.len(),
        ensures
            text@ == self.identifier_text(self@.nodes[index as int]),
    {
        proof {
            use_type_invariant(self);
        }
        let node = node_weight(self.graph(), index);
        let at = node.position;
        proof {
            assert(kind_matches(self@.nodes, self@.tables, node.kind));
        }
        match node.kind {
            SqlGraphKind::ExtensionRoot => "extension root".to_owned(),
            SqlGraphKind::Schema => "schema ".to_owned().concat(
                self.tables().schemas[at].0.name.as_str(),
            ),
            SqlGraphKind::CustomSql => "sql ".to_owned().concat(
                self.tables().extension_sqls[at].0.name.as_str(),
            ),
            SqlGraphKind::Function => "fn ".to_owned().concat(
                self.tables().externs[at].0.name.as_str(),
            ),
            SqlGraphKind::Type => "type ".to_owned().concat(
                self.tables().types[at].0.full_path.as_str(),
            ),
            SqlGraphKind::BuiltinType => "preexisting type ".to_owned().concat(
                self.tables().builtin_types[at].0.as_str(),
            ),
            SqlGraphKind::Enum => "enum ".to_owned().concat(
                self.tables().enums[at].0.full_path.as_str(),
            ),
            SqlGraphKind::Ord => "ord ".to_owned().concat(
                self.tables().ords[at].0.full_path.as_str(),
            ),
            SqlGraphKind::Hash => "hash ".to_owned().concat(
                self.tables().hashes[at].0.full_path.as_str(),
            ),
            SqlGraphKind::Aggregate => "aggregate ".to_owned().concat(
                self.tables().aggregates[at].0.full_path.as_str(),
            ),
            SqlGraphKind::Trigger => "trigger fn ".to_owned().concat(
                self.tables().triggers[at].0.full_path.as_str(),
            ),
        }
    }

    /// The graph as graphviz text: every node under its label and drawn as
    /// its kind is, every edge drawn as its relationship is.
    pub fn to_dot(&self) -> (text: String)
        ensures
            text@ == dot_text(self.node_attribute_texts(), drawn_edges(self@.edges)),
    {
        proof {
            use_type_invariant(self);
        }
        let count = count_nodes(self.graph());
        let mut attributes: Vec<String> = Vec::new();
        let mut index: usize = 0;
        while index < count
            invariant
                index <= count,
                count == self@.nodes.len(),
                attributes@.len() == index,
                forall|i: int|
                    0 <= i < index ==> (#[trigger] attributes@[i])@
                        == self.node_attribute_texts()[i],
            decreases count - index,
        {
            proof {
                use_type_invariant(self);
            }
            let node = node_weight(self.graph(), index);
            let identifier = self.label(index);
            attributes.push(node_attributes(node.kind, &identifier));
            index += 1;
        }
        proof {
            assert(each_text(attributes@) =~= self.node_attribute_texts());
        }
        write_dot(self.graph(), &attributes)
    }
}

} // verus!
