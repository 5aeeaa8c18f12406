//! Why a graph could not be built.

use crate::entity::PositioningRef;
use vstd::prelude::*;
use vstd::string::*;

verus! {

/// Why a graph could not be built.
#[derive(Debug, Clone, PartialEq, Eq)]
pub enum BuildError {
    /// No control entity among the entities.
    MissingControlFile,
    /// Two SQL fragments ask to be the bootstrap; both by full path.
    MultipleBootstrap { found: String, other: String },
    /// Two SQL fragments ask to be the finalize; both by full path.
    MultipleFinalize { found: String, other: String },
    /// A reference listed as required names nothing. The entity by full
    /// path, with the place it was declared at.
    RequiresNotFound { entity: String, file: String, line: u32, reference: PositioningRef },
    /// A function names a schema that no schema entity declares.
    SchemaNotFound { entity: String, schema: String },
    /// An aggregate names a support function that no function entity has.
    FunctionNotFound { entity: String, module: String, function: String },
}

/// The ten digits.
pub open spec fn digits() -> Seq<char> {
    seq!['0', '1', '2', '3', '4', '5', '6', '7', '8', '9']
}

/// A number in decimal.
pub open spec fn decimal_text(n: nat) -> Seq<char>
    decreases n,
{
    if n < 10 {
        seq![digits()[n as int]]
    } else {
        decimal_text(n / 10).push(digits()[(n % 10) as int])
    }
}

/// The digit `d`.
fn digit(d: u32) -> (text: &'static str)
    requires
        d < 10,
    ensures
        text@ == seq![digits()[d as int]],
{
    proof {
        reveal_strlit("0");
        reveal_strlit("1");
        reveal_strlit("2");
        reveal_strlit("3");
        reveal_strlit("4");
        reveal_strlit("5");
        reveal_strlit("6");
        reveal_strlit("7");
        reveal_strlit("8");
        reveal_strlit("9");
    }
    let text = if d == 0 {
        "0"
    } else if d == 1 {
        "1"
    } else if d == 2 {
        "2"
    } else if d == 3 {
        "3"
    } else if d == 4 {
        "4"
    } else if d == 5 {
        "5"
    } else if d == 6 {
        "6"
    } else if d == 7 {
        "7"
    } else if d == 8 {
        "8"
    } else {
        "9"
    };
    text
}

/// A number in decimal.
pub fn decimal(n: u32) -> (text: String)
    ensures
        text@ == decimal_text(n as nat),
    decreases n,
{
    if n < 10 {
        digit(n).to_owned()
    } else {
        let text = decimal(n / 10).concat(digit(n % 10));
        text
    }
}

/// A reference as a message shows it: a path as it is, a name in quotes.
pub open spec fn reference_text(reference: PositioningRef) -> Seq<char> {
    match reference {
        PositioningRef::FullPath(path) => path@,
        PositioningRef::Name(name) => "\""@ + name@ + "\""@,
    }
}

/// A reference as a message shows it.
pub fn show_reference(reference: &PositioningRef) -> (text: String)
    ensures
        text@ == reference_text(*reference),
{
    match reference {
        PositioningRef::FullPath(path) => path.clone(),
        PositioningRef::Name(name) => "\"".to_owned().concat(name.as_str()).concat("\""),
    }
}

impl BuildError {
    /// What is wrong, in words: with the entity at fault by its full path,
    /// the place of its declaration where the failure has one, and what was
    /// looked for in vain as it was written.
    pub open spec fn message_text(&self) -> Seq<char> {
        match *self {
            BuildError::MissingControlFile => "No control file found"@,
            BuildError::MultipleBootstrap { found, other } =>
                "Cannot have multiple `extension_sql!()` with `bootstrap` positioning, found `"@
                    + found@ + "`, other was `"@ + other@ + "`"@,
            BuildError::MultipleFinalize { found, other } =>
                "Cannot have multiple `extension_sql!()` with `finalize` positioning, found `"@
                    + found@ + "`, other was `"@ + other@ + "`"@,
            BuildError::RequiresNotFound { entity, file, line, reference } =>
                "Could not find `requires` target of `"@ + entity@ + "` ("@ + file@ + ":"@
                    + decimal_text(line as nat) + "): "@ + reference_text(reference),
            BuildError::SchemaNotFound { entity, schema } => "Got manual `schema = \""@ + schema@
                + "\"` setting on `"@ + entity@ + "`, but that schema did not exist."@,
            BuildError::FunctionNotFound { entity, module, function } =>
                "Did not find connection `"@ + module@ + "::"@ + function@ + "` of `"@ + entity@
                    + "`"@,
        }
    }

    /// What is wrong, in words.
    pub fn message(&self) -> (text: String)
        ensures
            text@ == self.message_text(),
    {
        match self {
            BuildError::MissingControlFile => "No control file found".to_owned(),
            BuildError::MultipleBootstrap { found, other } =>
                "Cannot have multiple `extension_sql!()` with `bootstrap` positioning, found `".to_owned().concat(
                    found.as_str(),
                ).concat("`, other was `").concat(other.as_str()).concat("`"),
            BuildError::MultipleFinalize { found, other } =>
                "Cannot have multiple `extension_sql!()` with `finalize` positioning, found `".to_owned().concat(
                    found.as_str(),
                ).concat("`, other was `").concat(other.as_str()).concat("`"),
            BuildError::RequiresNotFound { entity, file, line, reference } => {
                let number = decimal(*line);
                let shown = show_reference(reference);
                "Could not find `requires` target of `".to_owned().concat(entity.as_str()).concat(
                    "` (",
                ).concat(file.as_str()).concat(":").concat(number.as_str()).concat("): ").concat(
                    shown.as_str(),
                )
            },
            BuildError::SchemaNotFound { entity, schema } => "Got manual `schema = \"".to_owned().concat(
                schema.as_str(),
            ).concat("\"` setting on `").concat(entity.as_str()).concat(
                "`, but that schema did not exist.",
            ),
            BuildError::FunctionNotFound { entity, module, function } =>
                "Did not find connection `".to_owned().concat(module.as_str()).concat("::").concat(
                    function.as_str(),
                ).concat("` of `").concat(entity.as_str()).concat("`"),
        }
    }
}

} // verus!
