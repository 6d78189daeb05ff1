//! The typed configuration: definitions and the ordered command list.

use vstd::prelude::*;

verus! {

/// A named definition available for `${name}` substitution.
#[derive(Clone, Debug, PartialEq, Eq)]
pub struct DefineItem {
    pub key: String,
    pub value: String,
}

/// Copy every regular file under `source` to the same relative path under
/// `destination`, honouring ignore files when `use_gitignore` is set.
#[derive(Clone, Debug, PartialEq, Eq)]
pub struct Copy {
    pub source: String,
    pub destination: String,
    pub gitignore_path: String,
    pub use_gitignore: bool,
}

/// Rewrite every file matched by the glob `source`, replacing all matches of
/// `regex` by `replacement`.
#[derive(Clone, Debug, PartialEq, Eq)]
pub struct Replace {
    pub source: String,
    pub regex: String,
    pub replacement: String,
}

/// Run a shell command line.
#[derive(Clone, Debug, PartialEq, Eq)]
pub struct Run {
    pub command: String,
}

/// One step of a configuration.
#[derive(Clone, Debug, PartialEq, Eq)]
pub enum Command {
    Copy(Copy),
    Replace(Replace),
    Run(Run),
}

/// A whole configuration: the definitions, and the commands in execution order.
#[derive(Clone, Debug, PartialEq, Eq)]
pub struct Config {
    pub define_items: Vec<DefineItem>,
    pub command: Vec<Command>,
}

/// The abstract value of a definition list: (key, value) pairs in order.
pub open spec fn items_view(items: Seq<DefineItem>) -> Seq<(Seq<char>, Seq<char>)> {
    items.map_values(|d: DefineItem| (d.key@, d.value@))
}

} // verus!
