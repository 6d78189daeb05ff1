//! Decoding of a parsed document tree into the typed configuration.
//!
//! The textual format is parsed elsewhere into a [`Doc`]; here its shape is
//! checked and turned into a [`Config`]. A command entry is a mapping whose
//! `type` names its kind (`copy`, `replace` or `run`, also accepted
//! capitalised) and which holds every field of that kind with the right
//! scalar type; other keys are ignored.

use vstd::prelude::*;
use crate::config::{Command, Config, DefineItem, Replace, Run};

verus! {

/// A parsed document: scalars as their text, booleans, lists and mappings.
#[derive(Debug)]
pub enum Doc {
    Null,
    Bool(bool),
    Text(String),
    List(Vec<Doc>),
    Mapping(Vec<(String, Doc)>),
}

/// Why a configuration could not be loaded.
#[derive(Clone, Debug, PartialEq, Eq)]
pub enum LoadError {
    /// The file could not be read.
    Io(String),
    /// The document does not have the shape of a configuration.
    Decode(String),
    /// The command entry at this index has no valid kind or lacks a field.
    InvalidCommandShape(usize),
}

/// Index of the first entry keyed `key` at or after `i`, or -1.
pub open spec fn entry_index_from(m: Seq<(String, Doc)>, key: Seq<char>, i: int) -> int
    decreases m.len() - i,
{
    if i < 0 || i >= m.len() {
        -1
    } else if m[i].0@ == key {
        i
    } else {
        entry_index_from(m, key, i + 1)
    }
}

/// The value under `key`, where `doc` is a mapping that has one.
pub open spec fn field(doc: Doc, key: Seq<char>) -> Option<Doc> {
    match doc {
        Doc::Mapping(m) => {
            let k = entry_index_from(m@, key, 0);
            if 0 <= k < m@.len() {
                Some(m@[k].1)
            } else {
                None
            }
        },
        _ => None,
    }
}

/// The text under `key`, where there is one.
pub open spec fn text_field(doc: Doc, key: Seq<char>) -> Option<Seq<char>> {
    match field(doc, key) {
        Some(Doc::Text(s)) => Some(s@),
        _ => None,
    }
}

/// The boolean under `key`, where there is one.
pub open spec fn bool_field(doc: Doc, key: Seq<char>) -> Option<bool> {
    match field(doc, key) {
        Some(Doc::Bool(b)) => Some(b),
        _ => None,
    }
}

/// The command kind that `doc`'s `type` names.
pub open spec fn has_kind(doc: Doc, lower: Seq<char>, upper: Seq<char>) -> bool {
    text_field(doc, "type"@) == Some(lower) || text_field(doc, "type"@) == Some(upper)
}

pub open spec fn is_copy_entry(doc: Doc) -> bool {
    &&& has_kind(doc, "copy"@, "Copy"@)
    &&& text_field(doc, "source"@) is Some
    &&& text_field(doc, "destination"@) is Some
    &&& text_field(doc, "gitignore_path"@) is Some
    &&& bool_field(doc, "use_gitignore"@) is Some
}

pub open spec fn is_replace_entry(doc: Doc) -> bool {
    &&& has_kind(doc, "replace"@, "Replace"@)
    &&& text_field(doc, "source"@) is Some
    &&& text_field(doc, "regex"@) is Some
    &&& text_field(doc, "replacement"@) is Some
}

pub open spec fn is_run_entry(doc: Doc) -> bool {
    &&& has_kind(doc, "run"@, "Run"@)
    &&& text_field(doc, "command"@) is Some
}

/// `doc` is a well-formed command entry.
pub open spec fn command_entry_ok(doc: Doc) -> bool {
    is_copy_entry(doc) || is_replace_entry(doc) || is_run_entry(doc)
}

/// `c` is what the command entry `doc` says.
pub open spec fn command_decodes(doc: Doc, c: Command) -> bool {
    match c {
        Command::Copy(x) => {
            &&& has_kind(doc, "copy"@, "Copy"@)
            &&& text_field(doc, "source"@) == Some(x.source@)
            &&& text_field(doc, "destination"@) == Some(x.destination@)
            &&& text_field(doc, "gitignore_path"@) == Some(x.gitignore_path@)
            &&& bool_field(doc, "use_gitignore"@) == Some(x.use_gitignore)
        },
        Command::Replace(x) => {
            &&& has_kind(doc, "replace"@, "Replace"@)
            &&& text_field(doc, "source"@) == Some(x.source@)
            &&& text_field(doc, "regex"@) == Some(x.regex@)
            &&& text_field(doc, "replacement"@) == Some(x.replacement@)
        },
        Command::Run(x) => {
            &&& has_kind(doc, "run"@, "Run"@)
            &&& text_field(doc, "command"@) == Some(x.command@)
        },
    }
}

/// `doc` is a well-formed definition entry.
pub open spec fn define_entry_ok(doc: Doc) -> bool {
    text_field(doc, "key"@) is Some && text_field(doc, "value"@) is Some
}

/// `d` is what the definition entry `doc` says.
pub open spec fn define_decodes(doc: Doc, d: DefineItem) -> bool {
    text_field(doc, "key"@) == Some(d.key@) && text_field(doc, "value"@) == Some(d.value@)
}

/// The list under `key`, where there is one.
pub open spec fn list_field(doc: Doc, key: Seq<char>) -> Option<Seq<Doc>> {
    match field(doc, key) {
        Some(Doc::List(l)) => Some(l@),
        _ => None,
    }
}

/// `doc` has a list of well-formed definitions under `define_items`.
pub open spec fn define_list_ok(doc: Doc) -> bool {
    &&& list_field(doc, "define_items"@) is Some
    &&& forall|i: int|
        0 <= i < list_field(doc, "define_items"@)->0.len() ==> define_entry_ok(
            #[trigger] list_field(doc, "define_items"@)->0[i],
        )
}

/// `items` are the definitions of `doc`, in order.
pub open spec fn define_list_decodes(doc: Doc, items: Seq<DefineItem>) -> bool {
    &&& list_field(doc, "define_items"@) is Some
    &&& items.len() == list_field(doc, "define_items"@)->0.len()
    &&& forall|i: int|
        0 <= i < items.len() ==> define_decodes(
            list_field(doc, "define_items"@)->0[i],
            #[trigger] items[i],
        )
}

/// Index of the first ill-formed command entry of `l` at or after `i`, or -1.
pub open spec fn first_bad_command_from(l: Seq<Doc>, i: int) -> int
    decreases l.len() - i,
{
    if i < 0 || i >= l.len() {
        -1
    } else if !command_entry_ok(l[i]) {
        i
    } else {
        first_bad_command_from(l, i + 1)
    }
}

/// `doc` has definitions and a list of commands.
pub open spec fn config_shape_ok(doc: Doc) -> bool {
    define_list_ok(doc) && list_field(doc, "command"@) is Some
}

/// The command entries of `doc`.
pub open spec fn command_entries(doc: Doc) -> Seq<Doc> {
    list_field(doc, "command"@)->0
}

fn entry_of<'a>(doc: &'a Doc, key: &str) -> (r: Option<&'a Doc>)
    ensures
        r matches Some(d) ==> field(*doc, key@) == Some(*d),
        r is None ==> field(*doc, key@) is None,
{
    match *doc {
        Doc::Mapping(ref m) => {
            let want = String::from_str(key);
            let mut i: usize = 0;
            while i < m.len()
                invariant
                    i <= m@.len(),
                    want@ == key@,
                    *doc is Mapping,
                    doc->Mapping_0@ == m@,
                    entry_index_from(m@, key@, 0) == entry_index_from(m@, key@, i as int),
                decreases m@.len() - i,
            {
                if m[i].0 == want {
                    assert(entry_index_from(m@, key@, i as int) == i);
                    return Some(&m[i].1);
                }
                i = i + 1;
            }
            None
        },
        _ => None,
    }
}

fn text_of(doc: &Doc, key: &str) -> (r: Option<String>)
    ensures
        r matches Some(s) ==> text_field(*doc, key@) == Some(s@),
        r is None ==> text_field(*doc, key@) is None,
{
    match entry_of(doc, key) {
        Some(Doc::Text(s)) => Some(s.clone()),
        _ => None,
    }
}

fn bool_of(doc: &Doc, key: &str) -> (r: Option<bool>)
    ensures
        r == bool_field(*doc, key@),
{
    match entry_of(doc, key) {
        Some(Doc::Bool(b)) => Some(*b),
        _ => None,
    }
}

/// Whether `doc`'s `type` is `lower` or `upper`.
fn kind_is(doc: &Doc, lower: &str, upper: &str) -> (r: bool)
    ensures
        r == has_kind(*doc, lower@, upper@),
{
    match text_of(doc, "type") {
        Some(t) => t == String::from_str(lower) || t == String::from_str(upper),
        None => false,
    }
}

/// Decodes one command entry.
pub fn command_from_doc(doc: &Doc) -> (r: Option<Command>)
    ensures
        r is Some <==> command_entry_ok(*doc),
        r matches Some(c) ==> command_decodes(*doc, c),
{
    if kind_is(doc, "copy", "Copy") {
        match (
            text_of(doc, "source"),
            text_of(doc, "destination"),
            text_of(doc, "gitignore_path"),
            bool_of(doc, "use_gitignore"),
        ) {
            (Some(source), Some(destination), Some(gitignore_path), Some(use_gitignore)) => {
                return Some(
                    Command::Copy(crate::config::Copy { source, destination, gitignore_path, use_gitignore }),
                );
            },
            _ => {},
        }
    }
    if kind_is(doc, "replace", "Replace") {
        match (text_of(doc, "source"), text_of(doc, "regex"), text_of(doc, "replacement")) {
            (Some(source), Some(regex), Some(replacement)) => {
                return Some(Command::Replace(Replace { source, regex, replacement }));
            },
            _ => {},
        }
    }
    if kind_is(doc, "run", "Run") {
        match text_of(doc, "command") {
            Some(command) => {
                return Some(Command::Run(Run { command }));
            },
            None => {},
        }
    }
    None
}


fn list_of<'a>(doc: &'a Doc, key: &str) -> (r: Option<&'a Vec<Doc>>)
    ensures
        r matches Some(l) ==> list_field(*doc, key@) == Some(l@),
        r is None ==> list_field(*doc, key@) is None,
{
    match entry_of(doc, key) {
        Some(Doc::List(l)) => Some(l),
        _ => None,
    }
}

/// Decodes the definitions of a configuration document.
pub fn define_items_from_doc(doc: &Doc) -> (r: Result<Vec<DefineItem>, LoadError>)
    ensures
        r is Ok <==> define_list_ok(*doc),
        r matches Ok(items) ==> define_list_decodes(*doc, items@),
        r is Err ==> r matches Err(LoadError::Decode(_)),
{
    let l = match list_of(doc, "define_items") {
        Some(l) => l,
        None => {
            return Err(LoadError::Decode(String::from_str("missing list `define_items`")));
        },
    };
    let mut items: Vec<DefineItem> = Vec::new();
    let mut i: usize = 0;
    while i < l.len()
        invariant
            i <= l@.len(),
            list_field(*doc, "define_items"@) == Some(l@),
            items@.len() == i,
            forall|j: int| 0 <= j < i ==> define_entry_ok(#[trigger] l@[j]),
            forall|j: int| 0 <= j < i ==> define_decodes(l@[j], #[trigger] items@[j]),
        decreases l@.len() - i,
    {
        match (text_of(&l[i], "key"), text_of(&l[i], "value")) {
            (Some(key), Some(value)) => {
                items.push(DefineItem { key, value });
            },
            _ => {
                assert(!define_entry_ok(list_field(*doc, "define_items"@)->0[i as int]));
                return Err(
                    LoadError::Decode(String::from_str("a definition lacks `key` or `value`")),
                );
            },
        }
        i = i + 1;
    }
    Ok(items)
}

/// Decodes a whole configuration document.
pub fn config_from_doc(doc: &Doc) -> (r: Result<Config, LoadError>)
    ensures
        r is Ok <==> config_shape_ok(*doc) && first_bad_command_from(command_entries(*doc), 0)
            == -1,
        r matches Ok(c) ==> {
            &&& define_list_decodes(*doc, c.define_items@)
            &&& c.command@.len() == command_entries(*doc).len()
            &&& forall|i: int|
                0 <= i < c.command@.len() ==> command_decodes(
                    command_entries(*doc)[i],
                    #[trigger] c.command@[i],
                )
        },
        !config_shape_ok(*doc) ==> r matches Err(LoadError::Decode(_)),
        config_shape_ok(*doc) && first_bad_command_from(command_entries(*doc), 0) >= 0 ==> r
            == Err::<Config, LoadError>(
            LoadError::InvalidCommandShape(
                first_bad_command_from(command_entries(*doc), 0) as usize,
            ),
        ),
{
    let define_items = match define_items_from_doc(doc) {
        Ok(items) => items,
        Err(e) => {
            return Err(e);
        },
    };
    let l = match list_of(doc, "command") {
        Some(l) => l,
        None => {
            return Err(LoadError::Decode(String::from_str("missing list `command`")));
        },
    };
    let mut command: Vec<Command> = Vec::new();
    let mut i: usize = 0;
    while i < l.len()
        invariant
            i <= l@.len(),
            list_field(*doc, "command"@) == Some(l@),
            define_list_ok(*doc),
            define_list_decodes(*doc, define_items@),
            command@.len() == i,
            first_bad_command_from(l@, 0) == first_bad_command_from(l@, i as int),
            forall|j: int| 0 <= j < i ==> command_decodes(l@[j], #[trigger] command@[j]),
        decreases l@.len() - i,
    {
        match command_from_doc(&l[i]) {
            Some(c) => {
                command.push(c);
            },
            None => {
                return Err(LoadError::InvalidCommandShape(i));
            },
        }
        i = i + 1;
    }
    Ok(Config { define_items, command })
}

} // verus!
